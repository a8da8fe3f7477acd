//! Batch delete: the XML manifest, its signed POST, and the reading of the
//! service's answer.
use vstd::prelude::*;
use vstd::string::*;
use vstd::utf8::encode_utf8;
use crate::client::{full_key_of, host, host_of, CosClient};
use crate::model::{CosConfig, DeleteResult};
use crate::primitives::{base64_encode, base64_of, md5_digest, md5_of};
use crate::request::{is_success, CosError, Operation, RequestView, SignedRequest};
use crate::signing::{authorization_of, entry_views, Entry};
use crate::scan::{count_from, count_occurrences, occurs, occurs_at, past};
use crate::text::{join_str, nat_string, nat_text, slice, texts};

verus! {

/// The byte length of a text's UTF-8 encoding, as the platform counts it.
pub open spec fn byte_len(s: Seq<char>) -> nat {
    (encode_utf8(s).len() as usize) as nat
}

/// The opening of a delete manifest, in verbose mode.
pub open spec fn manifest_head() -> Seq<char> {
    "<?xml version=\"1.0\" encoding=\"UTF-8\"?>\n<Delete>\n<Quiet>false</Quiet>\n"@
}

/// One `<Object>` entry per key, each naming the fully-qualified key.
pub open spec fn manifest_objects(dir: Option<String>, keys: Seq<Seq<char>>) -> Seq<char>
    decreases keys.len(),
{
    if keys.len() == 0 {
        Seq::empty()
    } else {
        manifest_objects(dir, keys.drop_last()) + "<Object><Key>"@ + full_key_of(dir, keys.last())
            + "</Key></Object>\n"@
    }
}

/// The delete manifest of the keys.
pub open spec fn manifest_of(dir: Option<String>, keys: Seq<Seq<char>>) -> Seq<char> {
    manifest_head() + manifest_objects(dir, keys) + "</Delete>"@
}

/// The POST of a batch delete signed at `now`.
pub open spec fn delete_request_of(config: CosConfig, now: int, keys: Seq<Seq<char>>) -> RequestView {
    let body = manifest_of(config.dir, keys);
    let md5 = base64_of(md5_of(encode_utf8(body)));
    let len = nat_text(byte_len(body));
    let auth = authorization_of(
        config,
        now,
        "POST"@,
        "/"@,
        seq![
            ("host"@, host_of(config.bucket@, config.region@)),
            ("content-type"@, "application/xml"@),
            ("content-md5"@, md5),
            ("content-length"@, len),
        ],
        seq![("delete"@, Seq::empty())],
    );
    RequestView {
        method: "POST"@,
        url: "https://"@ + host_of(config.bucket@, config.region@) + "/?delete"@,
        headers: seq![
            ("Authorization"@, auth),
            ("Content-Type"@, "application/xml"@),
            ("Content-MD5"@, md5),
            ("Content-Length"@, len),
        ],
        body,
    }
}

/// The keys that the `<Error>` entries of a delete answer name, read from
/// position `i` on. `mode` is 0 between entries, 1 inside an `<Error>` before
/// its `<Key>`, 2 inside a `<Key>` that began at `start`.
pub open spec fn error_keys_from(t: Seq<char>, i: int, mode: int, start: int) -> Seq<Seq<char>>
    decreases t.len() - i,
{
    if i < 0 || i >= t.len() {
        Seq::empty()
    } else if mode == 0 {
        if occurs_at(t, "<Error>"@, i) {
            error_keys_from(t, past(i, "<Error>"@), 1, 0)
        } else {
            error_keys_from(t, i + 1, 0, 0)
        }
    } else if mode == 1 {
        if occurs_at(t, "<Key>"@, i) {
            error_keys_from(t, past(i, "<Key>"@), 2, past(i, "<Key>"@))
        } else {
            error_keys_from(t, i + 1, 1, 0)
        }
    } else {
        if occurs_at(t, "</Key>"@, i) {
            seq![t.subrange(start, i)] + error_keys_from(t, past(i, "</Key>"@), 0, 0)
        } else {
            error_keys_from(t, i + 1, 2, start)
        }
    }
}

/// The keys that the `<Error>` entries of a delete answer name.
pub fn error_keys(t: &str) -> (r: Vec<String>)
    ensures
        texts(r@) == error_keys_from(t@, 0, 0, 0),
{
    let n = t.unicode_len();
    let open_error = "<Error>";
    let open_key = "<Key>";
    let close_key = "</Key>";
    let a = open_error.unicode_len();
    let b = open_key.unicode_len();
    let c = close_key.unicode_len();
    proof {
        reveal_strlit("<Error>");
        reveal_strlit("<Key>");
        reveal_strlit("</Key>");
    }
    let mut r: Vec<String> = Vec::new();
    let mut i: usize = 0;
    let mut mode: u8 = 0;
    let mut start: usize = 0;
    while i < n
        invariant
            n == t@.len(),
            a == open_error@.len() == 7,
            b == open_key@.len() == 5,
            c == close_key@.len() == 6,
            open_error@ == "<Error>"@,
            open_key@ == "<Key>"@,
            close_key@ == "</Key>"@,
            i <= n,
            mode <= 2,
            mode == 2 ==> start <= i,
            mode != 2 ==> start == 0,
            texts(r@) + error_keys_from(t@, i as int, mode as int, start as int) == error_keys_from(
                t@,
                0,
                0,
                0,
            ),
        decreases n - i,
    {
        if mode == 0 {
            if occurs(t, open_error, n, a, i) {
                i = i + a;
                mode = 1;
            } else {
                i = i + 1;
            }
        } else if mode == 1 {
            if occurs(t, open_key, n, b, i) {
                i = i + b;
                mode = 2;
                start = i;
            } else {
                i = i + 1;
            }
        } else {
            if occurs(t, close_key, n, c, i) {
                let ghost rest = error_keys_from(t@, i + c, 0, 0);
                let ghost prev = texts(r@);
                let key = slice(t, start, i);
                r.push(key);
                assert(texts(r@) =~= prev.push(key@));
                assert(texts(r@) + rest =~= prev + (seq![key@] + rest));
                i = i + c;
                mode = 0;
                start = 0;
            } else {
                i = i + 1;
            }
        }
    }
    assert(texts(r@) =~= texts(r@) + error_keys_from(t@, i as int, mode as int, start as int));
    r
}

/// What a batch delete does next.
pub enum DeletePlan {
    /// Nothing to delete: the result, with no request made.
    Done(DeleteResult),
    /// The signed request to send.
    Send(SignedRequest),
}

/// The outcome of a batch delete from the status and body of its answer:
/// the number of `<Deleted>` entries, and the keys that the `<Error>`
/// entries name.
pub fn delete_response(status: u16, body: String) -> (r: Result<DeleteResult, CosError>)
    ensures
        is_success(status) ==> (r matches Ok(d) && d.success && d.deleted_count == count_from(
            body@,
            "<Deleted>"@,
            0,
        ) && texts(d.failed_keys@) == error_keys_from(body@, 0, 0, 0)),
        !is_success(status) ==> (r matches Err(CosError::Status { operation, status: s, body: b })
            && operation == Operation::Delete && s == status && b@ == body@),
{
    if 200 <= status && status <= 299 {
        proof {
            reveal_strlit("<Deleted>");
        }
        let deleted_count = count_occurrences(body.as_str(), "<Deleted>");
        let failed_keys = error_keys(body.as_str());
        Ok(DeleteResult { success: true, deleted_count, failed_keys })
    } else {
        Err(CosError::Status { operation: Operation::Delete, status, body })
    }
}

impl CosClient {
    /// The delete manifest of the keys.
    pub fn delete_manifest(&self, keys: &Vec<String>) -> (r: String)
        ensures
            r@ == manifest_of(self.config.dir, texts(keys@)),
    {
        let mut body = String::from_str(
            "<?xml version=\"1.0\" encoding=\"UTF-8\"?>\n<Delete>\n<Quiet>false</Quiet>\n",
        );
        let mut i: usize = 0;
        while i < keys.len()
            invariant
                i <= keys@.len(),
                body@ == manifest_head() + manifest_objects(self.config.dir, texts(keys@).take(i as int)),
            decreases keys@.len() - i,
        {
            let full_key = self.get_full_key(keys[i].as_str());
            let line = join_str(join_str("<Object><Key>", full_key.as_str()).as_str(), "</Key></Object>\n");
            assert(texts(keys@).take(i + 1).drop_last() =~= texts(keys@).take(i as int));
            body.append(line.as_str());
            assert(body@ =~= manifest_head() + manifest_objects(self.config.dir, texts(keys@).take(i + 1)));
            i = i + 1;
        }
        assert(texts(keys@).take(keys@.len() as int) =~= texts(keys@));
        body.append("</Delete>");
        assert(body@ =~= manifest_of(self.config.dir, texts(keys@)));
        body
    }

    /// The next step of a batch delete: done at once, with nothing deleted,
    /// when there are no keys; the signed request otherwise.
    pub fn prepare_delete(&self, now: i64, keys: &Vec<String>) -> (r: DeletePlan)
        ensures
            keys@.len() == 0 <==> r is Done,
            r matches DeletePlan::Done(d) ==> d.success && d.deleted_count == 0 && d.failed_keys@.len()
                == 0,
            r matches DeletePlan::Send(req) ==> req@ == delete_request_of(self.config, now as int, texts(keys@)),
    {
        if keys.len() == 0 {
            return DeletePlan::Done(DeleteResult { success: true, deleted_count: 0, failed_keys: Vec::new() });
        }
        let body = self.delete_manifest(keys);
        let md5 = base64_encode(&md5_digest(body.as_str()));
        let len = nat_string(body.as_str().len() as u128);
        let h = host(self.config.bucket.as_str(), self.config.region.as_str());
        let mut signed: Vec<Entry> = Vec::new();
        signed.push((String::from_str("host"), h.clone()));
        signed.push((String::from_str("content-type"), String::from_str("application/xml")));
        signed.push((String::from_str("content-md5"), md5.clone()));
        signed.push((String::from_str("content-length"), len.clone()));
        let mut params: Vec<Entry> = Vec::new();
        params.push((String::from_str("delete"), String::new()));
        let authorization = self.generate_signature_at(now, "POST", "/", &signed, &params);
        let ghost rv = delete_request_of(self.config, now as int, texts(keys@));
        assert(entry_views(signed@) =~= seq![
            ("host"@, host_of(self.config.bucket@, self.config.region@)),
            ("content-type"@, "application/xml"@),
            ("content-md5"@, md5@),
            ("content-length"@, len@),
        ]);
        assert(entry_views(params@) =~= seq![("delete"@, Seq::<char>::empty())]);
        let mut headers: Vec<Entry> = Vec::new();
        headers.push((String::from_str("Authorization"), authorization));
        headers.push((String::from_str("Content-Type"), String::from_str("application/xml")));
        headers.push((String::from_str("Content-MD5"), md5));
        headers.push((String::from_str("Content-Length"), len));
        let url = join_str(join_str("https://", h.as_str()).as_str(), "/?delete");
        let req = SignedRequest { method: String::from_str("POST"), url, headers, body };
        assert(req@.headers =~= rv.headers);
        assert(req@.url =~= rv.url);
        DeletePlan::Send(req)
    }
}

} // verus!
