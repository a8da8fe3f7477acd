//! Download, existence probe, size lookup and listing.
use vstd::prelude::*;
use vstd::string::*;
use crate::client::{full_key_of, host, host_of, location, location_of, CosClient};
use crate::model::{CosConfig, DownloadResult, ListObjectsResult, ObjectInfo, ObjectMetadata};
use crate::scan::{element_text, inner_text, occurs, occurs_at, past};
use crate::primitives::{url_encode, url_encoded};
use crate::request::{is_success, CosError, Operation, RequestView, SignedRequest};
use crate::signing::{authorization_of, entry_views, Entry};
use crate::text::{
    join_all, join_str, joined, nat_string, nat_text, parse_u64, parsed_u64, same_text, slice, texts,
};
use crate::upload::{etag_of, opt_view, trim_etag, trim_quotes, trim_quotes_str};

verus! {

/// A request on one object that carries no body and signs the host alone.
pub open spec fn object_request_of(
    config: CosConfig,
    now: int,
    method: Seq<char>,
    full_key: Seq<char>,
) -> RequestView {
    let auth = authorization_of(
        config,
        now,
        method,
        "/"@ + full_key,
        seq![("host"@, host_of(config.bucket@, config.region@))],
        Seq::empty(),
    );
    RequestView {
        method,
        url: location_of(config.bucket@, config.region@, full_key),
        headers: seq![("Authorization"@, auth)],
        body: Seq::empty(),
    }
}

/// The size that a `content-length` header reports.
pub open spec fn reported_size(header: Option<Seq<char>>) -> Option<u64> {
    match header {
        Some(s) => parsed_u64(s),
        None => None,
    }
}

/// The listing prefix of a caller's prefix: under the configured directory,
/// or under the default namespace.
pub open spec fn list_prefix_of(config: CosConfig, prefix: Seq<char>) -> Seq<char> {
    match config.dir {
        Some(d) => d@ + "/"@ + prefix,
        None => "ImSheet/"@ + prefix,
    }
}

/// The query parameters of a listing.
pub open spec fn list_params_of(config: CosConfig, prefix: Option<Seq<char>>, max_keys: Option<u32>) -> Seq<
    (Seq<char>, Seq<char>),
> {
    (match prefix {
        Some(p) => seq![("prefix"@, list_prefix_of(config, p))],
        None => Seq::empty(),
    }) + match max_keys {
        Some(m) => seq![("max-keys"@, nat_text(m as nat))],
        None => Seq::empty(),
    }
}

/// The query string of the parameters: `name=value` pairs, values
/// percent-encoded, joined by `&`.
pub open spec fn query_of(params: Seq<(Seq<char>, Seq<char>)>) -> Seq<char> {
    joined(
        params.map_values(|e: (Seq<char>, Seq<char>)| e.0 + "="@ + url_encoded(vstd::utf8::encode_utf8(e.1))),
        "&"@,
    )
}

/// The GET request of a listing signed at `now`.
pub open spec fn list_request_of(
    config: CosConfig,
    now: int,
    prefix: Option<Seq<char>>,
    max_keys: Option<u32>,
) -> RequestView {
    let params = list_params_of(config, prefix, max_keys);
    let auth = authorization_of(
        config,
        now,
        "GET"@,
        "/"@,
        seq![("host"@, host_of(config.bucket@, config.region@))],
        params,
    );
    let base = "https://"@ + host_of(config.bucket@, config.region@) + "/"@;
    RequestView {
        method: "GET"@,
        url: if params.len() == 0 {
            base
        } else {
            base + "?"@ + query_of(params)
        },
        headers: seq![("Authorization"@, auth)],
        body: Seq::empty(),
    }
}

fn opt_string(o: &Option<String>) -> (r: Option<String>)
    ensures
        opt_view(r) == opt_view(*o),
{
    match o {
        Some(s) => Some(s.clone()),
        None => None,
    }
}

/// The metadata of an object from the answer to its probe: the status and
/// the `content-length`, `etag`, `last-modified` and `content-type` headers.
/// A missing object is no failure.
pub fn head_response(
    status: u16,
    content_length: &Option<String>,
    etag: &Option<String>,
    last_modified: &Option<String>,
    content_type: &Option<String>,
    body: String,
) -> (r: Result<ObjectMetadata, CosError>)
    ensures
        is_success(status) ==> (r matches Ok(m) && m.exists && m.size == reported_size(
            opt_view(*content_length),
        ) && opt_view(m.etag) == etag_of(opt_view(*etag)) && opt_view(m.last_modified) == opt_view(
            *last_modified,
        ) && opt_view(m.content_type) == opt_view(*content_type)),
        status == 404 ==> (r matches Ok(m) && !m.exists && m.size is None && m.etag is None
            && m.last_modified is None && m.content_type is None),
        !is_success(status) && status != 404 ==> (r matches Err(
            CosError::Status { operation, status: s, body: b },
        ) && operation == Operation::Head && s == status && b@ == body@),
{
    if 200 <= status && status <= 299 {
        let size = match content_length {
            Some(s) => parse_u64(s.as_str()),
            None => None,
        };
        Ok(
            ObjectMetadata {
                exists: true,
                size,
                etag: trim_etag(etag),
                last_modified: opt_string(last_modified),
                content_type: opt_string(content_type),
            },
        )
    } else if status == 404 {
        Ok(
            ObjectMetadata {
                exists: false,
                size: None,
                etag: None,
                last_modified: None,
                content_type: None,
            },
        )
    } else {
        Err(CosError::Status { operation: Operation::Head, status, body })
    }
}

/// The size of a probed object: a failure where it is missing or its size
/// was not reported.
pub fn object_size(meta: &ObjectMetadata) -> (r: Result<u64, CosError>)
    ensures
        meta.exists && meta.size is Some ==> r == Ok::<u64, CosError>(meta.size.unwrap()),
        meta.exists && meta.size is None ==> r matches Err(CosError::MissingSize),
        !meta.exists ==> r matches Err(CosError::NotFound),
{
    if meta.exists {
        match meta.size {
            Some(s) => Ok(s),
            None => Err(CosError::MissingSize),
        }
    } else {
        Err(CosError::NotFound)
    }
}

/// The result of a download from the answer to its GET: the status, the
/// reported content length and the body. On success the caller writes the
/// body to `save_path`.
pub fn download_response(
    save_path: &str,
    status: u16,
    content_length: Option<u64>,
    body: String,
) -> (r: Result<DownloadResult, CosError>)
    ensures
        is_success(status) ==> (r matches Ok(d) && d.success && d.file_path@ == save_path@
            && d.size == match content_length {
            Some(n) => n,
            None => 0,
        }),
        !is_success(status) ==> (r matches Err(CosError::Status { operation, status: s, body: b })
            && operation == Operation::Download && s == status && b@ == body@),
{
    if 200 <= status && status <= 299 {
        let size = match content_length {
            Some(n) => n,
            None => 0,
        };
        Ok(DownloadResult { success: true, file_path: String::from_str(save_path), size })
    } else {
        Err(CosError::Status { operation: Operation::Download, status, body })
    }
}

/// The bodies of the `<Contents>` entries of a listing, read from position
/// `i` on; `inside` holds within an entry that began at `start`.
pub open spec fn content_blocks(t: Seq<char>, i: int, inside: bool, start: int) -> Seq<Seq<char>>
    decreases t.len() - i,
{
    if i < 0 || i >= t.len() {
        Seq::empty()
    } else if !inside {
        if occurs_at(t, "<Contents>"@, i) {
            content_blocks(t, past(i, "<Contents>"@), true, past(i, "<Contents>"@))
        } else {
            content_blocks(t, i + 1, false, 0)
        }
    } else {
        if occurs_at(t, "</Contents>"@, i) {
            seq![t.subrange(start, i)] + content_blocks(t, past(i, "</Contents>"@), false, 0)
        } else {
            content_blocks(t, i + 1, true, start)
        }
    }
}

/// The text of the first `open`..`close` element of `b`; empty where there is none.
pub open spec fn field_of(b: Seq<char>, open: Seq<char>, close: Seq<char>) -> Seq<char> {
    match inner_text(b, open, close, 0) {
        Some(v) => v,
        None => Seq::empty(),
    }
}

/// The size that a listing entry reports; 0 where it reports none.
pub open spec fn listed_size(b: Seq<char>) -> u64 {
    match parsed_u64(field_of(b, "<Size>"@, "</Size>"@)) {
        Some(n) => n,
        None => 0,
    }
}

/// `o` is what the listing entry `b` describes.
pub open spec fn describes(o: ObjectInfo, b: Seq<char>) -> bool {
    &&& o.key@ == field_of(b, "<Key>"@, "</Key>"@)
    &&& o.size == listed_size(b)
    &&& o.etag@ == trim_quotes(field_of(b, "<ETag>"@, "</ETag>"@))
    &&& o.last_modified@ == field_of(b, "<LastModified>"@, "</LastModified>"@)
}

/// Whether a listing says that more entries follow.
pub open spec fn truncated_of(t: Seq<char>) -> bool {
    inner_text(t, "<IsTruncated>"@, "</IsTruncated>"@, 0) == Some("true"@)
}

/// The marker from which a listing continues, where it gives a non-empty one.
pub open spec fn next_marker_of(t: Seq<char>) -> Option<Seq<char>> {
    match inner_text(t, "<NextMarker>"@, "</NextMarker>"@, 0) {
        Some(m) => if m.len() > 0 {
            Some(m)
        } else {
            None
        },
        None => None,
    }
}

/// The bodies of the `<Contents>` entries of a listing.
pub fn listing_entries(t: &str) -> (r: Vec<String>)
    ensures
        texts(r@) == content_blocks(t@, 0, false, 0),
{
    let n = t.unicode_len();
    let open = "<Contents>";
    let close = "</Contents>";
    let a = open.unicode_len();
    let c = close.unicode_len();
    proof {
        reveal_strlit("<Contents>");
        reveal_strlit("</Contents>");
    }
    let mut r: Vec<String> = Vec::new();
    let mut i: usize = 0;
    let mut inside = false;
    let mut start: usize = 0;
    while i < n
        invariant
            n == t@.len(),
            a == open@.len() == 10,
            c == close@.len() == 11,
            open@ == "<Contents>"@,
            close@ == "</Contents>"@,
            i <= n,
            inside ==> start <= i,
            !inside ==> start == 0,
            texts(r@) + content_blocks(t@, i as int, inside, start as int) == content_blocks(
                t@,
                0,
                false,
                0,
            ),
        decreases n - i,
    {
        if !inside {
            if occurs(t, open, n, a, i) {
                i = i + a;
                inside = true;
                start = i;
            } else {
                i = i + 1;
            }
        } else {
            if occurs(t, close, n, c, i) {
                let ghost rest = content_blocks(t@, i + c, false, 0);
                let ghost prev = texts(r@);
                let block = slice(t, start, i);
                r.push(block);
                assert(texts(r@) =~= prev.push(block@));
                assert(texts(r@) + rest =~= prev + (seq![block@] + rest));
                i = i + c;
                inside = false;
                start = 0;
            } else {
                i = i + 1;
            }
        }
    }
    assert(texts(r@) =~= texts(r@) + content_blocks(t@, i as int, inside, start as int));
    r
}

fn field(b: &str, open: &str, close: &str) -> (r: String)
    ensures
        r@ == field_of(b@, open@, close@),
{
    match element_text(b, open, close) {
        Some(v) => v,
        None => String::new(),
    }
}

/// The object that a listing entry describes.
pub fn object_info(b: &str) -> (r: ObjectInfo)
    ensures
        describes(r, b@),
{
    let key = field(b, "<Key>", "</Key>");
    let size = match parse_u64(field(b, "<Size>", "</Size>").as_str()) {
        Some(n) => n,
        None => 0,
    };
    let etag = trim_quotes_str(field(b, "<ETag>", "</ETag>").as_str());
    let last_modified = field(b, "<LastModified>", "</LastModified>");
    ObjectInfo { key, size, etag, last_modified }
}

/// The page of a listing from the status and body of its answer: one object
/// per `<Contents>` entry, whether more follow, and where to continue.
pub fn list_response(status: u16, body: String) -> (r: Result<ListObjectsResult, CosError>)
    ensures
        is_success(status) ==> (r matches Ok(l) && l.objects@.len() == content_blocks(
            body@,
            0,
            false,
            0,
        ).len() && (forall|k: int|
            0 <= k < l.objects@.len() ==> describes(
                #[trigger] l.objects@[k],
                content_blocks(body@, 0, false, 0)[k],
            )) && l.is_truncated == truncated_of(body@) && opt_view(l.next_marker) == next_marker_of(
            body@,
        )),
        !is_success(status) ==> (r matches Err(CosError::Status { operation, status: s, body: b })
            && operation == Operation::List && s == status && b@ == body@),
{
    if 200 <= status && status <= 299 {
        let blocks = listing_entries(body.as_str());
        let ghost bs = content_blocks(body@, 0, false, 0);
        let mut objects: Vec<ObjectInfo> = Vec::new();
        let mut i: usize = 0;
        while i < blocks.len()
            invariant
                i <= blocks@.len(),
                texts(blocks@) == bs,
                objects@.len() == i,
                forall|k: int| 0 <= k < i ==> describes(#[trigger] objects@[k], bs[k]),
            decreases blocks@.len() - i,
        {
            assert(texts(blocks@)[i as int] == blocks@[i as int]@);
            objects.push(object_info(blocks[i].as_str()));
            i = i + 1;
        }
        proof {
            reveal_strlit("true");
        }
        let is_truncated = match element_text(body.as_str(), "<IsTruncated>", "</IsTruncated>") {
            Some(v) => same_text(v.as_str(), "true"),
            None => false,
        };
        let next_marker = match element_text(body.as_str(), "<NextMarker>", "</NextMarker>") {
            Some(m) => if m.as_str().unicode_len() > 0 {
                Some(m)
            } else {
                None
            },
            None => None,
        };
        Ok(ListObjectsResult { objects, is_truncated, next_marker })
    } else {
        Err(CosError::Status { operation: Operation::List, status, body })
    }
}

impl CosClient {
    fn object_request(&self, now: i64, method: &str, key: &str) -> (r: SignedRequest)
        ensures
            r@ == object_request_of(self.config, now as int, method@, full_key_of(self.config.dir, key@)),
    {
        let full_key = self.get_full_key(key);
        let uri_path = join_str("/", full_key.as_str());
        let mut signed: Vec<Entry> = Vec::new();
        signed.push((String::from_str("host"), host(self.config.bucket.as_str(), self.config.region.as_str())));
        let no_params: Vec<Entry> = Vec::new();
        let authorization = self.generate_signature_at(now, method, uri_path.as_str(), &signed, &no_params);
        assert(entry_views(signed@) =~= seq![("host"@, host_of(self.config.bucket@, self.config.region@))]);
        assert(entry_views(no_params@) =~= Seq::empty());
        let mut headers: Vec<Entry> = Vec::new();
        headers.push((String::from_str("Authorization"), authorization));
        let url = location(self.config.bucket.as_str(), self.config.region.as_str(), full_key.as_str());
        let r = SignedRequest { method: String::from_str(method), url, headers, body: String::new() };
        assert(r@.headers =~= object_request_of(
            self.config,
            now as int,
            method@,
            full_key_of(self.config.dir, key@),
        ).headers);
        r
    }

    /// The signed GET of a download.
    pub fn prepare_download(&self, now: i64, key: &str) -> (r: SignedRequest)
        ensures
            r@ == object_request_of(self.config, now as int, "GET"@, full_key_of(self.config.dir, key@)),
    {
        self.object_request(now, "GET", key)
    }

    /// The signed HEAD of an existence probe.
    pub fn prepare_head(&self, now: i64, key: &str) -> (r: SignedRequest)
        ensures
            r@ == object_request_of(self.config, now as int, "HEAD"@, full_key_of(self.config.dir, key@)),
    {
        self.object_request(now, "HEAD", key)
    }

    /// The signed GET of a listing.
    pub fn prepare_list(&self, now: i64, prefix: &Option<String>, max_keys: Option<u32>) -> (r: SignedRequest)
        ensures
            r@ == list_request_of(self.config, now as int, opt_view(*prefix), max_keys),
    {
        let ghost params_view = list_params_of(self.config, opt_view(*prefix), max_keys);
        let mut params: Vec<Entry> = Vec::new();
        match prefix {
            Some(p) => {
                let full_prefix = match &self.config.dir {
                    Some(d) => join_str(join_str(d.as_str(), "/").as_str(), p.as_str()),
                    None => join_str("ImSheet/", p.as_str()),
                };
                assert(full_prefix@ =~= list_prefix_of(self.config, p@));
                params.push((String::from_str("prefix"), full_prefix));
            },
            None => {},
        }
        match max_keys {
            Some(m) => {
                params.push((String::from_str("max-keys"), nat_string(m as u128)));
            },
            None => {},
        }
        assert(entry_views(params@) =~= params_view);
        let mut signed: Vec<Entry> = Vec::new();
        signed.push((String::from_str("host"), host(self.config.bucket.as_str(), self.config.region.as_str())));
        assert(entry_views(signed@) =~= seq![("host"@, host_of(self.config.bucket@, self.config.region@))]);
        let authorization = self.generate_signature_at(now, "GET", "/", &signed, &params);

        let h = host(self.config.bucket.as_str(), self.config.region.as_str());
        let base = join_str(join_str("https://", h.as_str()).as_str(), "/");
        let url = if params.len() == 0 {
            base
        } else {
            let mut parts: Vec<String> = Vec::new();
            let mut i: usize = 0;
            while i < params.len()
                invariant
                    i <= params@.len(),
                    texts(parts@) == entry_views(params@).map_values(
                        |e: (Seq<char>, Seq<char>)| e.0 + "="@ + url_encoded(vstd::utf8::encode_utf8(e.1)),
                    ).take(i as int),
                decreases params@.len() - i,
            {
                let ghost prev = parts@;
                let t = join_str(join_str(params[i].0.as_str(), "=").as_str(), url_encode(params[i].1.as_str()).as_str());
                parts.push(t);
                assert(texts(parts@) =~= texts(prev).push(t@));
                assert(texts(parts@) =~= entry_views(params@).map_values(
                    |e: (Seq<char>, Seq<char>)| e.0 + "="@ + url_encoded(vstd::utf8::encode_utf8(e.1)),
                ).take(i + 1));
                i = i + 1;
            }
            assert(entry_views(params@).map_values(
                |e: (Seq<char>, Seq<char>)| e.0 + "="@ + url_encoded(vstd::utf8::encode_utf8(e.1)),
            ).take(params@.len() as int) =~= entry_views(params@).map_values(
                |e: (Seq<char>, Seq<char>)| e.0 + "="@ + url_encoded(vstd::utf8::encode_utf8(e.1)),
            ));
            let q = join_all(&parts, "&");
            join_str(join_str(base.as_str(), "?").as_str(), q.as_str())
        };
        let mut headers: Vec<Entry> = Vec::new();
        headers.push((String::from_str("Authorization"), authorization));
        let r = SignedRequest { method: String::from_str("GET"), url, headers, body: String::new() };
        assert(r@.headers =~= list_request_of(self.config, now as int, opt_view(*prefix), max_keys).headers);
        assert(r@.url =~= list_request_of(self.config, now as int, opt_view(*prefix), max_keys).url);
        r
    }
}

} // verus!
