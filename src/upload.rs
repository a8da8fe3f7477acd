//! Uploads: content-type inference, the signed PUT, and the size
//! reconciliation that follows an image-processing instruction.
use vstd::prelude::*;
use vstd::string::*;
use crate::client::{full_key_of, host, host_of, lemma_full_key_idempotent, location, location_of, CosClient};
use crate::model::{pic_operations, pic_operations_of, CosConfig, UploadOptions, UploadResult};
use crate::request::{is_success, CosError, Operation, RequestView, SignedRequest};
use crate::signing::{authorization_of, Entry};
use crate::text::{join_str, last_index, last_index_of, nat_string, nat_text, same_text, slice};

verus! {

/// `s` without its trailing `/` characters.
pub open spec fn trim_end_slashes(s: Seq<char>) -> Seq<char>
    decreases s.len(),
{
    if s.len() > 0 && s.last() == '/' {
        trim_end_slashes(s.drop_last())
    } else {
        s
    }
}

/// The last component of a `/`-separated path.
pub open spec fn file_name_of(path: Seq<char>) -> Seq<char> {
    let t = trim_end_slashes(path);
    t.subrange(last_index_of(t, '/') + 1, t.len() as int)
}

/// The extension of a path: what follows the last `.` of its file name, where
/// that `.` is not the name's first character and the name is not `..`.
pub open spec fn extension_of(path: Seq<char>) -> Option<Seq<char>> {
    let name = file_name_of(path);
    let d = last_index_of(name, '.');
    if d > 0 && name != ".."@ {
        Some(name.subrange(d + 1, name.len() as int))
    } else {
        None
    }
}

/// The content type of a dotted extension; matching is case-sensitive.
pub open spec fn content_type_for(ext: Seq<char>) -> Seq<char> {
    if ext == ".jpg"@ || ext == ".jpeg"@ {
        "image/jpeg"@
    } else if ext == ".png"@ {
        "image/png"@
    } else if ext == ".gif"@ {
        "image/gif"@
    } else if ext == ".webp"@ {
        "image/webp"@
    } else if ext == ".bmp"@ {
        "image/bmp"@
    } else {
        "application/octet-stream"@
    }
}

/// The content type of an upload from `path`.
pub open spec fn upload_content_type(path: Seq<char>) -> Seq<char> {
    match extension_of(path) {
        Some(e) => content_type_for("."@ + e),
        None => "application/octet-stream"@,
    }
}

/// The headers that the signature of an upload covers.
pub open spec fn upload_signed_headers(
    config: CosConfig,
    size: nat,
    content_type: Seq<char>,
    pic: Option<Seq<char>>,
) -> Seq<(Seq<char>, Seq<char>)> {
    seq![
        ("host"@, host_of(config.bucket@, config.region@)),
        ("content-length"@, nat_text(size)),
        ("content-type"@, content_type),
    ] + match pic {
        Some(p) => seq![("pic-operations"@, p)],
        None => Seq::empty(),
    }
}

/// The PUT request of an upload signed at `now`.
pub open spec fn upload_request_of(
    config: CosConfig,
    now: int,
    path: Seq<char>,
    key: Seq<char>,
    size: nat,
    pic: Option<Seq<char>>,
) -> RequestView {
    let full = full_key_of(config.dir, key);
    let ct = upload_content_type(path);
    let auth = authorization_of(
        config,
        now,
        "PUT"@,
        "/"@ + full,
        upload_signed_headers(config, size, ct, pic),
        Seq::empty(),
    );
    RequestView {
        method: "PUT"@,
        url: location_of(config.bucket@, config.region@, full),
        headers: seq![
            ("Authorization"@, auth),
            ("Content-Type"@, ct),
            ("Content-Length"@, nat_text(size)),
        ] + match pic {
            Some(p) => seq![("Pic-Operations"@, p)],
            None => Seq::empty(),
        },
        body: Seq::empty(),
    }
}

/// `s` without its leading `"` characters.
pub open spec fn trim_start_quotes(s: Seq<char>) -> Seq<char>
    decreases s.len(),
{
    if s.len() > 0 && s[0] == '"' {
        trim_start_quotes(s.drop_first())
    } else {
        s
    }
}

/// `s` without its trailing `"` characters.
pub open spec fn trim_end_quotes(s: Seq<char>) -> Seq<char>
    decreases s.len(),
{
    if s.len() > 0 && s.last() == '"' {
        trim_end_quotes(s.drop_last())
    } else {
        s
    }
}

/// `s` without the `"` characters at either end.
pub open spec fn trim_quotes(s: Seq<char>) -> Seq<char> {
    trim_end_quotes(trim_start_quotes(s))
}

/// The view of an optional string.
pub open spec fn opt_view(o: Option<String>) -> Option<Seq<char>> {
    match o {
        Some(s) => Some(s@),
        None => None,
    }
}

/// The entity tag as reported: without surrounding quotes.
pub open spec fn etag_of(header: Option<Seq<char>>) -> Option<Seq<char>> {
    match header {
        Some(s) => Some(trim_quotes(s)),
        None => None,
    }
}

/// The length of `s` without its trailing `/` characters.
fn trimmed_len(s: &str) -> (r: usize)
    ensures
        r <= s@.len(),
        s@.take(r as int) == trim_end_slashes(s@),
{
    let mut n = s.unicode_len();
    assert(s@.take(n as int) =~= s@);
    while n > 0 && s.get_char(n - 1) == '/'
        invariant
            n <= s@.len(),
            trim_end_slashes(s@) == trim_end_slashes(s@.take(n as int)),
        decreases n,
    {
        assert(s@.take(n as int).drop_last() =~= s@.take(n - 1));
        n = n - 1;
    }
    n
}

/// The extension of a path, without its dot.
pub fn file_extension(path: &str) -> (r: Option<String>)
    ensures
        opt_view(r) == extension_of(path@),
{
    let n = trimmed_len(path);
    let t = slice(path, 0, n);
    assert(t@.take(n as int) =~= t@);
    let start = last_index(t.as_str(), '/', n);
    let name = slice(t.as_str(), start, n);
    assert(name@ == file_name_of(path@));
    let len = name.unicode_len();
    assert(name@.take(len as int) =~= name@);
    let dot = last_index(name.as_str(), '.', len);
    if dot > 1 && !same_text(name.as_str(), "..") {
        Some(slice(name.as_str(), dot, len))
    } else {
        None
    }
}

/// The content type of a dotted extension such as `.png`.
pub fn infer_content_type(ext: &str) -> (r: String)
    ensures
        r@ == content_type_for(ext@),
{
    if same_text(ext, ".jpg") || same_text(ext, ".jpeg") {
        String::from_str("image/jpeg")
    } else if same_text(ext, ".png") {
        String::from_str("image/png")
    } else if same_text(ext, ".gif") {
        String::from_str("image/gif")
    } else if same_text(ext, ".webp") {
        String::from_str("image/webp")
    } else if same_text(ext, ".bmp") {
        String::from_str("image/bmp")
    } else {
        String::from_str("application/octet-stream")
    }
}

/// The content type of an upload from `path`.
pub fn content_type_of_path(path: &str) -> (r: String)
    ensures
        r@ == upload_content_type(path@),
{
    match file_extension(path) {
        Some(e) => infer_content_type(join_str(".", e.as_str()).as_str()),
        None => String::from_str("application/octet-stream"),
    }
}

/// `s` without the `"` characters at either end.
pub fn trim_quotes_str(s: &str) -> (r: String)
    ensures
        r@ == trim_quotes(s@),
{
    let n = s.unicode_len();
    let mut i: usize = 0;
    assert(s@.subrange(0, n as int) =~= s@);
    while i < n && s.get_char(i) == '"'
        invariant
            n == s@.len(),
            i <= n,
            trim_start_quotes(s@) == trim_start_quotes(s@.subrange(i as int, n as int)),
        decreases n - i,
    {
        assert(s@.subrange(i as int, n as int).drop_first() =~= s@.subrange(i + 1, n as int));
        i = i + 1;
    }
    let ghost u = s@.subrange(i as int, n as int);
    assert(trim_start_quotes(s@) == u);
    let mut j: usize = n;
    assert(u.take(j - i) =~= u);
    while j > i && s.get_char(j - 1) == '"'
        invariant
            i <= j <= n,
            n == s@.len(),
            u == s@.subrange(i as int, n as int),
            trim_end_quotes(u) == trim_end_quotes(u.take(j - i)),
        decreases j,
    {
        assert(u.take(j - i).drop_last() =~= u.take(j - 1 - i));
        j = j - 1;
    }
    assert(u.take(j - i) =~= s@.subrange(i as int, j as int));
    slice(s, i, j)
}

/// The entity tag of a response header, without surrounding quotes.
pub fn trim_etag(header: &Option<String>) -> (r: Option<String>)
    ensures
        opt_view(r) == etag_of(opt_view(*header)),
{
    match header {
        Some(s) => Some(trim_quotes_str(s.as_str())),
        None => None,
    }
}

/// A signed upload, ready to be sent.
pub struct UploadPlan {
    pub full_key: String,
    pub processing: bool,
    pub request: SignedRequest,
}

/// What follows the answer to an upload's PUT.
pub enum UploadStep {
    /// The upload is done.
    Finished(UploadResult),
    /// The object was transformed in place: probe `full_key` for its size,
    /// then finish the upload.
    Probe { full_key: String, etag: Option<String> },
    /// The service refused the upload.
    Failed(CosError),
}

impl CosClient {
    /// The signed PUT of an upload of `file_size` bytes read from `file_path`.
    pub fn prepare_upload(
        &self,
        now: i64,
        file_path: &str,
        key: &str,
        file_size: u64,
        options: &Option<UploadOptions>,
    ) -> (r: UploadPlan)
        ensures
            r.full_key@ == full_key_of(self.config.dir, key@),
            r.processing == pic_operations_of(*options) is Some,
            r.request@ == upload_request_of(
                self.config,
                now as int,
                file_path@,
                key@,
                file_size as nat,
                pic_operations_of(*options),
            ),
    {
        let content_type = content_type_of_path(file_path);
        let full_key = self.get_full_key(key);
        let uri_path = join_str("/", full_key.as_str());
        let size = nat_string(file_size as u128);
        let pic = pic_operations(options);
        let ghost pic_view = pic_operations_of(*options);

        let mut signed: Vec<Entry> = Vec::new();
        signed.push((String::from_str("host"), host(self.config.bucket.as_str(), self.config.region.as_str())));
        signed.push((String::from_str("content-length"), size.clone()));
        signed.push((String::from_str("content-type"), content_type.clone()));
        let mut headers: Vec<Entry> = Vec::new();
        match pic {
            Some(p) => {
                signed.push((String::from_str("pic-operations"), p.clone()));
            },
            None => {},
        }
        let no_params: Vec<Entry> = Vec::new();
        let authorization = self.generate_signature_at(now, "PUT", uri_path.as_str(), &signed, &no_params);
        assert(crate::signing::entry_views(signed@) =~= upload_signed_headers(
            self.config,
            file_size as nat,
            content_type@,
            pic_view,
        ));
        assert(crate::signing::entry_views(no_params@) =~= Seq::empty());

        headers.push((String::from_str("Authorization"), authorization));
        headers.push((String::from_str("Content-Type"), content_type));
        headers.push((String::from_str("Content-Length"), size));
        let processing = match pic {
            Some(p) => {
                headers.push((String::from_str("Pic-Operations"), p.clone()));
                true
            },
            None => false,
        };
        let url = location(self.config.bucket.as_str(), self.config.region.as_str(), full_key.as_str());
        let request = SignedRequest { method: String::from_str("PUT"), url, headers, body: String::new() };
        assert(request@.headers =~= upload_request_of(
            self.config,
            now as int,
            file_path@,
            key@,
            file_size as nat,
            pic_view,
        ).headers);
        UploadPlan { full_key, processing, request }
    }

    /// What follows the answer to an upload's PUT: the status, the `etag`
    /// header and the body of the response.
    pub fn upload_after_put(
        &self,
        key: &str,
        file_size: u64,
        processing: bool,
        status: u16,
        etag: &Option<String>,
        body: String,
    ) -> (r: UploadStep)
        ensures
            is_success(status) && processing ==> (r matches UploadStep::Probe { full_key, etag: e }
                && full_key@ == full_key_of(self.config.dir, key@)
                && opt_view(e) == etag_of(opt_view(*etag))),
            is_success(status) && !processing ==> (r matches UploadStep::Finished(res)
                && res.success
                && res.key@ == key@
                && res.url@ == location_of(
                    self.config.bucket@,
                    self.config.region@,
                    full_key_of(self.config.dir, key@),
                )
                && opt_view(res.etag) == etag_of(opt_view(*etag))
                && res.size == file_size),
            !is_success(status) ==> (r matches UploadStep::Failed(
                CosError::Status { operation, status: s, body: b },
            ) && operation == Operation::Upload && s == status && b@ == body@),
    {
        if 200 <= status && status <= 299 {
            let full_key = self.get_full_key(key);
            let etag = trim_etag(etag);
            if processing {
                UploadStep::Probe { full_key, etag }
            } else {
                let url = location(self.config.bucket.as_str(), self.config.region.as_str(), full_key.as_str());
                UploadStep::Finished(
                    UploadResult { success: true, key: String::from_str(key), url, etag, size: file_size },
                )
            }
        } else {
            UploadStep::Failed(CosError::Status { operation: Operation::Upload, status, body })
        }
    }

    /// The result of a transformed upload once the size probe answered: the
    /// probed size where the probe gave one, the local size otherwise; the
    /// caller's key either way.
    pub fn finish_upload(
        &self,
        key: &str,
        file_size: u64,
        etag: Option<String>,
        probed_size: Option<u64>,
    ) -> (r: UploadResult)
        ensures
            r.success,
            r.key@ == key@,
            r.url@ == location_of(
                self.config.bucket@,
                self.config.region@,
                full_key_of(self.config.dir, key@),
            ),
            r.etag == etag,
            r.size == match probed_size {
                Some(s) => s,
                None => file_size,
            },
    {
        let full_key = self.get_full_key(key);
        let url = location(self.config.bucket.as_str(), self.config.region.as_str(), full_key.as_str());
        let size = match probed_size {
            Some(s) => s,
            None => file_size,
        };
        UploadResult { success: true, key: String::from_str(key), url, etag, size }
    }
}

/// The size probe of a transformed upload names the upload's fully-qualified
/// key, and resolving that key again leaves it as it is: the probe reaches the
/// very object that was written.
pub proof fn lemma_upload_probe_target(dir: Option<String>, key: Seq<char>)
    ensures
        full_key_of(dir, full_key_of(dir, key)) == full_key_of(dir, key),
{
    lemma_full_key_idempotent(dir, key);
}

} // verus!
