//! What the command layer computes around the client: client identifiers,
//! greetings, and the staging of base64 payloads for upload.
use vstd::prelude::*;
use vstd::string::*;
use crate::model::CosConfig;
use crate::primitives::{base64_decode, base64_decoded};
use crate::request::CosError;
use crate::text::{join_str, slice};

verus! {

/// The identifier of a client: bucket and region joined by `_`.
pub open spec fn client_id_of(config: CosConfig) -> Seq<char> {
    config.bucket@ + "_"@ + config.region@
}

/// The identifier under which a client of `config` is registered.
pub fn client_id(config: &CosConfig) -> (r: String)
    ensures
        r@ == client_id_of(*config),
{
    let a = join_str(config.bucket.as_str(), "_");
    let r = join_str(a.as_str(), config.region.as_str());
    assert(r@ =~= client_id_of(*config));
    r
}

/// The greeting of `name`.
pub open spec fn greeting_of(name: Seq<char>) -> Seq<char> {
    "Hello, "@ + name + "! You've been greeted from Rust!"@
}

/// Greets `name`.
pub fn greet(name: &str) -> (r: String)
    ensures
        r@ == greeting_of(name@),
{
    let a = join_str("Hello, ", name);
    let r = join_str(a.as_str(), "! You've been greeted from Rust!");
    assert(r@ =~= greeting_of(name@));
    r
}

/// `s` with each `/` replaced by `_`.
pub open spec fn flattened(s: Seq<char>) -> Seq<char> {
    s.map_values(|c: char| if c == '/' { '_' } else { c })
}

/// The name of the temporary file that stages the payload of `key`.
pub open spec fn staging_name_of(key: Seq<char>) -> Seq<char> {
    "tauri_upload_"@ + flattened(key)
}

/// The name of the temporary file that stages the payload of `key`: the key
/// with `/` replaced by `_`, after a fixed prefix.
pub fn staging_file_name(key: &str) -> (r: String)
    ensures
        r@ == staging_name_of(key@),
{
    let n = key.unicode_len();
    let mut r = String::from_str("tauri_upload_");
    let mut i: usize = 0;
    while i < n
        invariant
            n == key@.len(),
            i <= n,
            r@ == "tauri_upload_"@ + flattened(key@).take(i as int),
        decreases n - i,
    {
        let ghost prev = r@;
        let ghost f = flattened(key@);
        assert(f.take(i + 1) =~= f.take(i as int).push(f[i as int]));
        if key.get_char(i) == '/' {
            r.append("_");
            proof {
                reveal_strlit("_");
            }
            assert("_"@ =~= seq![f[i as int]]);
        } else {
            let c = slice(key, i, i + 1);
            r.append(c.as_str());
            assert(c@ =~= seq![f[i as int]]);
        }
        assert(r@ =~= "tauri_upload_"@ + flattened(key@).take(i + 1));
        i = i + 1;
    }
    assert(flattened(key@).take(n as int) =~= flattened(key@));
    r
}

/// The bytes of a base64 payload, or a failure where it is not valid base64.
pub fn decode_payload(data: &str) -> (r: Result<Vec<u8>, CosError>)
    ensures
        match r {
            Ok(v) => base64_decoded(data@) == Some(v@),
            Err(e) => base64_decoded(data@) is None && e is InvalidPayload,
        },
{
    match base64_decode(data) {
        Some(v) => Ok(v),
        None => Err(CosError::InvalidPayload),
    }
}

} // verus!
