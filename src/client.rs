//! The client: key resolution and object addressing.
use vstd::prelude::*;
use vstd::string::*;
use crate::model::CosConfig;
use crate::text::{has_prefix, join_str, starts_with};

verus! {

/// The namespace that keys fall under when no virtual directory is configured.
pub open spec fn default_namespace() -> Seq<char> {
    seq!['I', 'm', 'S', 'h', 'e', 'e', 't', '/']
}

/// The prefix that a configured virtual directory gives: the directory with a
/// trailing `/`.
pub open spec fn dir_prefix(dir: Seq<char>) -> Seq<char> {
    if dir.len() > 0 && dir.last() == '/' {
        dir
    } else {
        dir.push('/')
    }
}

/// The prefix that every fully-qualified key carries.
pub open spec fn key_prefix(dir: Option<String>) -> Seq<char> {
    match dir {
        Some(d) => dir_prefix(d@),
        None => default_namespace(),
    }
}

/// Adds `prefix` in front of `key` unless it is already there.
pub open spec fn prefixed(prefix: Seq<char>, key: Seq<char>) -> Seq<char> {
    if has_prefix(key, prefix) {
        key
    } else {
        prefix + key
    }
}

/// The fully-qualified key of a logical key.
pub open spec fn full_key_of(dir: Option<String>, key: Seq<char>) -> Seq<char> {
    prefixed(key_prefix(dir), key)
}

/// The service host of a bucket in a region.
pub open spec fn host_of(bucket: Seq<char>, region: Seq<char>) -> Seq<char> {
    bucket + ".cos."@ + region + ".myqcloud.com"@
}

/// The public URL of a fully-qualified key on the service host.
pub open spec fn location_of(bucket: Seq<char>, region: Seq<char>, full_key: Seq<char>) -> Seq<char> {
    "https://"@ + host_of(bucket, region) + "/"@ + full_key
}

/// The URL of an object: under the custom domain when one is configured,
/// on the service host otherwise.
pub open spec fn object_url_of(config: CosConfig, key: Seq<char>) -> Seq<char> {
    match config.domain {
        Some(d) => d@ + "/"@ + full_key_of(config.dir, key),
        None => location_of(config.bucket@, config.region@, full_key_of(config.dir, key)),
    }
}

/// Resolving a key twice gives what resolving it once gives.
pub proof fn lemma_full_key_idempotent(dir: Option<String>, key: Seq<char>)
    ensures
        full_key_of(dir, full_key_of(dir, key)) == full_key_of(dir, key),
{
    let p = key_prefix(dir);
    if !has_prefix(key, p) {
        assert((p + key).subrange(0, p.len() as int) =~= p);
    }
}

/// A client of one bucket.
#[derive(Debug, Clone)]
pub struct CosClient {
    pub config: CosConfig,
}

fn default_namespace_str() -> (r: &'static str)
    ensures
        r@ == default_namespace(),
{
    proof {
        reveal_strlit("ImSheet/");
    }
    "ImSheet/"
}

/// Whether `s` ends with `/`.
fn ends_with_slash(s: &str) -> (r: bool)
    ensures
        r == (s@.len() > 0 && s@.last() == '/'),
{
    let n = s.unicode_len();
    n > 0 && s.get_char(n - 1) == '/'
}

/// The host of a bucket in a region.
pub fn host(bucket: &str, region: &str) -> (r: String)
    ensures
        r@ == host_of(bucket@, region@),
{
    let a = join_str(bucket, ".cos.");
    let b = join_str(a.as_str(), region);
    let r = join_str(b.as_str(), ".myqcloud.com");
    assert(r@ =~= host_of(bucket@, region@));
    r
}

/// The URL of a fully-qualified key on the service host.
pub fn location(bucket: &str, region: &str, full_key: &str) -> (r: String)
    ensures
        r@ == location_of(bucket@, region@, full_key@),
{
    let h = host(bucket, region);
    let a = join_str("https://", h.as_str());
    let b = join_str(a.as_str(), "/");
    let r = join_str(b.as_str(), full_key);
    assert(r@ =~= location_of(bucket@, region@, full_key@));
    r
}

impl CosClient {
    /// A client of the bucket that `config` describes.
    pub fn new(config: CosConfig) -> (r: Self)
        ensures
            r.config == config,
    {
        CosClient { config }
    }

    /// The prefix that this client's fully-qualified keys carry.
    pub fn key_prefix(&self) -> (r: String)
        ensures
            r@ == key_prefix(self.config.dir),
    {
        match &self.config.dir {
            Some(d) => {
                if ends_with_slash(d.as_str()) {
                    d.clone()
                } else {
                    let r = join_str(d.as_str(), "/");
                    proof {
                        reveal_strlit("/");
                    }
                    assert(r@ =~= d@.push('/'));
                    r
                }
            },
            None => String::from_str(default_namespace_str()),
        }
    }

    /// The fully-qualified key of a logical key.
    pub fn get_full_key(&self, key: &str) -> (r: String)
        ensures
            r@ == full_key_of(self.config.dir, key@),
    {
        let prefix = self.key_prefix();
        if starts_with(key, prefix.as_str()) {
            String::from_str(key)
        } else {
            join_str(prefix.as_str(), key)
        }
    }

    /// The URL of an object.
    pub fn get_object_url(&self, key: &str) -> (r: String)
        ensures
            r@ == object_url_of(self.config, key@),
    {
        let full_key = self.get_full_key(key);
        match &self.config.domain {
            Some(d) => {
                let a = join_str(d.as_str(), "/");
                let r = join_str(a.as_str(), full_key.as_str());
                assert(r@ =~= object_url_of(self.config, key@));
                r
            },
            None => location(self.config.bucket.as_str(), self.config.region.as_str(), full_key.as_str()),
        }
    }
}

} // verus!
