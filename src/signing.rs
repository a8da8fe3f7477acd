//! The time-scoped HMAC-SHA1 authorization of requests.
use vstd::prelude::*;
use vstd::string::*;
use vstd::utf8::encode_utf8;
use crate::client::CosClient;
use crate::model::CosConfig;
use crate::primitives::{
    hex_encode, hex_of, hmac_sha1, hmac_sha1_of, lower_of, lowercase, sha1_digest, sha1_of,
    unix_now, url_encode, url_encoded,
};
use crate::text::{int_string, int_text, join_all, join_str, joined, less_than, text_lt, texts};

verus! {

/// A header or query parameter: name and value.
pub type Entry = (String, String);

/// The views of a list of entries.
pub open spec fn entry_views(v: Seq<Entry>) -> Seq<(Seq<char>, Seq<char>)> {
    v.map_values(|e: Entry| (e.0@, e.1@))
}

/// The entries with their names in lower case.
pub open spec fn lowered(s: Seq<(Seq<char>, Seq<char>)>) -> Seq<(Seq<char>, Seq<char>)> {
    s.map_values(|e: (Seq<char>, Seq<char>)| (lower_of(e.0), e.1))
}

/// Places `e` into the name-ordered `s`, after the entries whose name does not
/// come after its own.
pub open spec fn insert_sorted(s: Seq<(Seq<char>, Seq<char>)>, e: (Seq<char>, Seq<char>)) -> Seq<
    (Seq<char>, Seq<char>),
>
    decreases s.len(),
{
    if s.len() == 0 {
        seq![e]
    } else if text_lt(e.0, s[0].0) {
        seq![e] + s
    } else {
        seq![s[0]] + insert_sorted(s.drop_first(), e)
    }
}

/// The entries in the order of their names; entries of equal names keep their order.
pub open spec fn sort_entries(s: Seq<(Seq<char>, Seq<char>)>) -> Seq<(Seq<char>, Seq<char>)>
    decreases s.len(),
{
    if s.len() == 0 {
        s
    } else {
        insert_sorted(sort_entries(s.drop_last()), s.last())
    }
}

/// The entries as the signature covers them: names in lower case, ordered by name.
pub open spec fn canonical_entries(v: Seq<(Seq<char>, Seq<char>)>) -> Seq<(Seq<char>, Seq<char>)> {
    sort_entries(lowered(v))
}

/// The names of the entries.
pub open spec fn entry_names(s: Seq<(Seq<char>, Seq<char>)>) -> Seq<Seq<char>> {
    s.map_values(|e: (Seq<char>, Seq<char>)| e.0)
}

/// Each entry as `name=value`, the value percent-encoded.
pub open spec fn entry_texts(s: Seq<(Seq<char>, Seq<char>)>) -> Seq<Seq<char>> {
    s.map_values(|e: (Seq<char>, Seq<char>)| e.0 + "="@ + url_encoded(encode_utf8(e.1)))
}

/// The `;`-separated list of the covered names.
pub open spec fn name_list_of(v: Seq<(Seq<char>, Seq<char>)>) -> Seq<char> {
    joined(entry_names(canonical_entries(v)), ";"@)
}

/// The `&`-separated canonical form of the entries.
pub open spec fn formatted_of(v: Seq<(Seq<char>, Seq<char>)>) -> Seq<char> {
    joined(entry_texts(canonical_entries(v)), "&"@)
}

/// The key time of a token signed at `now`: valid from 60 seconds before to
/// 3600 seconds after.
pub open spec fn key_time_of(now: int) -> Seq<char> {
    int_text(now - 60) + ";"@ + int_text(now + 3600)
}

/// The canonical request string.
pub open spec fn canonical_request_of(
    method: Seq<char>,
    path: Seq<char>,
    headers: Seq<(Seq<char>, Seq<char>)>,
    params: Seq<(Seq<char>, Seq<char>)>,
) -> Seq<char> {
    lower_of(method) + "\n"@ + path + "\n"@ + formatted_of(params) + "\n"@ + formatted_of(headers)
        + "\n"@
}

/// The string to sign.
pub open spec fn string_to_sign_of(key_time: Seq<char>, canonical: Seq<char>) -> Seq<char> {
    "sha1\n"@ + key_time + "\n"@ + hex_of(sha1_of(encode_utf8(canonical))) + "\n"@
}

/// The signing key derived from the secret for a key time.
pub open spec fn sign_key_of(secret: Seq<char>, key_time: Seq<char>) -> Seq<char> {
    hex_of(hmac_sha1_of(encode_utf8(secret), encode_utf8(key_time)))
}

/// The signature of a canonical request for a key time.
pub open spec fn signature_of(secret: Seq<char>, key_time: Seq<char>, canonical: Seq<char>) -> Seq<
    char,
> {
    hex_of(
        hmac_sha1_of(
            encode_utf8(sign_key_of(secret, key_time)),
            encode_utf8(string_to_sign_of(key_time, canonical)),
        ),
    )
}

/// The authorization token assembled from its fields.
pub open spec fn token_of(
    access_key: Seq<char>,
    key_time: Seq<char>,
    header_list: Seq<char>,
    param_list: Seq<char>,
    signature: Seq<char>,
) -> Seq<char> {
    "q-sign-algorithm=sha1&q-ak="@ + access_key + "&q-sign-time="@ + key_time + "&q-key-time="@
        + key_time + "&q-header-list="@ + header_list + "&q-url-param-list="@ + param_list
        + "&q-signature="@ + signature
}

/// The authorization token of a request signed at `now`.
pub open spec fn authorization_of(
    config: CosConfig,
    now: int,
    method: Seq<char>,
    path: Seq<char>,
    headers: Seq<(Seq<char>, Seq<char>)>,
    params: Seq<(Seq<char>, Seq<char>)>,
) -> Seq<char> {
    token_of(
        config.secret_id@,
        key_time_of(now),
        name_list_of(headers),
        name_list_of(params),
        signature_of(
            config.secret_key@,
            key_time_of(now),
            canonical_request_of(method, path, headers, params),
        ),
    )
}

/// `token` is the authorization of the request signed at an instant whose
/// window holds `at`.
pub open spec fn authorization_valid_at(
    token: Seq<char>,
    config: CosConfig,
    method: Seq<char>,
    path: Seq<char>,
    headers: Seq<(Seq<char>, Seq<char>)>,
    params: Seq<(Seq<char>, Seq<char>)>,
    at: int,
) -> bool {
    exists|t: int|
        t - 60 <= at <= t + 3600 && token == #[trigger] authorization_of(
            config,
            t,
            method,
            path,
            headers,
            params,
        )
}

/// Two signings of one request at any two instants give tokens with the same
/// access key, header list and parameter list; only the key time and the
/// signature depend on the instant, and one instant gives one token. Each
/// token is valid against the same request throughout its own window.
pub proof fn lemma_signature_time_scoped(
    config: CosConfig,
    method: Seq<char>,
    path: Seq<char>,
    headers: Seq<(Seq<char>, Seq<char>)>,
    params: Seq<(Seq<char>, Seq<char>)>,
    t1: int,
    t2: int,
)
    ensures
        authorization_of(config, t1, method, path, headers, params) == token_of(
            config.secret_id@,
            key_time_of(t1),
            name_list_of(headers),
            name_list_of(params),
            signature_of(
                config.secret_key@,
                key_time_of(t1),
                canonical_request_of(method, path, headers, params),
            ),
        ),
        authorization_of(config, t2, method, path, headers, params) == token_of(
            config.secret_id@,
            key_time_of(t2),
            name_list_of(headers),
            name_list_of(params),
            signature_of(
                config.secret_key@,
                key_time_of(t2),
                canonical_request_of(method, path, headers, params),
            ),
        ),
        t1 == t2 ==> authorization_of(config, t1, method, path, headers, params)
            == authorization_of(config, t2, method, path, headers, params),
        forall|at: int|
            t1 - 60 <= at <= t1 + 3600 ==> authorization_valid_at(
                authorization_of(config, t1, method, path, headers, params),
                config,
                method,
                path,
                headers,
                params,
                at,
            ),
{
}

proof fn lemma_insert_at(s: Seq<(Seq<char>, Seq<char>)>, e: (Seq<char>, Seq<char>), j: int)
    requires
        0 <= j <= s.len(),
        forall|k: int| 0 <= k < j ==> !text_lt(e.0, #[trigger] s[k].0),
        j == s.len() || text_lt(e.0, s[j].0),
    ensures
        insert_sorted(s, e) == s.insert(j, e),
    decreases j,
{
    if j == 0 {
        assert(insert_sorted(s, e) =~= s.insert(j, e));
    } else {
        let t = s.drop_first();
        assert forall|k: int| 0 <= k < j - 1 implies !text_lt(e.0, #[trigger] t[k].0) by {
            assert(t[k] == s[k + 1]);
        }
        lemma_insert_at(t, e, j - 1);
        assert(seq![s[0]] + t.insert(j - 1, e) =~= s.insert(j, e));
    }
}

/// Places `e` into the name-ordered `v`.
fn insert_entry(v: &mut Vec<Entry>, e: Entry)
    ensures
        entry_views(final(v)@) == insert_sorted(entry_views(old(v)@), (e.0@, e.1@)),
{
    let ghost s = entry_views(v@);
    let ghost ev = (e.0@, e.1@);
    let mut j: usize = 0;
    while j < v.len() && !less_than(e.0.as_str(), v[j].0.as_str())
        invariant
            j <= v@.len(),
            s == entry_views(v@),
            ev == (e.0@, e.1@),
            forall|k: int| 0 <= k < j ==> !text_lt(ev.0, #[trigger] s[k].0),
        decreases v@.len() - j,
    {
        j = j + 1;
    }
    proof {
        lemma_insert_at(s, ev, j as int);
    }
    v.insert(j, e);
    assert(entry_views(v@) =~= s.insert(j as int, ev));
}

/// The entries with lower-cased names.
fn lower_entries(v: &Vec<Entry>) -> (r: Vec<Entry>)
    ensures
        entry_views(r@) == lowered(entry_views(v@)),
{
    let mut r: Vec<Entry> = Vec::new();
    let mut i: usize = 0;
    while i < v.len()
        invariant
            i <= v@.len(),
            entry_views(r@) == lowered(entry_views(v@)).take(i as int),
        decreases v@.len() - i,
    {
        let name = lowercase(v[i].0.as_str());
        let value = v[i].1.clone();
        let ghost prev = r@;
        r.push((name, value));
        assert(entry_views(r@) =~= entry_views(prev).push((lower_of(v@[i as int].0@), v@[i as int].1@)));
        assert(entry_views(r@) =~= lowered(entry_views(v@)).take(i + 1));
        i = i + 1;
    }
    assert(lowered(entry_views(v@)).take(v@.len() as int) =~= lowered(entry_views(v@)));
    r
}

/// The entries ordered by name, equal names in their given order.
fn sorted_entries(v: Vec<Entry>) -> (r: Vec<Entry>)
    ensures
        entry_views(r@) == sort_entries(entry_views(v@)),
{
    let mut r: Vec<Entry> = Vec::new();
    let mut i: usize = 0;
    while i < v.len()
        invariant
            i <= v@.len(),
            entry_views(r@) == sort_entries(entry_views(v@).take(i as int)),
        decreases v@.len() - i,
    {
        let e = (v[i].0.clone(), v[i].1.clone());
        let ghost before = entry_views(v@).take(i as int);
        assert(entry_views(v@).take(i + 1).drop_last() =~= before);
        insert_entry(&mut r, e);
        i = i + 1;
    }
    assert(entry_views(v@).take(v@.len() as int) =~= entry_views(v@));
    r
}

/// The entries as the signature covers them.
pub fn canonical_entries_of(v: &Vec<Entry>) -> (r: Vec<Entry>)
    ensures
        entry_views(r@) == canonical_entries(entry_views(v@)),
{
    sorted_entries(lower_entries(v))
}

/// The names of the entries.
fn names(v: &Vec<Entry>) -> (r: Vec<String>)
    ensures
        texts(r@) == entry_names(entry_views(v@)),
{
    let mut r: Vec<String> = Vec::new();
    let mut i: usize = 0;
    while i < v.len()
        invariant
            i <= v@.len(),
            texts(r@) == entry_names(entry_views(v@)).take(i as int),
        decreases v@.len() - i,
    {
        let ghost prev = r@;
        r.push(v[i].0.clone());
        assert(texts(r@) =~= texts(prev).push(v@[i as int].0@));
        assert(texts(r@) =~= entry_names(entry_views(v@)).take(i + 1));
        i = i + 1;
    }
    assert(entry_names(entry_views(v@)).take(v@.len() as int) =~= entry_names(entry_views(v@)));
    r
}

/// Each entry as `name=value`, the value percent-encoded.
fn formatted(v: &Vec<Entry>) -> (r: Vec<String>)
    ensures
        texts(r@) == entry_texts(entry_views(v@)),
{
    let mut r: Vec<String> = Vec::new();
    let mut i: usize = 0;
    while i < v.len()
        invariant
            i <= v@.len(),
            texts(r@) == entry_texts(entry_views(v@)).take(i as int),
        decreases v@.len() - i,
    {
        let a = join_str(v[i].0.as_str(), "=");
        let b = url_encode(v[i].1.as_str());
        let ghost prev = r@;
        let t = join_str(a.as_str(), b.as_str());
        assert(t@ == v@[i as int].0@ + "="@ + url_encoded(encode_utf8(v@[i as int].1@)));
        r.push(t);
        assert(texts(r@) =~= texts(prev).push(t@));
        assert(texts(r@) =~= entry_texts(entry_views(v@)).take(i + 1));
        i = i + 1;
    }
    assert(entry_texts(entry_views(v@)).take(v@.len() as int) =~= entry_texts(entry_views(v@)));
    r
}

impl CosClient {
    /// The authorization token of a request signed at the UNIX time `now`.
    pub fn generate_signature_at(
        &self,
        now: i64,
        method: &str,
        uri_path: &str,
        headers: &Vec<Entry>,
        query_params: &Vec<Entry>,
    ) -> (r: String)
        ensures
            r@ == authorization_of(
                self.config,
                now as int,
                method@,
                uri_path@,
                entry_views(headers@),
                entry_views(query_params@),
            ),
    {
        let start = int_string(now as i128 - 60);
        let end = int_string(now as i128 + 3600);
        let kt0 = join_str(start.as_str(), ";");
        let key_time = join_str(kt0.as_str(), end.as_str());
        assert(key_time@ =~= key_time_of(now as int));

        let sign_key = hex_encode(&hmac_sha1(self.config.secret_key.as_str(), key_time.as_str()));

        let params = canonical_entries_of(query_params);
        let hdrs = canonical_entries_of(headers);
        let param_list = join_all(&names(&params), ";");
        let header_list = join_all(&names(&hdrs), ";");
        let formatted_params = join_all(&formatted(&params), "&");
        let formatted_headers = join_all(&formatted(&hdrs), "&");

        let m = lowercase(method);
        let c1 = join_str(m.as_str(), "\n");
        let c2 = join_str(c1.as_str(), uri_path);
        let c3 = join_str(c2.as_str(), "\n");
        let c4 = join_str(c3.as_str(), formatted_params.as_str());
        let c5 = join_str(c4.as_str(), "\n");
        let c6 = join_str(c5.as_str(), formatted_headers.as_str());
        let canonical = join_str(c6.as_str(), "\n");
        assert(canonical@ =~= canonical_request_of(
            method@,
            uri_path@,
            entry_views(headers@),
            entry_views(query_params@),
        ));

        let digest = hex_encode(&sha1_digest(canonical.as_str()));
        let s1 = join_str("sha1\n", key_time.as_str());
        let s2 = join_str(s1.as_str(), "\n");
        let s3 = join_str(s2.as_str(), digest.as_str());
        let to_sign = join_str(s3.as_str(), "\n");
        assert(to_sign@ =~= string_to_sign_of(key_time@, canonical@));

        let signature = hex_encode(&hmac_sha1(sign_key.as_str(), to_sign.as_str()));

        let t1 = join_str("q-sign-algorithm=sha1&q-ak=", self.config.secret_id.as_str());
        let t2 = join_str(t1.as_str(), "&q-sign-time=");
        let t3 = join_str(t2.as_str(), key_time.as_str());
        let t4 = join_str(t3.as_str(), "&q-key-time=");
        let t5 = join_str(t4.as_str(), key_time.as_str());
        let t6 = join_str(t5.as_str(), "&q-header-list=");
        let t7 = join_str(t6.as_str(), header_list.as_str());
        let t8 = join_str(t7.as_str(), "&q-url-param-list=");
        let t9 = join_str(t8.as_str(), param_list.as_str());
        let t10 = join_str(t9.as_str(), "&q-signature=");
        let r = join_str(t10.as_str(), signature.as_str());
        assert(r@ =~= authorization_of(
            self.config,
            now as int,
            method@,
            uri_path@,
            entry_views(headers@),
            entry_views(query_params@),
        ));
        r
    }

    /// The authorization token of a request signed now. Tokens signed at
    /// different instants differ in their key time and signature.
    pub fn generate_signature(
        &self,
        method: &str,
        uri_path: &str,
        headers: &Vec<Entry>,
        query_params: &Vec<Entry>,
    ) -> (r: String)
        ensures
            exists|now: int|
                r@ == #[trigger] authorization_of(
                    self.config,
                    now,
                    method@,
                    uri_path@,
                    entry_views(headers@),
                    entry_views(query_params@),
                ),
    {
        let now = unix_now();
        self.generate_signature_at(now, method, uri_path, headers, query_params)
    }
}

} // verus!
