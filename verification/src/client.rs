//! The request side of the remote host-management protocol: address
//! normalization, endpoint URLs, and the signed header set every request
//! carries. The transport itself lives outside the library; callers send the
//! prepared parts and hand the response body back to the envelope decoder.

use vstd::prelude::*;

use crate::signing::{sign_token, token_spec};
use crate::text::{
    char_is_ws, chars_string, dec_digits, dec_digits_signed, dec_i64_string, dec_u64_chars,
    str_chars, trim_chars, trim_spec,
};

verus! {

/// The scheme prefix that is stripped from a configured address.
pub open spec fn http_prefix() -> Seq<char> {
    seq!['h', 't', 't', 'p', ':', '/', '/']
}

/// The secure-scheme prefix that is stripped from a configured address.
pub open spec fn https_prefix() -> Seq<char> {
    seq!['h', 't', 't', 'p', 's', ':', '/', '/']
}

/// The string with every leading repetition of `p` removed.
pub open spec fn strip_prefix_all(s: Seq<char>, p: Seq<char>) -> Seq<char>
    decreases s.len(),
{
    if p.len() > 0 && p.is_prefix_of(s) {
        strip_prefix_all(s.skip(p.len() as int), p)
    } else {
        s
    }
}

/// The string with every trailing `c` removed.
pub open spec fn strip_trailing(s: Seq<char>, c: char) -> Seq<char>
    decreases s.len(),
{
    if s.len() > 0 && s.last() == c {
        strip_trailing(s.drop_last(), c)
    } else {
        s
    }
}

/// How a configured host address is normalized before use: trimmed, scheme
/// prefixes stripped, trailing slashes stripped.
pub open spec fn host_clean_spec(h: Seq<char>) -> Seq<char> {
    strip_trailing(
        strip_prefix_all(strip_prefix_all(trim_spec(h), http_prefix()), https_prefix()),
        '/',
    )
}

/// Whether `p` begins at position `from` of `v`.
#[verifier::loop_isolation(false)]
fn starts_at(v: &Vec<char>, from: usize, p: &Vec<char>) -> (r: bool)
    requires
        from <= v@.len(),
    ensures
        r == p@.is_prefix_of(v@.skip(from as int)),
{
    let ghost s = v@.skip(from as int);
    if v.len() - from < p.len() {
        return false;
    }
    let mut k: usize = 0;
    while k < p.len()
        invariant
            from <= v@.len(),
            from + p@.len() <= v@.len(),
            k <= p@.len(),
            s == v@.skip(from as int),
            forall|q: int| 0 <= q < k ==> v@[from + q] == p@[q],
        decreases p@.len() - k,
    {
        if v[from + k] != p[k] {
            proof {
                assert(s[k as int] == v@[from + k]);
                assert(s.subrange(0, p@.len() as int)[k as int] == s[k as int]);
            }
            return false;
        }
        k = k + 1;
    }
    proof {
        assert(forall|q: int| 0 <= q < p@.len() ==> s.subrange(0, p@.len() as int)[q] == v@[from
            + q]);
        assert(s.subrange(0, p@.len() as int) =~= p@);
    }
    true
}

/// `v` with every leading repetition of `p` removed.
#[verifier::loop_isolation(false)]
pub(crate) fn strip_prefix_all_exec(v: &Vec<char>, p: &Vec<char>) -> (r: Vec<char>)
    requires
        p@.len() > 0,
    ensures
        r@ == strip_prefix_all(v@, p@),
{
    let mut off: usize = 0;
    proof {
        assert(v@.skip(0) =~= v@);
    }
    while v.len() - off >= p.len() && starts_at(v, off, p)
        invariant
            off <= v@.len(),
            strip_prefix_all(v@, p@) == strip_prefix_all(v@.skip(off as int), p@),
        decreases v@.len() - off,
    {
        proof {
            assert(v@.skip(off as int).skip(p@.len() as int) =~= v@.skip(
                off as int + p@.len() as int,
            ));
        }
        off = off + p.len();
    }
    proof {
        if p@.is_prefix_of(v@.skip(off as int)) {
            assert(off + p@.len() <= v@.len());
        }
    }
    let mut r: Vec<char> = Vec::new();
    let mut k: usize = off;
    while k < v.len()
        invariant
            off <= k <= v@.len(),
            r@ == v@.subrange(off as int, k as int),
        decreases v@.len() - k,
    {
        r.push(v[k]);
        k = k + 1;
        proof {
            assert(r@ =~= v@.subrange(off as int, k as int));
        }
    }
    proof {
        assert(r@ =~= v@.skip(off as int));
    }
    r
}

/// `v` with every trailing `c` removed.
pub(crate) fn strip_trailing_exec(v: Vec<char>, c: char) -> (r: Vec<char>)
    ensures
        r@ == strip_trailing(v@, c),
{
    let mut r = v;
    let ghost orig = r@;
    while r.len() > 0 && r[r.len() - 1] == c
        invariant
            strip_trailing(orig, c) == strip_trailing(r@, c),
        decreases r@.len(),
    {
        r.pop();
    }
    r
}

/// A configured host address, normalized: trimmed, `http://` and `https://`
/// prefixes stripped, trailing slashes stripped.
pub fn host_clean(host: &str) -> (r: String)
    ensures
        r@ == host_clean_spec(host@),
{
    let h = str_chars(host);
    let t = trim_chars(&h);
    let mut p1: Vec<char> = Vec::new();
    p1.push('h');
    p1.push('t');
    p1.push('t');
    p1.push('p');
    p1.push(':');
    p1.push('/');
    p1.push('/');
    proof {
        assert(p1@ =~= http_prefix());
    }
    let s1 = strip_prefix_all_exec(&t, &p1);
    let mut p2: Vec<char> = Vec::new();
    p2.push('h');
    p2.push('t');
    p2.push('t');
    p2.push('p');
    p2.push('s');
    p2.push(':');
    p2.push('/');
    p2.push('/');
    proof {
        assert(p2@ =~= https_prefix());
    }
    let s2 = strip_prefix_all_exec(&s1, &p2);
    let s3 = strip_trailing_exec(s2, '/');
    chars_string(&s3)
}

/// The URL of an endpoint on a host: plain HTTP against the normalized
/// address and the given port.
pub open spec fn api_url_spec(host: Seq<char>, port: u16, path: Seq<char>) -> Seq<char> {
    http_prefix() + host_clean_spec(host) + seq![':'] + dec_digits(port as nat) + path
}

/// Builds the URL of an endpoint on a host.
pub fn api_url(host: &str, port: u16, path: &str) -> (r: String)
    ensures
        r@ == api_url_spec(host@, port, path@),
{
    let cleaned = host_clean(host);
    let cleaned_chars = str_chars(cleaned.as_str());
    let path_chars = str_chars(path);
    let port_chars = dec_u64_chars(port as u64);
    let mut out: Vec<char> = Vec::new();
    out.push('h');
    out.push('t');
    out.push('t');
    out.push('p');
    out.push(':');
    out.push('/');
    out.push('/');
    append_chars(&mut out, &cleaned_chars);
    out.push(':');
    append_chars(&mut out, &port_chars);
    append_chars(&mut out, &path_chars);
    proof {
        assert(out@ =~= api_url_spec(host@, port, path@));
    }
    chars_string(&out)
}

/// Appends all of `src` to `out`.
pub(crate) fn append_chars(out: &mut Vec<char>, src: &Vec<char>)
    ensures
        final(out)@ == old(out)@ + src@,
{
    let mut k: usize = 0;
    while k < src.len()
        invariant
            k <= src@.len(),
            out@ == old(out)@ + src@.take(k as int),
        decreases src@.len() - k,
    {
        out.push(src[k]);
        k = k + 1;
        proof {
            assert(out@ =~= old(out)@ + src@.take(k as int));
        }
    }
    proof {
        assert(old(out)@ + src@.take(src@.len() as int) =~= old(out)@ + src@);
    }
}

/// Everything a caller needs to issue one signed request: the full URL and
/// the two authentication headers.
pub struct SignedRequest {
    /// The request URL.
    pub url: String,
    /// The value of the vendor token header.
    pub token: String,
    /// The value of the vendor timestamp header.
    pub timestamp: String,
}

/// Prepares one signed request against an endpoint of a host. The token and
/// the timestamp header always agree on the same instant.
pub fn signed_request(host: &str, port: u16, credential: &str, timestamp: i64, path: &str) -> (r:
    SignedRequest)
    ensures
        r.url@ == api_url_spec(host@, port, path@),
        r.token@ == token_spec(credential@, timestamp as int),
        r.timestamp@ == dec_digits_signed(timestamp as int),
{
    SignedRequest {
        url: api_url(host, port, path),
        token: sign_token(credential, timestamp),
        timestamp: dec_i64_string(timestamp),
    }
}

/// How the upload endpoint's destination directory is normalized: one
/// trailing slash is dropped.
pub open spec fn remote_path_clean_spec(p: Seq<char>) -> Seq<char> {
    if p.len() > 0 && p.last() == '/' {
        p.drop_last()
    } else {
        p
    }
}

/// The remote host-management API client: the pure request and response
/// halves of each operation. Sending is the caller's business.
pub struct OnePanelClient;

impl OnePanelClient {
    /// A remote directory path without its trailing slash, if it has one.
    pub fn remote_path_clean(p: &str) -> (r: String)
        ensures
            r@ == remote_path_clean_spec(p@),
    {
        let chars = str_chars(p);
        let n = chars.len();
        if n > 0 && chars[n - 1] == '/' {
            let mut out: Vec<char> = Vec::new();
            let mut k: usize = 0;
            while k < n - 1
                invariant
                    n == chars@.len(),
                    n >= 1,
                    k <= n - 1,
                    out@ == chars@.take(k as int),
                decreases n - 1 - k,
            {
                out.push(chars[k]);
                k = k + 1;
                proof {
                    assert(out@ =~= chars@.take(k as int));
                }
            }
            proof {
                assert(chars@.take(n as int - 1) =~= p@.drop_last());
            }
            chars_string(&out)
        } else {
            let out = chars;
            chars_string(&out)
        }
    }

    /// The signed probe of a host's identity endpoint. This one request is
    /// issued against the configured address as written, without
    /// normalization.
    pub fn test_connection(host: &str, port: u16, api_key: &str, timestamp: i64) -> (r:
        SignedRequest)
        ensures
            r.url@ == http_prefix() + host@ + seq![':'] + dec_digits(port as nat)
                + "/api/v1/system/info"@,
            r.token@ == token_spec(api_key@, timestamp as int),
            r.timestamp@ == dec_digits_signed(timestamp as int),
    {
        let host_chars = str_chars(host);
        let port_chars = dec_u64_chars(port as u64);
        let path_chars = str_chars("/api/v1/system/info");
        let mut out: Vec<char> = Vec::new();
        out.push('h');
        out.push('t');
        out.push('t');
        out.push('p');
        out.push(':');
        out.push('/');
        out.push('/');
        append_chars(&mut out, &host_chars);
        out.push(':');
        append_chars(&mut out, &port_chars);
        append_chars(&mut out, &path_chars);
        proof {
            assert(out@ =~= http_prefix() + host@ + seq![':'] + dec_digits(port as nat)
                + "/api/v1/system/info"@);
        }
        SignedRequest {
            url: chars_string(&out),
            token: sign_token(api_key, timestamp),
            timestamp: dec_i64_string(timestamp),
        }
    }

    /// The signed request that reads a host's dashboard facts.
    pub fn get_os_info(host: &str, port: u16, api_key: &str, timestamp: i64) -> (r: SignedRequest)
        ensures
            r.url@ == api_url_spec(host@, port, "/api/v1/dashboard/base/os"@),
            r.token@ == token_spec(api_key@, timestamp as int),
            r.timestamp@ == dec_digits_signed(timestamp as int),
    {
        signed_request(host, port, api_key, timestamp, "/api/v1/dashboard/base/os")
    }

    /// The signed request that lists a host's containers, paged.
    pub fn list_containers(host: &str, port: u16, api_key: &str, timestamp: i64) -> (r:
        SignedRequest)
        ensures
            r.url@ == api_url_spec(host@, port, "/api/v1/containers/search"@),
            r.token@ == token_spec(api_key@, timestamp as int),
            r.timestamp@ == dec_digits_signed(timestamp as int),
    {
        signed_request(host, port, api_key, timestamp, "/api/v1/containers/search")
    }

    /// The signed request that starts, stops or removes containers.
    pub fn operate_container(host: &str, port: u16, api_key: &str, timestamp: i64) -> (r:
        SignedRequest)
        ensures
            r.url@ == api_url_spec(host@, port, "/api/v1/containers/operate"@),
            r.token@ == token_spec(api_key@, timestamp as int),
            r.timestamp@ == dec_digits_signed(timestamp as int),
    {
        signed_request(host, port, api_key, timestamp, "/api/v1/containers/operate")
    }

    /// The signed request that fetches the last hundred log lines of one
    /// container.
    pub fn get_container_logs(
        host: &str,
        port: u16,
        api_key: &str,
        timestamp: i64,
        container: &str,
    ) -> (r: SignedRequest)
        ensures
            r.url@ == api_url_spec(
                host@,
                port,
                "/api/v1/containers/search/log?container="@ + container@ + "&tail=100"@,
            ),
            r.token@ == token_spec(api_key@, timestamp as int),
            r.timestamp@ == dec_digits_signed(timestamp as int),
    {
        let head = str_chars("/api/v1/containers/search/log?container=");
        let mid = str_chars(container);
        let tail = str_chars("&tail=100");
        let mut path: Vec<char> = Vec::new();
        append_chars(&mut path, &head);
        append_chars(&mut path, &mid);
        append_chars(&mut path, &tail);
        let path_string = chars_string(&path);
        signed_request(host, port, api_key, timestamp, path_string.as_str())
    }

    /// The signed request that uploads a local file; the multipart body with
    /// the file bytes, the destination directory and the overwrite flag is
    /// the sender's to build.
    pub fn upload_file(host: &str, port: u16, api_key: &str, timestamp: i64) -> (r: SignedRequest)
        ensures
            r.url@ == api_url_spec(host@, port, "/api/v1/files/upload"@),
            r.token@ == token_spec(api_key@, timestamp as int),
            r.timestamp@ == dec_digits_signed(timestamp as int),
    {
        signed_request(host, port, api_key, timestamp, "/api/v1/files/upload")
    }

    /// The signed request that loads an uploaded image archive into the
    /// host's image store.
    pub fn load_image(host: &str, port: u16, api_key: &str, timestamp: i64) -> (r: SignedRequest)
        ensures
            r.url@ == api_url_spec(host@, port, "/api/v1/containers/image/load"@),
            r.token@ == token_spec(api_key@, timestamp as int),
            r.timestamp@ == dec_digits_signed(timestamp as int),
    {
        signed_request(host, port, api_key, timestamp, "/api/v1/containers/image/load")
    }

    /// The signed request that lists a host's compose stacks, paged.
    pub fn list_composes(host: &str, port: u16, api_key: &str, timestamp: i64) -> (r:
        SignedRequest)
        ensures
            r.url@ == api_url_spec(host@, port, "/api/v1/containers/compose/search"@),
            r.token@ == token_spec(api_key@, timestamp as int),
            r.timestamp@ == dec_digits_signed(timestamp as int),
    {
        signed_request(host, port, api_key, timestamp, "/api/v1/containers/compose/search")
    }

    /// The signed request that reads a remote file's content.
    pub fn read_file(host: &str, port: u16, api_key: &str, timestamp: i64) -> (r: SignedRequest)
        ensures
            r.url@ == api_url_spec(host@, port, "/api/v1/files/content"@),
            r.token@ == token_spec(api_key@, timestamp as int),
            r.timestamp@ == dec_digits_signed(timestamp as int),
    {
        signed_request(host, port, api_key, timestamp, "/api/v1/files/content")
    }

    /// The signed request that saves text to a remote file.
    pub fn save_file(host: &str, port: u16, api_key: &str, timestamp: i64) -> (r: SignedRequest)
        ensures
            r.url@ == api_url_spec(host@, port, "/api/v1/files/save"@),
            r.token@ == token_spec(api_key@, timestamp as int),
            r.timestamp@ == dec_digits_signed(timestamp as int),
    {
        signed_request(host, port, api_key, timestamp, "/api/v1/files/save")
    }

    /// The signed request that applies an operation — `up`, `down` and the
    /// like — to a named stack.
    pub fn operate_compose(host: &str, port: u16, api_key: &str, timestamp: i64) -> (r:
        SignedRequest)
        ensures
            r.url@ == api_url_spec(host@, port, "/api/v1/containers/compose/operate"@),
            r.token@ == token_spec(api_key@, timestamp as int),
            r.timestamp@ == dec_digits_signed(timestamp as int),
    {
        signed_request(host, port, api_key, timestamp, "/api/v1/containers/compose/operate")
    }

    /// The signed request that lists every image on the host.
    pub fn list_images(host: &str, port: u16, api_key: &str, timestamp: i64) -> (r: SignedRequest)
        ensures
            r.url@ == api_url_spec(host@, port, "/api/v1/containers/image/all"@),
            r.token@ == token_spec(api_key@, timestamp as int),
            r.timestamp@ == dec_digits_signed(timestamp as int),
    {
        signed_request(host, port, api_key, timestamp, "/api/v1/containers/image/all")
    }

    /// The signed request that removes images from the host.
    pub fn remove_image(host: &str, port: u16, api_key: &str, timestamp: i64) -> (r: SignedRequest)
        ensures
            r.url@ == api_url_spec(host@, port, "/api/v1/containers/image/remove"@),
            r.token@ == token_spec(api_key@, timestamp as int),
            r.timestamp@ == dec_digits_signed(timestamp as int),
    {
        signed_request(host, port, api_key, timestamp, "/api/v1/containers/image/remove")
    }
}

} // verus!
