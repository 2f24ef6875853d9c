//! Worker addresses as URLs.
use vstd::prelude::*;
use vstd::string::*;

verus! {

/// `pattern` occurs in `s` as a contiguous run of characters.
pub open spec fn contains_text(s: Seq<char>, pattern: Seq<char>) -> bool {
    exists|i: int| 0 <= i <= s.len() - pattern.len() && #[trigger] s.subrange(i, i + pattern.len()) == pattern
}

/// `http://`
pub open spec fn http_scheme() -> Seq<char> {
    seq!['h', 't', 't', 'p', ':', '/', '/']
}

/// `https://`
pub open spec fn https_scheme() -> Seq<char> {
    seq!['h', 't', 't', 'p', 's', ':', '/', '/']
}

/// The URL for `ip`: the address itself when it contains both `http://` and
/// `https://`, otherwise the address behind `http://`.
pub open spec fn host_url(ip: Seq<char>) -> Seq<char> {
    if !contains_text(ip, http_scheme()) || !contains_text(ip, https_scheme()) {
        http_scheme() + ip
    } else {
        ip
    }
}

/// Whether `pattern` occurs at character position `at` of `s`.
fn occurs_at(s: &str, n: usize, pattern: &str, m: usize, at: usize) -> (b: bool)
    requires
        n == s@.len(),
        m == pattern@.len(),
        at + m <= n,
    ensures
        b == (s@.subrange(at as int, at + m) == pattern@),
{
    let mut k: usize = 0;
    while k < m
        invariant
            n == s@.len(),
            m == pattern@.len(),
            at + m <= n,
            k <= m,
            forall|j: int| 0 <= j < k ==> s@[at + j] == pattern@[j],
        decreases m - k,
    {
        if s.get_char(at + k) != pattern.get_char(k) {
            proof {
                assert(s@.subrange(at as int, at + m)[k as int] != pattern@[k as int]);
            }
            return false;
        }
        k = k + 1;
    }
    proof {
        assert(s@.subrange(at as int, at + m) =~= pattern@);
    }
    true
}

/// Whether `pattern` occurs in `s`.
pub fn contains(s: &str, pattern: &str) -> (b: bool)
    ensures
        b == contains_text(s@, pattern@),
        b <==> exists|i: int|
            0 <= i <= s@.len() - pattern@.len() && #[trigger] s@.subrange(i, i + pattern@.len()) == pattern@,
{
    let n = s.unicode_len();
    let m = pattern.unicode_len();
    if m > n {
        return false;
    }
    if m == 0 {
        assert(s@.subrange(0, 0 + pattern@.len() as int) =~= pattern@);
        return true;
    }
    let mut at: usize = 0;
    while at <= n - m
        invariant
            n == s@.len(),
            m == pattern@.len(),
            1 <= m <= n,
            at <= n - m + 1,
            forall|i: int| 0 <= i < at ==> #[trigger] s@.subrange(i, i + m) != pattern@,
        decreases n - m + 1 - at,
    {
        if occurs_at(s, n, pattern, m, at) {
            return true;
        }
        at = at + 1;
    }
    false
}

/// The URL used to reach the worker at `ip`.
pub fn get_host(ip: &String) -> (url: String)
    ensures
        url@ == host_url(ip@),
        contains_text(url@, http_scheme()),
        url@ == ip@ <==> ((exists|i: int|
            0 <= i <= ip@.len() - 7 && #[trigger] ip@.subrange(i, i + 7) == seq!['h', 't', 't', 'p', ':', '/', '/'])
            && (exists|j: int|
            0 <= j <= ip@.len() - 8 && #[trigger] ip@.subrange(j, j + 8) == seq![
                'h',
                't',
                't',
                'p',
                's',
                ':',
                '/',
                '/',
            ])),
        url@ != ip@ ==> url@ == seq!['h', 't', 't', 'p', ':', '/', '/'] + ip@,
{
    proof {
        reveal_strlit("http://");
        reveal_strlit("https://");
    }
    assert("http://"@ =~= http_scheme());
    assert("https://"@ =~= https_scheme());
    let has_http = contains(ip.as_str(), "http://");
    let has_https = contains(ip.as_str(), "https://");
    if !has_http || !has_https {
        let mut url = String::new();
        url.append("http://");
        url.append(ip.as_str());
        proof {
            assert(url@ =~= http_scheme() + ip@);
            assert(url@.subrange(0, 7) =~= http_scheme());
        }
        url
    } else {
        ip.clone()
    }
}

/// The plain-HTTP URL of `address`: `http://<address>`.
pub fn http_url(address: &str) -> (url: String)
    ensures
        url@ == http_scheme() + address@,
        url@ == seq!['h', 't', 't', 'p', ':', '/', '/'] + address@,
{
    proof {
        reveal_strlit("http://");
    }
    let mut url = String::new();
    url.append("http://");
    url.append(address);
    proof {
        assert(url@ =~= http_scheme() + address@);
    }
    url
}

} // verus!
