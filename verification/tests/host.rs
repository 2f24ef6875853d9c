use sarcent::utils::host::{contains, get_host, http_url};

#[test]
fn plain_address_gets_http_scheme() {
    assert_eq!(get_host(&"10.1.1.234:50051".to_string()), "http://10.1.1.234:50051");
}

#[test]
fn address_with_one_scheme_still_gets_prefixed() {
    assert_eq!(get_host(&"http://10.0.0.1:50051".to_string()), "http://http://10.0.0.1:50051");
    assert_eq!(get_host(&"https://10.0.0.1".to_string()), "http://https://10.0.0.1");
}

#[test]
fn address_with_both_schemes_is_kept() {
    let ip = "http://a https://b".to_string();
    assert_eq!(get_host(&ip), ip);
}

#[test]
fn host_always_contains_http() {
    for ip in ["", "x", "http:/", "https://", "ü:1"] {
        assert!(get_host(&ip.to_string()).contains("http://"));
    }
}

#[test]
fn substring_search() {
    assert!(contains("abc", ""));
    assert!(contains("abcabd", "abd"));
    assert!(!contains("abcab", "abd"));
    assert!(!contains("ab", "abc"));
    assert!(contains("ünï", "nï"));
}

#[test]
fn http_urls() {
    assert_eq!(http_url("10.0.0.3:50051"), "http://10.0.0.3:50051");
}
