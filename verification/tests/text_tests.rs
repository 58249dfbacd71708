use privacy_rpc_proxy::text::{sanitize_rpc_url, str_eq, u64_to_decimal, usize_to_decimal};

#[test]
fn test_u64_to_decimal() {
    assert_eq!(u64_to_decimal(0), "0");
    assert_eq!(u64_to_decimal(7), "7");
    assert_eq!(u64_to_decimal(10), "10");
    assert_eq!(u64_to_decimal(1234567890), "1234567890");
    assert_eq!(u64_to_decimal(u64::MAX), "18446744073709551615");
}

#[test]
fn test_usize_to_decimal() {
    assert_eq!(usize_to_decimal(100), "100");
}

#[test]
fn test_str_eq() {
    assert!(str_eq("", ""));
    assert!(str_eq("abc", "abc"));
    assert!(!str_eq("abc", "abd"));
    assert!(!str_eq("abc", "ab"));
}

#[test]
fn test_sanitize_rpc_url_hides_path() {
    assert_eq!(
        sanitize_rpc_url("https://api.example.com/very-secret-key"),
        "https://api.example.com/***"
    );
    assert_eq!(
        sanitize_rpc_url("https://host/a/b/c"),
        "https://host/***"
    );
}

#[test]
fn test_sanitize_rpc_url_without_path_or_scheme() {
    assert_eq!(sanitize_rpc_url("https://api.example.com"), "https://api.example.com");
    assert_eq!(sanitize_rpc_url("localhost:8899"), "localhost:8899");
    assert_eq!(sanitize_rpc_url(""), "");
}
