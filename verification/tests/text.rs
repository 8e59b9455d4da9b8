use rustscan::text::{
    contains_str, extract_version_str, find_str, header_value, starts_with_str, u64_to_string,
};

#[test]
fn substring_search() {
    assert_eq!(find_str("hello world", "world"), Some(6));
    assert_eq!(find_str("hello world", "o"), Some(4));
    assert_eq!(find_str("hello", "hello!"), None);
    assert_eq!(find_str("abc", ""), Some(0));
    assert!(contains_str("Server: nginx", "nginx"));
    assert!(!contains_str("Server: nginx", "Apache"));
    assert!(starts_with_str("SSH-2.0-OpenSSH", "SSH-"));
    assert!(!starts_with_str("xSSH-2.0", "SSH-"));
}

#[test]
fn header_values() {
    let resp = "HTTP/1.1 200 OK\r\nServer: nginx/1.18.0\r\nX-Powered-By: PHP/8.1\r\n\r\n";
    assert_eq!(header_value(resp, "Server: ").as_deref(), Some("nginx/1.18.0"));
    assert_eq!(header_value(resp, "X-Powered-By: ").as_deref(), Some("PHP/8.1"));
    assert_eq!(header_value(resp, "Date: "), None);
    // A header at the very end of the text still ends at the text's end.
    assert_eq!(header_value("Server: last", "Server: ").as_deref(), Some("last"));
}

#[test]
fn version_tokens() {
    assert_eq!(extract_version_str("nginx/1.18.0").as_deref(), Some("1.18.0"));
    assert_eq!(extract_version_str("Microsoft-IIS/10.0").as_deref(), Some("10.0"));
    assert_eq!(extract_version_str("no digits here"), None);
    assert_eq!(extract_version_str("just 42"), None);
    // A trailing dot is not part of the token.
    assert_eq!(extract_version_str("v1.2.").as_deref(), Some("1.2"));
    // The leftmost token wins even when a longer one follows.
    assert_eq!(extract_version_str("a9b and 1.2, then 3.4.5").as_deref(), Some("1.2"));
}

#[test]
fn decimal_formatting() {
    assert_eq!(u64_to_string(0).as_str(), "0");
    assert_eq!(u64_to_string(7).as_str(), "7");
    assert_eq!(u64_to_string(64).as_str(), "64");
    assert_eq!(u64_to_string(65535).as_str(), "65535");
    assert_eq!(u64_to_string(1203007).as_str(), "1203007");
}
