use rustscan::service_detector::{banner_service, default_service_name, ServiceDetector};

const LOCALHOST: u64 = 0x7F000001;

#[test]
fn fingerprint_match_labels_with_protocol_suffix() {
    let mut d = ServiceDetector::new();
    // The HTTP fingerprint (weight 1.0 > 0.8) wins on port 80, so the label
    // carries the protocol suffix.
    let r = d.detect_from_response(LOCALHOST, 80, Some("HTTP/1.1 200 OK\r\n\r\n"));
    assert_eq!(r.as_deref(), Some("HTTP/TCP"));
}

#[test]
fn banner_tier_answers_on_http_alternates() {
    let mut d = ServiceDetector::new();
    // No fingerprint is registered under 8000; the banner tier recognizes
    // the HTTP status line.
    let r = d.detect_from_response(LOCALHOST, 8000, Some("HTTP/1.1 200 OK\r\n\r\n"));
    assert_eq!(r.as_deref(), Some("HTTP"));
}

#[test]
fn port_table_answers_without_a_response() {
    let mut d = ServiceDetector::new();
    assert_eq!(d.detect_from_response(LOCALHOST, 3306, None).as_deref(), Some("MySQL"));
    assert_eq!(d.detect_from_response(LOCALHOST, 21, None).as_deref(), Some("FTP"));
    assert_eq!(d.detect_from_response(LOCALHOST, 3389, None).as_deref(), Some("RDP"));
    assert_eq!(d.detect_from_response(LOCALHOST, 12345, None), None);
    assert_eq!(d.detect_from_response(LOCALHOST, 12345, Some("garbage")), None);
}

#[test]
fn cache_answers_second_lookup() {
    let mut d = ServiceDetector::new();
    assert_eq!(d.cached(LOCALHOST, 8000), None);
    let first = d.detect_from_response(LOCALHOST, 8000, Some("HTTP/1.1 200 OK\r\n\r\n"));
    assert_eq!(first.as_deref(), Some("HTTP"));
    // The pair is resolved: no new probe is needed (cached answers), and a
    // second detection returns the identical label whatever accompanies it.
    assert_eq!(d.cached(LOCALHOST, 8000).as_deref(), Some("HTTP"));
    let second = d.detect_from_response(LOCALHOST, 8000, None);
    assert_eq!(second.as_deref(), Some("HTTP"));
    let third = d.detect_from_response(LOCALHOST, 8000, Some("SSH-2.0 something else"));
    assert_eq!(third.as_deref(), Some("HTTP"));
    // A different pair is not affected.
    assert_eq!(d.cached(LOCALHOST, 8001), None);
    assert_eq!(d.cached(LOCALHOST + 1, 8000), None);
}

#[test]
fn unresolved_pairs_stay_uncached() {
    let mut d = ServiceDetector::new();
    assert_eq!(d.detect_from_response(LOCALHOST, 12345, None), None);
    assert_eq!(d.cached(LOCALHOST, 12345), None);
}

#[test]
fn banner_recognizers() {
    assert_eq!(banner_service(8080, "HTTP/1.0 404").as_deref(), Some("HTTP"));
    assert_eq!(banner_service(22, "SSH-2.0-OpenSSH").as_deref(), Some("SSH"));
    assert_eq!(banner_service(25, "220 mail.example ESMTP").as_deref(), Some("SMTP"));
    assert_eq!(banner_service(110, "+OK POP3 ready").as_deref(), Some("POP3"));
    assert_eq!(banner_service(143, "* OK IMAP4rev1").as_deref(), Some("IMAP"));
    // The right banner on the wrong port says nothing.
    assert_eq!(banner_service(23, "SSH-2.0-OpenSSH"), None);
    assert_eq!(banner_service(22, "garbage"), None);
}

#[test]
fn port_table() {
    assert_eq!(default_service_name(443).as_deref(), Some("HTTP"));
    assert_eq!(default_service_name(22).as_deref(), Some("SSH"));
    assert_eq!(default_service_name(53).as_deref(), Some("DNS"));
    assert_eq!(default_service_name(445).as_deref(), Some("SMB"));
    assert_eq!(default_service_name(5432).as_deref(), Some("PostgreSQL"));
    assert_eq!(default_service_name(6379).as_deref(), Some("Redis"));
    assert_eq!(default_service_name(27017).as_deref(), Some("MongoDB"));
    assert_eq!(default_service_name(4444), None);
}
