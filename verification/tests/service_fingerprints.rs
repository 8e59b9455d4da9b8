use rustscan::service_fingerprints::{
    FingerprintConfig, ServiceFingerprint, ServiceFingerprintDB,
};

fn plain_fingerprint(name: &str, port: u16, banner: Option<&str>, weight: u32) -> ServiceFingerprint {
    ServiceFingerprint {
        name: name.to_string(),
        protocol: "TCP".to_string(),
        port,
        banner_pattern: banner.map(|p| p.to_string()),
        response_pattern: None,
        weight,
        description: None,
        version_pattern: None,
        vendor: None,
        cpe: None,
    }
}

#[test]
fn default_set_is_loaded() {
    let db = ServiceFingerprintDB::new();
    let all = db.get_all_fingerprints();
    assert_eq!(all.len(), 3);
    assert_eq!(all[0].name.as_str(), "HTTP");
    assert_eq!(all[1].name.as_str(), "MySQL");
    assert_eq!(all[2].name.as_str(), "SSH");

    let http = db.get_fingerprints_by_port(80);
    assert_eq!(http.len(), 1);
    assert_eq!(http[0].name.as_str(), "HTTP");
    assert_eq!(http[0].weight, 100);
    assert!(db.get_fingerprints_by_port(81).is_empty());
}

#[test]
fn first_registered_match_wins() {
    let db = ServiceFingerprintDB::new();
    let hit = db.match_response(80, "HTTP/1.1 200 OK\r\nServer: nginx\r\n\r\n");
    assert_eq!(hit.map(|f| f.name), Some("HTTP".to_string()));

    // The same response under a port with no fingerprints matches nothing.
    let miss = db.match_response(8000, "HTTP/1.1 200 OK\r\n\r\n");
    assert!(miss.is_none());

    // A response neither pattern matches yields nothing.
    assert!(db.match_response(80, "not a web server").is_none());

    // The SSH banner pattern needs the version shape.
    assert_eq!(
        db.match_response(22, "SSH-2.0-OpenSSH_8.9").map(|f| f.name),
        Some("SSH".to_string())
    );
    assert!(db.match_response(22, "SSH-x").is_none());
}

#[test]
fn response_pattern_matches_too() {
    let db = ServiceFingerprintDB::new();
    // "Server: (.*)" is HTTP's response pattern; a response with only that
    // header still matches the HTTP fingerprint.
    let hit = db.match_response(80, "Server: Apache/2.4");
    assert_eq!(hit.map(|f| f.name), Some("HTTP".to_string()));
}

#[test]
fn registration_order_is_kept() {
    let mut db = ServiceFingerprintDB::new();
    db.add_fingerprint(plain_fingerprint("AltHTTP", 80, Some("HTTP/1"), 50));
    // The default HTTP fingerprint was registered first, so it still wins.
    let hit = db.match_response(80, "HTTP/1.1 200 OK");
    assert_eq!(hit.map(|f| f.name), Some("HTTP".to_string()));
    // A response only the later fingerprint matches reaches it.
    let hit2 = db.match_response(80, "HTTP/1x");
    assert_eq!(hit2.map(|f| f.name), Some("AltHTTP".to_string()));
    assert_eq!(db.get_fingerprints_by_port(80).len(), 2);
}

#[test]
fn invalid_pattern_never_matches() {
    let mut db = ServiceFingerprintDB::new();
    // An unclosed parenthesis does not compile; the fingerprint stays
    // registered but cannot match anything, not even its own text.
    db.add_fingerprint(plain_fingerprint("Broken", 9999, Some("("), 90));
    assert!(db.match_response(9999, "(").is_none());
    assert_eq!(db.get_fingerprints_by_port(9999).len(), 1);
}

#[test]
fn config_replaces_defaults() {
    let config = FingerprintConfig {
        fingerprints: vec![plain_fingerprint("Custom", 1234, Some("^HELLO"), 70)],
    };
    let db = ServiceFingerprintDB::from_config(config);
    let all = db.get_all_fingerprints();
    assert_eq!(all.len(), 1);
    assert_eq!(all[0].name.as_str(), "Custom");
    assert_eq!(
        db.match_response(1234, "HELLO world").map(|f| f.name),
        Some("Custom".to_string())
    );
    assert!(db.match_response(1234, "say HELLO").is_none());
    assert!(db.match_response(80, "HTTP/1.1").is_none());
}
