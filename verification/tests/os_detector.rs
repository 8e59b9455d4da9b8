use rustscan::os_detector::{
    analyze_http_headers, classify_service_presence, classify_ttl_observations, merge_os_infos,
    unknown_os, OSInfo, TtlObservation,
};

fn info(name: &str, confidence: u32, features: &[&str]) -> OSInfo {
    OSInfo {
        name: name.to_string(),
        version: None,
        confidence,
        features: features.iter().map(|f| f.to_string()).collect(),
    }
}

#[test]
fn nginx_header_speaks_for_linux() {
    let resp = "HTTP/1.1 200 OK\r\nServer: nginx/1.18.0\r\nX-Powered-By: PHP/8.1\r\n\r\n";
    let r = analyze_http_headers(resp).unwrap();
    assert_eq!(r.name.as_str(), "Linux/Unix");
    // 0.85 for nginx, +0.10 for the version, +0.05 for PHP.
    assert_eq!(r.confidence, 100);
    assert_eq!(r.version.as_deref(), Some("1.18.0"));
    assert_eq!(
        r.features,
        vec!["Server: nginx/1.18.0".to_string(), "Powered by: PHP/8.1".to_string()]
    );
}

#[test]
fn iis_confidence_is_capped_at_one() {
    let resp = "HTTP/1.1 200 OK\r\nServer: Microsoft-IIS/10.0\r\nX-Powered-By: ASP.NET\r\n\r\n";
    let r = analyze_http_headers(resp).unwrap();
    assert_eq!(r.name.as_str(), "Windows");
    // 0.9 + 0.1 + 0.1 would pass the scale's top; it is reported as 1.0.
    assert_eq!(r.confidence, 100);
    assert_eq!(r.version.as_deref(), Some("10.0"));
}

#[test]
fn apache_without_version() {
    let r = analyze_http_headers("Server: Apache\r\n").unwrap();
    assert_eq!(r.name.as_str(), "Linux/Unix");
    assert_eq!(r.confidence, 80);
    assert_eq!(r.version, None);
}

#[test]
fn powered_by_alone_is_weak_evidence() {
    let r = analyze_http_headers("Server: FooServer\r\nX-Powered-By: PHP\r\n").unwrap();
    assert_eq!(r.name.as_str(), "Unknown");
    assert_eq!(r.confidence, 5);
    assert_eq!(r.version, None);
}

#[test]
fn headerless_response_gives_nothing() {
    assert!(analyze_http_headers("HTTP/1.1 200 OK\r\n\r\n").is_none());
    assert!(analyze_http_headers("").is_none());
}

#[test]
fn ttl_values_classify_families() {
    let r = classify_ttl_observations(&vec![TtlObservation { port: 22, ttl: 64 }]);
    assert_eq!(r.name.as_str(), "Linux/Unix");
    assert_eq!(r.confidence, 70);
    assert_eq!(r.features, vec!["TTL: 64 (port 22)".to_string()]);

    // Every answered probe leaves evidence; the last canonical TTL decides.
    let r2 = classify_ttl_observations(&vec![
        TtlObservation { port: 22, ttl: 64 },
        TtlObservation { port: 445, ttl: 128 },
    ]);
    assert_eq!(r2.name.as_str(), "Windows");
    assert_eq!(r2.confidence, 70);
    assert_eq!(
        r2.features,
        vec!["TTL: 64 (port 22)".to_string(), "TTL: 128 (port 445)".to_string()]
    );

    // An unfamiliar TTL is evidence without a verdict.
    let r3 = classify_ttl_observations(&vec![TtlObservation { port: 80, ttl: 100 }]);
    assert_eq!(r3.name.as_str(), "Unknown");
    assert_eq!(r3.confidence, 0);
    assert_eq!(r3.features, vec!["TTL: 100 (port 80)".to_string()]);

    let r4 = classify_ttl_observations(&vec![TtlObservation { port: 443, ttl: 255 }]);
    assert_eq!(r4.name.as_str(), "Solaris/AIX");
}

#[test]
fn service_presence_classifies() {
    let ssh = classify_service_presence(true, false, false);
    assert_eq!(ssh.name.as_str(), "Linux/Unix");
    assert_eq!(ssh.confidence, 80);
    assert_eq!(ssh.features, vec!["Service: SSH (port 22)".to_string()]);

    // SMB or RDP outweighs SSH.
    let mixed = classify_service_presence(true, true, false);
    assert_eq!(mixed.name.as_str(), "Windows");
    assert_eq!(mixed.confidence, 90);
    assert_eq!(
        mixed.features,
        vec!["Service: SSH (port 22)".to_string(), "Service: SMB (port 445)".to_string()]
    );

    let silent = classify_service_presence(false, false, false);
    assert_eq!(silent.name.as_str(), "Unknown");
    assert_eq!(silent.confidence, 0);
    assert!(silent.features.is_empty());
}

#[test]
fn merge_takes_the_highest_confidence_and_unites_evidence() {
    let a = info("Windows", 90, &["Server: Microsoft-IIS"]);
    let b = info("Linux/Unix", 70, &["TTL: 64 (port 22)", "Server: Microsoft-IIS"]);
    let c = info("Unknown", 0, &[]);
    let merged = merge_os_infos(&vec![a, b, c]);
    assert_eq!(merged.confidence, 90);
    assert_eq!(merged.name.as_str(), "Windows");
    assert_eq!(
        merged.features,
        vec!["Server: Microsoft-IIS".to_string(), "TTL: 64 (port 22)".to_string()]
    );
}

#[test]
fn merge_of_nothing_is_unknown() {
    let merged = merge_os_infos(&vec![]);
    assert_eq!(merged.name.as_str(), "Unknown");
    assert_eq!(merged.confidence, 0);
    assert!(merged.features.is_empty());
    assert_eq!(merged.version, None);

    let u = unknown_os();
    assert_eq!(u.name.as_str(), "Unknown");
    assert_eq!(u.confidence, 0);
}

#[test]
fn merge_keeps_the_earliest_of_equal_confidences() {
    let a = info("Linux/Unix", 70, &["a"]);
    let b = info("Windows", 70, &["b"]);
    let merged = merge_os_infos(&vec![a, b]);
    assert_eq!(merged.name.as_str(), "Linux/Unix");
    assert_eq!(merged.features, vec!["a".to_string(), "b".to_string()]);
}
