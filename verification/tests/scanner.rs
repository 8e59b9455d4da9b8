use rustscan::scanner::{
    chunk_ports, collect_open_ports, sort_services, tcp_feedback, tcp_port_open, udp_feedback,
    udp_port_open, ProbeResult, ScanType, Scanner, TcpProbeEvent, UdpProbeEvent,
};
use rustscan::service_detector::ServiceDetector;

fn probe(port: u16, is_open: bool) -> ProbeResult {
    ProbeResult { port, is_open, latency_ms: None }
}

#[test]
fn reversed_range_scans_nothing() {
    let s = Scanner::new(5000, 4000, 200, 100, ScanType::Tcp);
    assert_eq!(s.port_count(), 0);
    assert!(s.batches(2000).is_empty());
    // With no batches there are no probes, and no probes open no ports.
    assert!(collect_open_ports(&vec![]).is_empty());
}

#[test]
fn batches_cover_the_range_in_order() {
    let s = Scanner::new(1, 5000, 200, 100, ScanType::Tcp);
    assert_eq!(s.port_count(), 5000);
    assert_eq!(s.batch_size(), 2000);
    let b = s.batches(2000);
    assert_eq!(b, vec![(1, 2000), (2001, 4000), (4001, 5000)]);
}

#[test]
fn batches_do_not_wrap_at_the_top_port() {
    let s = Scanner::new(65000, 65535, 200, 100, ScanType::Udp);
    assert_eq!(s.batch_size(), 100);
    let b = s.batches(100);
    assert_eq!(b.len(), 6);
    assert_eq!(b[0], (65000, 65099));
    assert_eq!(b[5], (65500, 65535));
}

#[test]
fn single_port_range() {
    let s = Scanner::new(80, 80, 200, 100, ScanType::Tcp);
    assert_eq!(s.batches(2000), vec![(80, 80)]);
}

#[test]
fn open_ports_are_sorted_and_deduplicated() {
    let results = vec![
        probe(8002, true),
        probe(7999, false),
        probe(8000, true),
        probe(8000, true),
        probe(8001, false),
    ];
    assert_eq!(collect_open_ports(&results), vec![8000, 8002]);
}

#[test]
fn aggregation_ignores_completion_order() {
    let one = vec![probe(443, true), probe(22, true), probe(80, true), probe(21, false)];
    let other = vec![probe(80, true), probe(21, false), probe(443, true), probe(22, true)];
    let r1 = collect_open_ports(&one);
    let r2 = collect_open_ports(&other);
    assert_eq!(r1, vec![22, 80, 443]);
    assert_eq!(r1, r2);
}

#[test]
fn service_pairs_sort_by_port() {
    let pairs = vec![
        (443, "HTTP".to_string()),
        (22, "SSH".to_string()),
        (80, "HTTP".to_string()),
    ];
    let sorted = sort_services(pairs);
    assert_eq!(
        sorted,
        vec![
            (22, "SSH".to_string()),
            (80, "HTTP".to_string()),
            (443, "HTTP".to_string()),
        ]
    );
}

#[test]
fn chunks_for_identification() {
    let ports: Vec<u16> = (1..=45).collect();
    let chunks = chunk_ports(&ports, 20);
    assert_eq!(chunks.len(), 3);
    assert_eq!(chunks[0].len(), 20);
    assert_eq!(chunks[1].len(), 20);
    assert_eq!(chunks[2], (41..=45).collect::<Vec<u16>>());
    assert!(chunk_ports(&vec![], 20).is_empty());
}

#[test]
fn probe_outcome_decisions() {
    assert!(tcp_port_open(TcpProbeEvent::Connected));
    assert!(!tcp_port_open(TcpProbeEvent::Refused));
    assert!(!tcp_port_open(TcpProbeEvent::TimedOut));
    assert!(tcp_feedback(TcpProbeEvent::Connected));
    assert!(!tcp_feedback(TcpProbeEvent::Refused));
    // A timed-out probe reports a failure too: every probe's outcome
    // reaches the rate controller.
    assert!(!tcp_feedback(TcpProbeEvent::TimedOut));

    // UDP's silence counts as open by design.
    assert!(udp_port_open(UdpProbeEvent::Response));
    assert!(udp_port_open(UdpProbeEvent::Timeout));
    assert!(!udp_port_open(UdpProbeEvent::RecvError));
    assert!(udp_feedback(UdpProbeEvent::Timeout));
    assert!(!udp_feedback(UdpProbeEvent::RecvError));
}

#[test]
fn scan_and_identify_scenario() {
    // A sweep of [7999, 8002] against a host with one HTTP listener on 8000:
    // the probes answer as the network would, and the pipeline reports the
    // one open port with its label.
    let s = Scanner::new(7999, 8002, 200, 100, ScanType::Tcp);
    let batches = s.batches(s.batch_size());
    assert_eq!(batches, vec![(7999, 8002)]);

    let events = vec![
        (7999, TcpProbeEvent::Refused),
        (8000, TcpProbeEvent::Connected),
        (8001, TcpProbeEvent::Refused),
        (8002, TcpProbeEvent::TimedOut),
    ];
    let results: Vec<ProbeResult> = events
        .iter()
        .map(|&(port, e)| probe(port, tcp_port_open(e)))
        .collect();
    let open = collect_open_ports(&results);
    assert_eq!(open, vec![8000]);

    let mut detector = ServiceDetector::new();
    let label = detector.detect_from_response(
        0x7F000001,
        8000,
        Some("HTTP/1.1 200 OK\r\nServer: test\r\n\r\n"),
    );
    assert_eq!(label.as_deref(), Some("HTTP"));
}
