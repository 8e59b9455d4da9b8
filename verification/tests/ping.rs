use rustscan::ping::{icmp_reply_is_echo, IcmpHeader, ICMP_ECHO_REQUEST};

#[test]
fn echo_request_header_fields() {
    let h = IcmpHeader::new(1, 1);
    assert_eq!(h.type_, ICMP_ECHO_REQUEST);
    assert_eq!(h.code, 0);
    assert_eq!(h.checksum, 0);
    assert_eq!(h.identifier, 1);
    assert_eq!(h.sequence, 1);
}

#[test]
fn checksum_of_fresh_echo_request() {
    let mut h = IcmpHeader::new(1, 1);
    h.calculate_checksum();
    // Words: 0x0800 + 0x0000 + 0x0001 + 0x0001 = 0x0802; complement 0xF7FD.
    assert_eq!(h.checksum, 0xF7FD);
    assert_eq!(h.to_bytes(), [8, 0, 0xF7, 0xFD, 0, 1, 0, 1]);
}

#[test]
fn checksum_folds_carries() {
    let mut h = IcmpHeader {
        type_: 0xFF,
        code: 0xFF,
        checksum: 0,
        identifier: 0xFFFF,
        sequence: 0xFFFF,
    };
    h.calculate_checksum();
    // Sum: 0xFFFF * 3 = 0x2FFFD; folded: 0xFFFD + 0x2 = 0xFFFF; complement 0.
    assert_eq!(h.checksum, 0);
}

#[test]
fn wire_bytes_are_big_endian() {
    let h = IcmpHeader {
        type_: 8,
        code: 0,
        checksum: 0xABCD,
        identifier: 0x0102,
        sequence: 0x0304,
    };
    assert_eq!(h.to_bytes(), [8, 0, 0xAB, 0xCD, 0x01, 0x02, 0x03, 0x04]);
}

#[test]
fn reply_classification() {
    let reply = [0u8, 0, 0, 0, 0, 0, 0, 0, 9, 9];
    assert!(icmp_reply_is_echo(&reply, 10));
    // Too short to hold a header.
    assert!(!icmp_reply_is_echo(&reply, 7));
    // An echo request (type 8) coming back is not a reply.
    let not_reply = [8u8, 0, 0, 0, 0, 0, 0, 0];
    assert!(!icmp_reply_is_echo(&not_reply, 8));
}
