use ping_tokio::generate_payload;
use ping_tokio::packet::{
    add_icmp_header, calculate_checksum, echo_request_v4, echo_request_v6,
};
use ping_tokio::time::Timestamp;

#[test]
fn add_icmp_header_writes_8_bytes() {
    let mut buf = Vec::new();
    add_icmp_header(&mut buf, 8, 0, 0);
    assert_eq!(buf.len(), 8);
}

#[test]
fn add_icmp_header_type_field() {
    let mut buf = Vec::new();
    add_icmp_header(&mut buf, 0x08, 0, 0);
    assert_eq!(buf[0], 0x08);
}

#[test]
fn add_icmp_header_code_is_zero() {
    let mut buf = Vec::new();
    add_icmp_header(&mut buf, 8, 0xffff, 0xffff);
    assert_eq!(buf[1], 0);
}

#[test]
fn add_icmp_header_id_big_endian() {
    let mut buf = Vec::new();
    add_icmp_header(&mut buf, 8, 0x1234, 0);
    assert_eq!(buf[4], 0x12);
    assert_eq!(buf[5], 0x34);
}

#[test]
fn add_icmp_header_seq_big_endian() {
    let mut buf = Vec::new();
    add_icmp_header(&mut buf, 8, 0, 1);
    assert_eq!(buf[6], 0);
    assert_eq!(buf[7], 1);
}

#[test]
fn add_icmp_header_appends_to_existing_content() {
    let mut buf = vec![0xde, 0xad];
    add_icmp_header(&mut buf, 8, 0, 0);
    assert_eq!(buf.len(), 10);
    assert_eq!(&buf[..2], &[0xde, 0xad]);
}

#[test]
fn test_checksum() {
    // Test with known ICMP echo request header (checksum field zeroed)
    // Type=8, Code=0, Checksum=0, ID=0, Sequence=0
    let data = vec![0x08, 0x00, 0x00, 0x00, 0x00, 0x00, 0x00, 0x00];
    let checksum = calculate_checksum(&data);
    // Expected: ~(0x0800) = 0xf7ff
    assert_eq!(checksum, 0xf7ff);

    // Test with odd length data
    let data = vec![0x00, 0x01, 0x02];
    let checksum = calculate_checksum(&data);
    // Sum: 0x0001 + 0x0200 = 0x0201, ~0x0201 = 0xfdfe
    assert_eq!(checksum, 0xfdfe);
}

#[test]
fn checksum_of_one_byte_is_that_of_its_upper_half_word() {
    assert_eq!(calculate_checksum(&[0x12]), !0x1200);
}

#[test]
fn checksum_folds_carries_back_in() {
    // 0xffff + 0xffff = 0x1fffe, which folds to 0xffff.
    assert_eq!(calculate_checksum(&[0xff, 0xff, 0xff, 0xff]), 0);
    // 0xffff + 0x0002 = 0x10001, which folds to 0x0002.
    assert_eq!(calculate_checksum(&[0xff, 0xff, 0x00, 0x02]), !0x0002);
}

#[test]
fn checksum_of_long_data_does_not_overflow() {
    // Far more words than fit in the upper half of a 32-bit sum.
    let data = vec![0xff; 400_001];
    assert_eq!(calculate_checksum(&data), !0xff00);
}

#[test]
fn payload_counts_up_and_starts_over() {
    let payload = generate_payload(258);
    assert_eq!(payload.len(), 258);
    assert_eq!(&payload[..3], &[0, 1, 2]);
    assert_eq!(&payload[254..], &[254, 255, 0, 1]);
    assert!(generate_payload(0).is_empty());
}

#[test]
fn v4_request_holds_header_timestamp_payload_and_checksum() {
    let sent = Timestamp { sec: 0x0102_0304, nsec: 0x0506_0708 };
    let request = echo_request_v4(0x1234, 7, sent, &[9, 10]);
    assert_eq!(request.len(), 18);
    assert_eq!(&request[..2], &[8, 0]);
    assert_eq!(&request[4..8], &[0x12, 0x34, 0, 7]);
    assert_eq!(&request[8..], &[1, 2, 3, 4, 5, 6, 7, 8, 9, 10]);
    // 0x0800 + 0x1234 + 0x0007 + 0x0102 + 0x0304 + 0x0506 + 0x0708 + 0x090a
    assert_eq!(&request[2..4], &[!0x33, !0x59]);
}

#[test]
fn v4_request_verifies_at_the_receiver() {
    for size in [0, 1, 47, 48, 1024] {
        let request = echo_request_v4(
            0xbeef,
            0xffff,
            Timestamp { sec: 1_700_000_000, nsec: 999_999_999 },
            &generate_payload(size),
        );
        assert_eq!(request.len(), 16 + size);
        assert_eq!(calculate_checksum(&request), 0);
    }
}

#[test]
fn v6_request_leaves_the_checksum_to_the_kernel() {
    let sent = Timestamp { sec: 1, nsec: 2 };
    let request = echo_request_v6(0x0102, 0x0304, sent, &[5]);
    assert_eq!(request, vec![128, 0, 0, 0, 1, 2, 3, 4, 0, 0, 0, 1, 0, 0, 0, 2, 5]);
}

#[test]
fn data_with_its_checksum_behind_it_verifies() {
    for mut data in [vec![], vec![0, 0], vec![0xff, 0xff, 0x12, 0x34], generate_payload(256)] {
        let checksum = if data.is_empty() { 0xffff } else { calculate_checksum(&data) };
        data.extend_from_slice(&checksum.to_be_bytes());
        assert_eq!(calculate_checksum(&data), 0);
    }
}
