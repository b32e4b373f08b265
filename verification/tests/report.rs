use ping_tokio::report::{
    counts_line, header_line, reply_line, round_trip_line, timeout_line, title_line,
};

#[test]
fn lines_read_as_documented() {
    assert_eq!(
        header_line("127.0.0.1", "127.0.0.1", 1500),
        "PING 127.0.0.1 (127.0.0.1): 1500 data bytes"
    );
    assert_eq!(
        reply_line(1508, "127.0.0.1", 0, 64, "0.106"),
        "1508 bytes from 127.0.0.1: icmp_seq=0 ttl=64 time=0.106 ms"
    );
    assert_eq!(title_line("127.0.0.1"), "--- 127.0.0.1 ping statistics ---");
    assert_eq!(
        counts_line(5, 5, "0.0"),
        "5 packets transmitted, 5 packets received, 0.0% packet loss"
    );
    assert_eq!(
        round_trip_line(5, "0.102", "0.126", "0.152", "0.019").unwrap(),
        "round-trip min/avg/max/stddev = 0.102/0.126/0.152/0.019 ms"
    );
}

#[test]
fn lost_probes_have_lines_and_no_times() {
    assert_eq!(timeout_line(65_536), "Request timeout for icmp_seq 65536");
    assert_eq!(timeout_line(u32::MAX), "Request timeout for icmp_seq 4294967295");
    assert_eq!(round_trip_line(0, "0", "0", "0", "0"), None);
    assert_eq!(
        counts_line(1, 0, "100.0"),
        "1 packets transmitted, 0 packets received, 100.0% packet loss"
    );
}
