use ping_tokio::addr::{Ipv4Addr, Ipv6Addr};
use ping_tokio::error::{Error, ErrorKind};
use ping_tokio::generate_payload;
use ping_tokio::net::{OsConstants, Platform, SocketType};
use ping_tokio::packet::{echo_request_v4, echo_request_v6};
use ping_tokio::reply::{
    decode_hlim, decode_ip_ttl, reply_capacity, strips_ip_header, ByteOrder, ControlMessage,
    Datagram, EchoProbe,
};
use ping_tokio::time::Timestamp;
use std::time::Duration;

const LITTLE: ByteOrder = ByteOrder::Little;

fn probe() -> EchoProbe {
    EchoProbe { id: 0x1234, seq: 1, sent: Timestamp { sec: 100, nsec: 999_999_000 } }
}

/// Two milliseconds after the probe was sent.
fn now() -> Timestamp {
    Timestamp { sec: 101, nsec: 1_999_000 }
}

fn echo_v4(probe: &EchoProbe, payload: &[u8]) -> Vec<u8> {
    let mut message = echo_request_v4(probe.id, probe.seq, probe.sent, payload);
    message[0] = 0;
    message
}

fn echo_v6(probe: &EchoProbe, payload: &[u8]) -> Vec<u8> {
    let mut message = echo_request_v6(probe.id, probe.seq, probe.sent, payload);
    message[0] = 129;
    message
}

/// An IPv4 packet from 192.0.2.7 with a time to live of 61.
fn packet(message: &[u8]) -> Vec<u8> {
    let mut packet = vec![0x45, 0, 0, 0, 0, 0, 0, 0, 61, 1, 0, 0, 192, 0, 2, 7, 10, 0, 0, 1];
    packet.extend_from_slice(message);
    packet
}

fn control(level: i32, kind: i32, data: &[u8]) -> ControlMessage {
    ControlMessage { level, kind, data: data.to_vec() }
}

fn datagram_v4(data: Vec<u8>) -> Datagram<Ipv4Addr> {
    let os = OsConstants::host();
    Datagram {
        data,
        flags: 0,
        source: Some(Ipv4Addr::new(127, 0, 0, 1)),
        control: vec![control(os.ipproto_ip, os.ip_ttl, &[64, 0, 0, 0])],
    }
}

fn datagram_v6(data: Vec<u8>) -> Datagram<Ipv6Addr> {
    let os = OsConstants::host();
    Datagram {
        data,
        flags: 0,
        source: Some(Ipv6Addr::new(0, 0, 0, 0, 0, 0, 0, 1)),
        control: vec![control(os.ipproto_ipv6, os.ipv6_hoplimit, &[63, 0, 0, 0])],
    }
}

#[test]
fn raw_packet_with_the_reply_is_accepted() {
    let payload = generate_payload(48);
    let packet = packet(&echo_v4(&probe(), &payload));
    assert_eq!(packet.len(), reply_capacity(48, false));
    let reply = probe().receive_v4_raw(&packet, now()).unwrap();
    assert_eq!(reply.src_addr, Ipv4Addr::new(192, 0, 2, 7));
    assert_eq!(reply.len, 64);
    assert_eq!(reply.seq, 1);
    assert_eq!(reply.ttl, 61);
    assert_eq!(reply.rtt, Duration::from_millis(2));
}

#[test]
fn datagram_with_the_reply_is_accepted() {
    let datagram = datagram_v4(echo_v4(&probe(), &generate_payload(48)));
    assert_eq!(datagram.data.len(), reply_capacity(48, true));
    let reply = probe()
        .receive_v4_dgram(&datagram, &OsConstants::host(), LITTLE, now())
        .unwrap()
        .unwrap();
    assert_eq!(reply.src_addr, Ipv4Addr::new(127, 0, 0, 1));
    assert_eq!(reply.len, 64);
    assert_eq!(reply.seq, 1);
    assert_eq!(reply.ttl, 64);
    assert_eq!(reply.rtt, Duration::from_millis(2));
}

#[test]
fn v6_datagram_with_the_reply_is_accepted() {
    let datagram = datagram_v6(echo_v6(&probe(), &[]));
    let reply =
        probe().receive_v6(&datagram, &OsConstants::host(), LITTLE, now()).unwrap().unwrap();
    assert_eq!(reply.src_addr, Ipv6Addr::new(0, 0, 0, 0, 0, 0, 0, 1));
    assert_eq!(reply.len, 16);
    assert_eq!(reply.seq, 1);
    assert_eq!(reply.hlim, 63);
    assert_eq!(reply.rtt, Duration::from_millis(2));
}

#[test]
fn anything_else_is_ignored() {
    let os = OsConstants::host();
    let good = echo_v4(&probe(), &[]);
    let good_v6 = echo_v6(&probe(), &[]);
    // Type, identifier, sequence number and each end of the timestamp.
    for at in [0, 4, 5, 6, 7, 8, 15] {
        let mut bad = good.clone();
        bad[at] ^= 8;
        assert!(probe().receive_v4_raw(&packet(&bad), now()).is_none(), "byte {at}");
        let reply = probe().receive_v4_dgram(&datagram_v4(bad), &os, LITTLE, now());
        assert!(matches!(reply, Ok(None)), "byte {at}");
        let mut bad = good_v6.clone();
        bad[at] ^= 8;
        let reply = probe().receive_v6(&datagram_v6(bad), &os, LITTLE, now());
        assert!(matches!(reply, Ok(None)), "byte {at}");
    }
    // Code, checksum and payload are not looked at.
    for at in [1, 2, 3] {
        let mut changed = good.clone();
        changed[at] ^= 0xff;
        assert!(probe().receive_v4_raw(&packet(&changed), now()).is_some(), "byte {at}");
    }
}

#[test]
fn short_messages_are_ignored() {
    let os = OsConstants::host();
    let whole = packet(&echo_v4(&probe(), &[]));
    assert!(probe().receive_v4_raw(&whole, now()).is_some());
    for len in [0, 19, 20, 28, 35] {
        assert!(probe().receive_v4_raw(&whole[..len], now()).is_none(), "{len} bytes");
    }
    for len in [0, 8, 15] {
        let message = echo_v4(&probe(), &[])[..len].to_vec();
        let reply = probe().receive_v4_dgram(&datagram_v4(message), &os, LITTLE, now());
        assert!(matches!(reply, Ok(None)), "{len} bytes");
        let message = echo_v6(&probe(), &[])[..len].to_vec();
        let reply = probe().receive_v6(&datagram_v6(message), &os, LITTLE, now());
        assert!(matches!(reply, Ok(None)), "{len} bytes");
    }
}

#[test]
fn own_requests_are_not_taken_for_replies() {
    let p = probe();
    let request = echo_request_v4(p.id, p.seq, p.sent, &[1, 2, 3]);
    assert!(p.receive_v4_raw(&packet(&request), now()).is_none());
    let request = echo_request_v6(p.id, p.seq, p.sent, &[1, 2, 3]);
    let reply = p.receive_v6(&datagram_v6(request), &OsConstants::host(), LITTLE, now());
    assert!(matches!(reply, Ok(None)));
}

#[test]
fn a_reply_answers_one_request_only() {
    let other = EchoProbe { seq: 2, ..probe() };
    let packet = packet(&echo_v4(&probe(), &[]));
    assert!(probe().receive_v4_raw(&packet, now()).is_some());
    assert!(other.receive_v4_raw(&packet, now()).is_none());
}

#[test]
fn a_clock_that_ran_backwards_gives_a_round_trip_of_zero() {
    let packet = packet(&echo_v4(&probe(), &[]));
    let reply = probe().receive_v4_raw(&packet, Timestamp { sec: 99, nsec: 0 }).unwrap();
    assert_eq!(reply.rtt, Duration::ZERO);
}

#[test]
fn truncated_control_data_is_an_error_even_without_a_reply() {
    let os = OsConstants::host();
    let mut datagram = datagram_v4(Vec::new());
    datagram.flags = os.msg_ctrunc | libc::MSG_TRUNC;
    let error = probe().receive_v4_dgram(&datagram, &os, LITTLE, now()).unwrap_err();
    assert_eq!(error, Error::ControlTruncated);
    assert_eq!(error.kind(), ErrorKind::Other);
    assert_eq!(error.message(), "recvmsg control buffer truncated (MSG_CTRUNC)");
    let mut datagram = datagram_v6(echo_v6(&probe(), &[]));
    datagram.flags = os.msg_ctrunc;
    let error = probe().receive_v6(&datagram, &os, LITTLE, now()).unwrap_err();
    assert_eq!(error, Error::ControlTruncated);
    datagram.flags = libc::MSG_TRUNC;
    assert!(probe().receive_v6(&datagram, &os, LITTLE, now()).unwrap().is_some());
}

#[test]
fn a_reply_without_a_source_is_an_error() {
    let os = OsConstants::host();
    let mut datagram = datagram_v4(echo_v4(&probe(), &[]));
    datagram.source = None;
    let error = probe().receive_v4_dgram(&datagram, &os, LITTLE, now()).unwrap_err();
    assert_eq!(error, Error::NoSourceAddress);
    assert_eq!(error.kind(), ErrorKind::InvalidData);
    assert_eq!(error.message(), "recvmsg returned no source address");
    let mut datagram = datagram_v6(echo_v6(&probe(), &[]));
    datagram.source = None;
    datagram.control.clear();
    let error = probe().receive_v6(&datagram, &os, LITTLE, now()).unwrap_err();
    assert_eq!(error, Error::NoSourceAddress);
}

#[test]
fn a_reply_without_ttl_has_ttl_zero_but_one_without_hop_limit_is_an_error() {
    let os = OsConstants::host();
    let mut datagram = datagram_v4(echo_v4(&probe(), &[]));
    datagram.control.clear();
    let reply = probe().receive_v4_dgram(&datagram, &os, LITTLE, now()).unwrap().unwrap();
    assert_eq!(reply.ttl, 0);
    let mut datagram = datagram_v6(echo_v6(&probe(), &[]));
    datagram.control.clear();
    let error = probe().receive_v6(&datagram, &os, LITTLE, now()).unwrap_err();
    assert_eq!(error, Error::MissingHopLimit);
    assert_eq!(error.kind(), ErrorKind::InvalidData);
    assert_eq!(error.message(), "reply missing IPV6_HOPLIMIT control message");
}

#[test]
fn the_first_long_enough_control_message_counts() {
    let os = OsConstants::host();
    let messages = [
        control(os.ipproto_ipv6, os.ipv6_hoplimit, &[1, 0, 0, 0]),
        control(os.ipproto_ip, os.ip_ttl, &[2, 0, 0]),
        control(os.ipproto_ip, os.ip_ttl, &[3, 0, 0, 0, 9]),
        control(os.ipproto_ip, os.ip_ttl, &[4, 0, 0, 0]),
    ];
    assert_eq!(decode_ip_ttl(&messages, &os, ByteOrder::Little), Some(3));
    assert_eq!(decode_hlim(&messages, &os, ByteOrder::Little), Some(1));
    assert_eq!(decode_hlim(&messages[1..], &os, ByteOrder::Little), None);
}

#[test]
fn values_past_an_octet_are_none() {
    let os = OsConstants::host();
    let ttl = |data: &[u8], order| {
        decode_ip_ttl(&[control(os.ipproto_ip, os.ip_ttl, data)], &os, order)
    };
    assert_eq!(ttl(&[255, 0, 0, 0], ByteOrder::Little), Some(255));
    assert_eq!(ttl(&[0, 1, 0, 0], ByteOrder::Little), None);
    assert_eq!(ttl(&[255, 255, 255, 255], ByteOrder::Little), None);
    assert_eq!(ttl(&[0, 0, 0, 64], ByteOrder::Big), Some(64));
    assert_eq!(ttl(&[64, 0, 0, 0], ByteOrder::Big), None);
}

#[test]
fn only_linux_datagram_sockets_strip_the_ip_header() {
    assert!(strips_ip_header(Platform::Linux, SocketType::Dgram));
    assert!(!strips_ip_header(Platform::Linux, SocketType::Raw));
    assert!(!strips_ip_header(Platform::Apple, SocketType::Dgram));
    assert!(!strips_ip_header(Platform::Other, SocketType::Raw));
    assert_eq!(reply_capacity(0, true), 16);
    assert_eq!(reply_capacity(0, false), 36);
}
