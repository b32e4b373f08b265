use ping_tokio::time::Timestamp;
use std::time::Duration;

#[test]
fn timestamps_travel_in_network_byte_order() {
    let t = Timestamp { sec: 0x0102_0304, nsec: 0xfdfe_ff00 };
    assert_eq!(t.as_bytes(), [1, 2, 3, 4, 0xfd, 0xfe, 0xff, 0]);
    assert_eq!(Timestamp::len(), 8);
}

#[test]
fn timestamps_survive_the_trip_through_their_bytes() {
    for t in [
        Timestamp { sec: 0, nsec: 0 },
        Timestamp { sec: 1_700_000_000, nsec: 999_999_999 },
        Timestamp { sec: u32::MAX, nsec: u32::MAX },
    ] {
        assert_eq!(Timestamp::from(t.as_bytes()), t);
    }
    let bytes = [9, 8, 7, 6, 5, 4, 3, 2];
    assert_eq!(Timestamp::from(bytes).as_bytes(), bytes);
}

#[test]
fn difference_is_the_time_between() {
    let a = Timestamp { sec: 10, nsec: 900_000_000 };
    let b = Timestamp { sec: 12, nsec: 100_000_000 };
    assert_eq!(b - a, Duration::from_millis(1200));
    assert_eq!(a - b, Duration::ZERO);
    assert_eq!(a - a, Duration::ZERO);
    let least = Timestamp { sec: 0, nsec: 0 };
    let most = Timestamp { sec: u32::MAX, nsec: u32::MAX };
    assert_eq!(most - least, Duration::from_nanos(4_294_967_295 * 1_000_000_001));
}

#[test]
fn clock_readings_keep_their_low_bits() {
    let t = Timestamp::from_clock(0x1_0000_0005, 7);
    assert_eq!(t, Timestamp { sec: 5, nsec: 7 });
    let t = Timestamp::from_clock(-1, 0);
    assert_eq!(t, Timestamp { sec: u32::MAX, nsec: 0 });
    let t = Timestamp::from_clock(i64::MIN, i64::MAX);
    assert_eq!(t, Timestamp { sec: 0, nsec: u32::MAX });
}
