use sonar_game::text::{clock_string, decimal_string, two_digit_string};

#[test]
fn decimal_of_small_numbers() {
    assert_eq!(decimal_string(0), "0");
    assert_eq!(decimal_string(7), "7");
    assert_eq!(decimal_string(9), "9");
}

#[test]
fn decimal_of_larger_numbers() {
    assert_eq!(decimal_string(10), "10");
    assert_eq!(decimal_string(123), "123");
    assert_eq!(decimal_string(1000), "1000");
}

#[test]
fn decimal_matches_to_string() {
    for n in [0u32, 1, 19, 20, 99, 100, 101, 65535, 1_000_000, u32::MAX - 1, u32::MAX] {
        assert_eq!(decimal_string(n), n.to_string());
    }
}

#[test]
fn decimal_of_largest_count() {
    assert_eq!(decimal_string(u32::MAX), "4294967295");
}

#[test]
fn two_digit_pads_single_digits() {
    assert_eq!(two_digit_string(0), "00");
    assert_eq!(two_digit_string(5), "05");
    assert_eq!(two_digit_string(9), "09");
}

#[test]
fn two_digit_keeps_longer_numbers() {
    assert_eq!(two_digit_string(10), "10");
    assert_eq!(two_digit_string(42), "42");
    assert_eq!(two_digit_string(123), "123");
}

#[test]
fn two_digit_matches_format() {
    for n in [0u32, 3, 10, 59, 60, 99, 100, 12345, u32::MAX] {
        assert_eq!(two_digit_string(n), format!("{:02}", n));
    }
}

#[test]
fn clock_at_start() {
    assert_eq!(clock_string(0), "00:00");
}

#[test]
fn clock_within_first_minute() {
    assert_eq!(clock_string(7), "00:07");
    assert_eq!(clock_string(59), "00:59");
}

#[test]
fn clock_rolls_over_to_minutes() {
    assert_eq!(clock_string(60), "01:00");
    assert_eq!(clock_string(61), "01:01");
    assert_eq!(clock_string(754), "12:34");
    assert_eq!(clock_string(3599), "59:59");
}

#[test]
fn clock_minutes_grow_past_two_digits() {
    assert_eq!(clock_string(3600), "60:00");
    assert_eq!(clock_string(6000), "100:00");
    assert_eq!(clock_string(u32::MAX), "71582788:15");
}

#[test]
fn clock_matches_format() {
    for t in [0u32, 1, 59, 60, 119, 3599, 3600, 5999, 6000, 86_399, u32::MAX] {
        assert_eq!(clock_string(t), format!("{:02}:{:02}", t / 60, t % 60));
    }
}

#[test]
fn clock_reads_back() {
    for t in [0u32, 9, 61, 3661, 100_000] {
        let text = clock_string(t);
        let (m, s) = text.split_once(':').unwrap();
        assert_eq!(s.len(), 2);
        assert!(m.len() >= 2);
        let m: u32 = m.parse().unwrap();
        let s: u32 = s.parse().unwrap();
        assert!(s < 60);
        assert_eq!(m * 60 + s, t);
    }
}
