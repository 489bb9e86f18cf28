use pogo_hurdling::global_types::{GameBoundaries, PlayerStatus};
use pogo_hurdling::text::{decimal, digit, one_decimal, two_digits};

#[test]
fn digits_are_their_characters() {
    let all: Vec<&str> = (0..10u128).map(digit).collect();
    assert_eq!(all, vec!["0", "1", "2", "3", "4", "5", "6", "7", "8", "9"]);
}

#[test]
fn decimal_text_has_no_leading_zeros() {
    assert_eq!(decimal(0), "0");
    assert_eq!(decimal(7), "7");
    assert_eq!(decimal(10), "10");
    assert_eq!(decimal(907), "907");
    assert_eq!(decimal(u128::MAX), "340282366920938463463374607431768211455");
}

#[test]
fn two_digits_pad_below_ten() {
    assert_eq!(two_digits(0), "00");
    assert_eq!(two_digits(7), "07");
    assert_eq!(two_digits(12), "12");
    assert_eq!(two_digits(123), "123");
}

#[test]
fn one_decimal_rounds_half_away_from_zero() {
    assert_eq!(one_decimal(0), "0.0");
    assert_eq!(one_decimal(49), "0.0");
    assert_eq!(one_decimal(50), "0.1");
    assert_eq!(one_decimal(12_345), "12.3");
    assert_eq!(one_decimal(12_350), "12.4");
    assert_eq!(one_decimal(999_950), "1000.0");
    assert_eq!(one_decimal(-40), "-0.0");
    assert_eq!(one_decimal(-50), "-0.1");
    assert_eq!(one_decimal(-12_345), "-12.3");
    assert_eq!(one_decimal(i32::MAX), "2147483.6");
    assert_eq!(one_decimal(i32::MIN), "-2147483.6");
}

#[test]
fn boundaries_have_a_width_and_a_center() {
    let track = GameBoundaries { left: -10_000, right: 90_000 };
    assert_eq!(track.width(), 100_000);
    assert_eq!(track.center(), 40_000);
    let odd = GameBoundaries { left: -3, right: 0 };
    assert_eq!(odd.width(), 3);
    assert_eq!(odd.center(), -2);
    let other = GameBoundaries { left: 0, right: 3 };
    assert_eq!(other.center(), 1);
    let widest = GameBoundaries { left: i32::MIN, right: i32::MAX };
    assert_eq!(widest.width(), 4_294_967_295);
    assert_eq!(widest.center(), -1);
    let backwards = GameBoundaries { left: 5, right: -5 };
    assert_eq!(backwards.width(), -10);
    assert_eq!(backwards.center(), 0);
}

#[test]
fn the_status_starts_empty() {
    let status = PlayerStatus::default();
    assert_eq!(status.distance_traveled, 0);
    assert_eq!(status.time, 0);
    assert_eq!(status.competitors_before, 0);
    assert_eq!(status.competitors_after, 0);
    assert_eq!(status.place(), 1);
    assert_eq!(status.total_runners(), 1);
}

#[test]
fn the_time_is_minutes_and_seconds() {
    let mut status = PlayerStatus::default();
    assert_eq!(status.format_time(), "00:0.0");
    status.time = 5_300;
    assert_eq!(status.format_time(), "00:5.3");
    status.time = 5_349;
    assert_eq!(status.format_time(), "00:5.3");
    status.time = 5_350;
    assert_eq!(status.format_time(), "00:5.4");
    status.time = 59_960;
    assert_eq!(status.format_time(), "00:60.0");
    status.time = 65_000;
    assert_eq!(status.format_time(), "01:5.0");
    status.time = 600_000;
    assert_eq!(status.format_time(), "10:0.0");
    status.time = 6_012_345;
    assert_eq!(status.format_time(), "100:12.3");
}

#[test]
fn the_place_counts_those_ahead() {
    let status = PlayerStatus {
        distance_traveled: 12_000,
        time: 1_000,
        competitors_before: 3,
        competitors_after: 1,
    };
    assert_eq!(status.place(), 4);
    assert_eq!(status.total_runners(), 5);
}
