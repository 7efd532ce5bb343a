use yakshop::text::{digit_str, push_decimal, push_decimal_hundredths, push_decimal_thousandths};

fn decimal(n: u32) -> String {
    let mut out = String::new();
    push_decimal(&mut out, n);
    out
}

fn hundredths(n: u32) -> String {
    let mut out = String::new();
    push_decimal_hundredths(&mut out, n);
    out
}

fn thousandths(n: u32) -> String {
    let mut out = String::new();
    push_decimal_thousandths(&mut out, n);
    out
}

#[test]
fn the_ten_digits() {
    let digits: Vec<&str> = (0..10).map(digit_str).collect();
    assert_eq!(digits, vec!["0", "1", "2", "3", "4", "5", "6", "7", "8", "9"]);
}

#[test]
fn whole_numbers_in_decimal() {
    assert_eq!(decimal(0), "0");
    assert_eq!(decimal(7), "7");
    assert_eq!(decimal(10), "10");
    assert_eq!(decimal(101), "101");
    assert_eq!(decimal(1_234_567_890), "1234567890");
    assert_eq!(decimal(u32::MAX), "4294967295");
}

#[test]
fn whole_numbers_agree_with_the_standard_library() {
    let mut n: u32 = 0;
    while n < 100_000 {
        assert_eq!(decimal(n), n.to_string());
        n += 1;
    }
    while n < u32::MAX - 104_729 {
        assert_eq!(decimal(n), n.to_string());
        n += 104_729;
    }
}

#[test]
fn numbers_are_written_after_what_is_there() {
    let mut out = String::from("Day: ");
    push_decimal(&mut out, 13);
    out.push(' ');
    push_decimal_hundredths(&mut out, 413);
    out.push(' ');
    push_decimal_thousandths(&mut out, 110_448);
    assert_eq!(out, "Day: 13 4.13 1104.480");
}

#[test]
fn hundredths_as_briefly_as_can_be() {
    assert_eq!(hundredths(0), "0");
    assert_eq!(hundredths(1), "0.01");
    assert_eq!(hundredths(9), "0.09");
    assert_eq!(hundredths(10), "0.1");
    assert_eq!(hundredths(11), "0.11");
    assert_eq!(hundredths(90), "0.9");
    assert_eq!(hundredths(100), "1");
    assert_eq!(hundredths(101), "1.01");
    assert_eq!(hundredths(110), "1.1");
    assert_eq!(hundredths(400), "4");
    assert_eq!(hundredths(413), "4.13");
    assert_eq!(hundredths(950), "9.5");
    assert_eq!(hundredths(1_000), "10");
    assert_eq!(hundredths(u32::MAX), "42949672.95");
}

#[test]
fn hundredths_with_three_places() {
    assert_eq!(thousandths(0), "0.000");
    assert_eq!(thousandths(1), "0.010");
    assert_eq!(thousandths(10), "0.100");
    assert_eq!(thousandths(99), "0.990");
    assert_eq!(thousandths(100), "1.000");
    assert_eq!(thousandths(5_000), "50.000");
    assert_eq!(thousandths(110_448), "1104.480");
    assert_eq!(thousandths(118_881), "1188.810");
    assert_eq!(thousandths(u32::MAX), "42949672.950");
}

#[test]
fn hundredths_agree_with_floating_point() {
    let mut n: u32 = 0;
    while n < 200_000 {
        let value = f64::from(n) / 100.0;
        assert_eq!(hundredths(n), format!("{value}"));
        assert_eq!(thousandths(n), format!("{value:.3}"));
        n += 1;
    }
    while n < u32::MAX - 15_485_863 {
        let value = f64::from(n) / 100.0;
        assert_eq!(hundredths(n), format!("{value}"));
        assert_eq!(thousandths(n), format!("{value:.3}"));
        n += 15_485_863;
    }
}
