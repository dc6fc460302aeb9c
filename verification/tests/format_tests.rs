use athene_bot::numfmt::{concat_str, i64_to_dec, signature_for, u64_to_dec};

#[test]
fn renders_zero() {
    assert_eq!(u64_to_dec(0), "0");
}

#[test]
fn renders_single_digit() {
    assert_eq!(u64_to_dec(7), "7");
}

#[test]
fn renders_many_digits() {
    assert_eq!(u64_to_dec(12345), "12345");
    assert_eq!(u64_to_dec(1000), "1000");
}

#[test]
fn renders_u64_max() {
    assert_eq!(u64_to_dec(u64::MAX), "18446744073709551615");
}

#[test]
fn renders_negative() {
    assert_eq!(i64_to_dec(-7), "-7");
    assert_eq!(i64_to_dec(0), "0");
    assert_eq!(i64_to_dec(42), "42");
}

#[test]
fn renders_i64_min() {
    assert_eq!(i64_to_dec(i64::MIN), "-9223372036854775808");
}

#[test]
fn builds_signature() {
    assert_eq!(
        signature_for(1717171717000, 1717171717123, 42),
        "1717171717000-1717171717123-42"
    );
}

#[test]
fn builds_signature_with_negative_taps() {
    assert_eq!(signature_for(5, 10, -100), "5-10--100");
}

#[test]
fn concat_str_frames_arguments_around_clock() {
    let s = concat_str(3, 9);
    assert!(s.starts_with("3-"));
    assert!(s.ends_with("-9"));
    let middle = &s[2..s.len() - 2];
    assert!(!middle.is_empty());
    assert!(middle.chars().all(|c| c.is_ascii_digit()));
}
