use arena_fetch::text::{extension_of, u32_to_string};

#[test]
fn decimal_zero() {
    assert_eq!(u32_to_string(0), "0");
}

#[test]
fn decimal_single_digit() {
    assert_eq!(u32_to_string(7), "7");
}

#[test]
fn decimal_two_digits() {
    assert_eq!(u32_to_string(42), "42");
}

#[test]
fn decimal_round_number() {
    assert_eq!(u32_to_string(100), "100");
}

#[test]
fn decimal_largest() {
    assert_eq!(u32_to_string(u32::MAX), "4294967295");
}

#[test]
fn extension_simple() {
    assert_eq!(extension_of("a.png"), "png");
}

#[test]
fn extension_takes_last_dot() {
    assert_eq!(extension_of("archive.tar.gz"), "gz");
}

#[test]
fn extension_of_url() {
    assert_eq!(extension_of("http://x/y.png"), "png");
}

#[test]
fn extension_without_dot_is_whole() {
    assert_eq!(extension_of("noext"), "noext");
}

#[test]
fn extension_after_trailing_dot_is_empty() {
    assert_eq!(extension_of("trailing."), "");
}

#[test]
fn extension_of_empty() {
    assert_eq!(extension_of(""), "");
}
