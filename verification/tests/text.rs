use brain_frick::bf_parse::text::push_decimal;
use brain_frick::bf_parse::text::push_padded3;
use brain_frick::bf_parse::text::push_padded5;

#[test]
fn decimal_has_no_leading_zeros() {
    for (n, expected) in [
        (0u16, "0"),
        (7, "7"),
        (9, "9"),
        (10, "10"),
        (99, "99"),
        (100, "100"),
        (12_345, "12345"),
        (30_000, "30000"),
        (65_535, "65535"),
    ] {
        let mut text = String::new();
        push_decimal(&mut text, n);
        assert_eq!(text, expected);
    }
}

#[test]
fn decimal_agrees_with_the_standard_formatting() {
    for n in 0u16..=65_535 {
        let mut text = String::new();
        push_decimal(&mut text, n);
        assert_eq!(text, format!("{}", n));
    }
}

#[test]
fn decimal_is_appended_to_what_is_there() {
    let mut text = "ip: ".to_string();
    push_decimal(&mut text, 42);
    push_decimal(&mut text, 0);
    assert_eq!(text, "ip: 420");
}

#[test]
fn bytes_are_padded_to_three_digits() {
    for (n, expected) in [(0u8, "000"), (5, "005"), (14, "014"), (100, "100"), (255, "255")] {
        let mut text = String::new();
        push_padded3(&mut text, n);
        assert_eq!(text, expected);
    }
    for n in 0u8..=255 {
        let mut text = String::new();
        push_padded3(&mut text, n);
        assert_eq!(text, format!("{:0>3}", n));
    }
}

#[test]
fn addresses_are_padded_to_five_digits() {
    for (n, expected) in [
        (0u16, "00000"),
        (1, "00001"),
        (25, "00025"),
        (999, "00999"),
        (29_999, "29999"),
        (65_535, "65535"),
    ] {
        let mut text = String::new();
        push_padded5(&mut text, n);
        assert_eq!(text, expected);
    }
    for n in 0u16..=65_535 {
        let mut text = String::new();
        push_padded5(&mut text, n);
        assert_eq!(text, format!("{:0>5}", n));
    }
}
