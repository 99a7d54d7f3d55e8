use moneypool::amount::parse_amount_cents;

#[test]
fn whole_amount_parses_to_cents() {
    assert_eq!(parse_amount_cents(b"5"), Some(500));
    assert_eq!(parse_amount_cents(b"100"), Some(10000));
    assert_eq!(parse_amount_cents(b"0"), Some(0));
}

#[test]
fn fractional_amount_parses_to_cents() {
    assert_eq!(parse_amount_cents(b"100.0"), Some(10000));
    assert_eq!(parse_amount_cents(b"5.25"), Some(525));
    assert_eq!(parse_amount_cents(b"5.2"), Some(520));
    assert_eq!(parse_amount_cents(b"0.07"), Some(7));
}

#[test]
fn digits_beyond_cents_are_discarded() {
    assert_eq!(parse_amount_cents(b"0.125"), Some(12));
    assert_eq!(parse_amount_cents(b"3.999"), Some(399));
}

#[test]
fn negative_amounts_pass_through() {
    assert_eq!(parse_amount_cents(b"-3"), Some(-300));
    assert_eq!(parse_amount_cents(b"-0.5"), Some(-50));
    assert_eq!(parse_amount_cents(b"-100.25"), Some(-10025));
}

#[test]
fn malformed_amounts_are_rejected() {
    assert_eq!(parse_amount_cents(b""), None);
    assert_eq!(parse_amount_cents(b"-"), None);
    assert_eq!(parse_amount_cents(b"."), None);
    assert_eq!(parse_amount_cents(b".5"), None);
    assert_eq!(parse_amount_cents(b"1."), None);
    assert_eq!(parse_amount_cents(b"12a"), None);
    assert_eq!(parse_amount_cents(b"1e30"), None);
    assert_eq!(parse_amount_cents(b"1.2.3"), None);
    assert_eq!(parse_amount_cents(b"--1"), None);
}

#[test]
fn sub_cent_scientific_forms_are_zero_cents() {
    assert_eq!(parse_amount_cents(b"1e-6"), Some(0));
    assert_eq!(parse_amount_cents(b"-1e-6"), Some(0));
    assert_eq!(parse_amount_cents(b"1.5e-7"), Some(0));
    assert_eq!(parse_amount_cents(b"9.99e-3"), Some(0));
}

#[test]
fn non_sub_cent_scientific_forms_are_rejected() {
    assert_eq!(parse_amount_cents(b"1e2"), None);
    assert_eq!(parse_amount_cents(b"1.5e-2"), None);
    assert_eq!(parse_amount_cents(b"2e16"), None);
    assert_eq!(parse_amount_cents(b"12e-6"), None);
    assert_eq!(parse_amount_cents(b"1e-"), None);
    assert_eq!(parse_amount_cents(b"1e"), None);
}

#[test]
fn oversized_integer_part_is_rejected() {
    // Sixteen integer digits are the most an amount may have.
    assert_eq!(parse_amount_cents(b"9999999999999999"), Some(999999999999999900));
    assert_eq!(parse_amount_cents(b"10000000000000000"), None);
}
