use ruvector_kalshi::fixed_point::{
    cents_to_dollars_str, contracts_to_count_fp, count_fp_str_to_contracts, dollars_str_to_cents,
};

#[test]
fn dollars_str_to_cents_parses_whole_cents() {
    assert_eq!(dollars_str_to_cents("0.5200"), Some(52));
    assert_eq!(dollars_str_to_cents("0.0400"), Some(4));
    assert_eq!(dollars_str_to_cents("0.4300"), Some(43));
    assert_eq!(dollars_str_to_cents("1.0000"), Some(100));
    assert_eq!(dollars_str_to_cents("0.0000"), Some(0));
    assert_eq!(dollars_str_to_cents(""), None);
    assert_eq!(dollars_str_to_cents("  0.9900 "), Some(99));
}

#[test]
fn count_fp_str_to_contracts_parses_whole_contracts() {
    assert_eq!(count_fp_str_to_contracts("1.00"), Some(1));
    assert_eq!(count_fp_str_to_contracts("10.00"), Some(10));
    assert_eq!(count_fp_str_to_contracts("0.00"), Some(0));
    assert_eq!(count_fp_str_to_contracts(""), None);
}

#[test]
fn fixed_point_encoders_match_kalshi_examples_and_round_trip() {
    assert_eq!(cents_to_dollars_str(56), "0.56");
    assert_eq!(cents_to_dollars_str(4), "0.04");
    assert_eq!(cents_to_dollars_str(100), "1.00");
    assert_eq!(cents_to_dollars_str(0), "0.00");
    // out-of-band cents clamp to the binary-contract range.
    assert_eq!(cents_to_dollars_str(-5), "0.00");
    assert_eq!(cents_to_dollars_str(250), "1.00");
    // round-trip through the parsers.
    assert_eq!(dollars_str_to_cents(&cents_to_dollars_str(52)), Some(52));
    assert_eq!(contracts_to_count_fp(1), "1.00");
    assert_eq!(contracts_to_count_fp(10), "10.00");
    assert_eq!(count_fp_str_to_contracts(&contracts_to_count_fp(7)), Some(7));
}

#[test]
fn dollar_strings_round_half_up_on_the_third_digit() {
    assert_eq!(dollars_str_to_cents("0.494"), Some(49));
    assert_eq!(dollars_str_to_cents("0.495"), Some(50));
    assert_eq!(dollars_str_to_cents("0.4949999"), Some(49));
    assert_eq!(dollars_str_to_cents("0.995"), Some(100));
    assert_eq!(dollars_str_to_cents("-0.495"), Some(-50));
    assert_eq!(dollars_str_to_cents("12.34"), Some(1234));
}

#[test]
fn dollar_strings_may_lack_a_fraction_or_parts_of_it() {
    assert_eq!(dollars_str_to_cents("7"), Some(700));
    assert_eq!(dollars_str_to_cents("7."), Some(700));
    assert_eq!(dollars_str_to_cents("0.5"), Some(50));
}

#[test]
fn dollar_strings_take_signs_and_white_space() {
    assert_eq!(dollars_str_to_cents("-0.52"), Some(-52));
    assert_eq!(dollars_str_to_cents("+0.52"), Some(52));
    assert_eq!(dollars_str_to_cents("\u{3000}\t0.52\u{a0}\n"), Some(52));
}

#[test]
fn malformed_dollar_strings_are_none() {
    for s in [
        " ", ".5", ".", "-", "abc", "1,5", "- 1", "1 .5", "\u{663}.5", "0x1", "0.5x", "1.x7",
        "0.520x", "0.52000000x", "1.2.3", "1..2", "0.52 0", "0.-5", "--0.52", "+-0.52", "-+0.52",
        "++0.52", "0.5\u{663}", "1e2",
    ] {
        assert_eq!(dollars_str_to_cents(s), None, "{s}");
    }
}

#[test]
fn dollar_strings_that_do_not_fit_are_none() {
    assert_eq!(dollars_str_to_cents("92233720368547758.07"), Some(i64::MAX));
    assert_eq!(dollars_str_to_cents("-92233720368547758.07"), Some(-i64::MAX));
    assert_eq!(dollars_str_to_cents("92233720368547758.08"), None);
    assert_eq!(dollars_str_to_cents("92233720368547758.075"), None);
    assert_eq!(dollars_str_to_cents("9223372036854775808"), None);
    assert_eq!(dollars_str_to_cents("00000000000000000000000000001.00"), Some(100));
}

#[test]
fn counts_keep_their_sign_and_drop_their_fraction() {
    assert_eq!(count_fp_str_to_contracts("-3.00"), Some(-3));
    assert_eq!(count_fp_str_to_contracts("+3.00"), Some(3));
    assert_eq!(count_fp_str_to_contracts(" 7.99 "), Some(7));
    assert_eq!(count_fp_str_to_contracts("100"), Some(100));
    assert_eq!(count_fp_str_to_contracts("-9223372036854775808.00"), Some(i64::MIN));
    for s in ["9223372036854775808", "--3", "-", ".5", "1e3", "x"] {
        assert_eq!(count_fp_str_to_contracts(s), None, "{s}");
    }
}

#[test]
fn written_prices_and_counts_read_back() {
    for cents in -10..=110 {
        let read = dollars_str_to_cents(&cents_to_dollars_str(cents));
        assert_eq!(read, Some(cents.clamp(0, 100)));
    }
    assert_eq!(cents_to_dollars_str(i64::MIN), "0.00");
    assert_eq!(cents_to_dollars_str(i64::MAX), "1.00");
    for count in [i64::MIN, -1, 0, 9, 10, 12345, i64::MAX] {
        let read = count_fp_str_to_contracts(&contracts_to_count_fp(count));
        assert_eq!(read, Some(count.max(0)));
    }
}
