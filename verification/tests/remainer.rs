use gnuv2_demangle::remainer::{p_number_maybe_multi_digit, Remaining};

#[test]
fn test_parse_number_maybe_multi_digit() {
    assert_eq!(
        p_number_maybe_multi_digit("1junk"),
        Some(Remaining::new("junk", 1)),
    );
    assert_eq!(
        p_number_maybe_multi_digit("12_junk"),
        Some(Remaining::new("junk", 12)),
    );
    assert_eq!(
        p_number_maybe_multi_digit("54junk"),
        Some(Remaining::new("4junk", 5)),
    );
    assert_eq!(
        p_number_maybe_multi_digit("2"),
        Some(Remaining::new("", 2)),
    );
    assert_eq!(
        p_number_maybe_multi_digit("32"),
        Some(Remaining::new("2", 3)),
    );
    assert_eq!(
        p_number_maybe_multi_digit("1_junk"),
        Some(Remaining::new("_junk", 1)),
    );
}

#[test]
fn parse_number_maybe_multi_digit_rejects_what_is_no_number() {
    assert_eq!(p_number_maybe_multi_digit("junk"), None);
    assert_eq!(p_number_maybe_multi_digit(""), None);
    assert_eq!(p_number_maybe_multi_digit("_junk"), None);
}
