use eq::input::parse_priority;

#[test]
fn test_symbol_parsing() {
    assert_eq!(parse_priority("!!!$$$"), Some((3, 3)));
    assert_eq!(parse_priority("!$"), Some((1, 1)));
    assert_eq!(parse_priority("!!"), Some((2, 1))); // Default importance 1
    assert_eq!(parse_priority("$$"), Some((1, 2))); // Default urgency 1
}

#[test]
fn test_shorthand_parsing() {
    assert_eq!(parse_priority("u3i3"), Some((3, 3)));
    assert_eq!(parse_priority("i2u1"), Some((1, 2)));
    assert_eq!(parse_priority("u2i2"), Some((2, 2)));
}

#[test]
fn test_invalid() {
    assert_eq!(parse_priority("abc"), None);
    assert_eq!(parse_priority("task!"), None); // Contains letters
}

#[test]
fn test_edge_cases() {
    assert_eq!(parse_priority("ui"), None);
    assert_eq!(parse_priority("iu"), None);
    assert_eq!(parse_priority("u"), None);
    assert_eq!(parse_priority("i"), None);
    assert_eq!(parse_priority(""), None);
}

#[test]
fn shorthand_clamps_digits_into_range() {
    assert_eq!(parse_priority("u9i0"), Some((3, 1)));
    assert_eq!(parse_priority("u0i9"), Some((1, 3)));
}

#[test]
fn shorthand_uses_first_letter_occurrence() {
    // the first `u` is not followed by a digit, so the token is rejected
    assert_eq!(parse_priority("uu3i2"), None);
    // mixed case counts as the same letters
    assert_eq!(parse_priority("U2I3"), Some((2, 3)));
}

#[test]
fn symbol_counts_clamp_at_three() {
    assert_eq!(parse_priority("!!!!!$"), Some((3, 1)));
    assert_eq!(parse_priority("!$$$$$"), Some((1, 3)));
}

#[test]
fn shorthand_wins_over_symbols() {
    // a token holding both letters and digits never falls back to glyphs
    assert_eq!(parse_priority("u1i1"), Some((1, 1)));
}
