use curtain_relay::color::{default_color, effective_color, parse_hex_color};

#[test]
fn parses_upper_case_hex_with_hash() {
    assert_eq!(parse_hex_color("#FF00AA"), Some((255, 0, 170)));
}

#[test]
fn parses_lower_case_hex_without_hash() {
    assert_eq!(parse_hex_color("ff00aa"), Some((255, 0, 170)));
}

#[test]
fn parses_mixed_case_hex() {
    assert_eq!(parse_hex_color("#FfD700"), Some((255, 215, 0)));
}

#[test]
fn rejects_non_hex_digits() {
    assert_eq!(parse_hex_color("#xyz"), None);
}

#[test]
fn rejects_wrong_length() {
    assert_eq!(parse_hex_color("12345"), None);
    assert_eq!(parse_hex_color("#ff00a"), None);
    assert_eq!(parse_hex_color("ff00aaa"), None);
}

#[test]
fn rejects_empty() {
    assert_eq!(parse_hex_color(""), None);
    assert_eq!(parse_hex_color("#"), None);
}

#[test]
fn rejects_sign_prefixed_digits() {
    assert_eq!(parse_hex_color("+1ff00a"), None);
    assert_eq!(parse_hex_color("#+f00aa"), None);
}

#[test]
fn strips_only_one_hash() {
    assert_eq!(parse_hex_color("##ff00a"), None);
}

#[test]
fn default_is_gold() {
    assert_eq!(default_color(), (255, 215, 0));
}

#[test]
fn effective_color_parses_valid() {
    assert_eq!(effective_color(Some("#ff00aa")), (255, 0, 170));
}

#[test]
fn effective_color_falls_back_to_gold() {
    assert_eq!(effective_color(Some("#xyz")), (255, 215, 0));
    assert_eq!(effective_color(Some("12345")), (255, 215, 0));
    assert_eq!(effective_color(Some("")), (255, 215, 0));
    assert_eq!(effective_color(None), (255, 215, 0));
}
