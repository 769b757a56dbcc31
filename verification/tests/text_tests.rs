use avify::text::{eq_ignore_ascii_case, lower_char, str_equals, to_ascii_lowercase, trim_leading_plus};

#[test]
fn lowercase_ascii_only() {
    assert_eq!(to_ascii_lowercase("PhOtO.ÄRW"), "photo.Ärw");
    assert_eq!(lower_char('Z'), 'z');
    assert_eq!(lower_char('['), '[');
}

#[test]
fn equality_helpers() {
    assert!(str_equals("Tint", "Tint"));
    assert!(!str_equals("Tint", "tint"));
    assert!(eq_ignore_ascii_case("TRUE", "true"));
    assert!(!eq_ignore_ascii_case("true ", "true"));
}

#[test]
fn leading_plus_signs_removed() {
    assert_eq!(trim_leading_plus("+0.50"), "0.50");
    assert_eq!(trim_leading_plus("++1"), "1");
    assert_eq!(trim_leading_plus("-1+"), "-1+");
    assert_eq!(trim_leading_plus("+"), "");
}
