use motionlens_core::transform::{translation_tokens, TranslateArgs};

#[test]
fn none_and_empty_have_no_translation() {
    assert_eq!(translation_tokens("none"), None);
    assert_eq!(translation_tokens("   "), None);
    assert_eq!(translation_tokens(" none "), None);
    assert_eq!(translation_tokens("skew(10deg)"), None);
}

#[test]
fn matrix_translation_is_the_last_pair() {
    assert_eq!(
        translation_tokens("matrix(1, 0, 0, 1, 12.5, -4)"),
        Some(TranslateArgs::Both("12.5".to_string(), "-4".to_string()))
    );
}

#[test]
fn matrix_with_wrong_arity_falls_through() {
    assert_eq!(translation_tokens("matrix(1, 0, 0, 1, 12.5)"), None);
}

#[test]
fn matrix3d_translation_is_the_thirteenth_and_fourteenth() {
    let m = "matrix3d(1, 0, 0, 0, 0, 1, 0, 0, 0, 0, 1, 0, 30, 40, 0, 1)";
    assert_eq!(translation_tokens(m), Some(TranslateArgs::Both("30".to_string(), "40".to_string())));
}

#[test]
fn translate_units_and_optional_y() {
    assert_eq!(
        translation_tokens("  translate(10px, 20px) "),
        Some(TranslateArgs::XThenOptionalY("10".to_string(), Some("20".to_string())))
    );
    assert_eq!(translation_tokens("translate(7pxpx)"), Some(TranslateArgs::XThenOptionalY("7".to_string(), None)));
}

#[test]
fn single_axis_translations() {
    assert_eq!(translation_tokens("translateX(5px)"), Some(TranslateArgs::OnlyX("5".to_string())));
    assert_eq!(translation_tokens("translateY( -3px )"), Some(TranslateArgs::OnlyY("-3".to_string())));
}

#[test]
fn translate3d_takes_the_first_two() {
    assert_eq!(
        translation_tokens("translate3d(1px, 2px, 3px)"),
        Some(TranslateArgs::Both("1".to_string(), "2".to_string()))
    );
    assert_eq!(translation_tokens("translate3d(1px)"), None);
}

#[test]
fn scale_or_rotate_alone_is_a_zero_translation() {
    assert_eq!(translation_tokens("scale(2)"), Some(TranslateArgs::Zero));
    assert_eq!(translation_tokens(" rotate(45deg) "), Some(TranslateArgs::Zero));
    assert_eq!(translation_tokens("scale3d(1, 2, 1)"), Some(TranslateArgs::Zero));
    assert_eq!(translation_tokens("scale(2) translateX(4px)"), None);
}
