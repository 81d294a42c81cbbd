use motionlens_core::error::Error;
use motionlens_core::ids::{EpisodeId, FrameId, SessionId};
use motionlens_core::model::{
    debug_kind_list, default_true, default_viewport_h, default_viewport_w, default_wait_outcome, easing_hint_label,
    motion_category_label, EasingHint, ExternalSourceMode, ExternalStatePolicy, ImageFormat, InputMode,
    LayoutProbeOptions, MotionCategory, TimerCounts, VideoFormat, WaitOutcome, WaitPolicy,
};
use motionlens_core::js::iframe_action_js;
use motionlens_core::text::{debug_string_list, join_strings, text_less, u64_decimal};

#[test]
fn fresh_ids_are_prefixed_uuids() {
    let e = EpisodeId::new();
    assert!(e.as_str().starts_with("ep-"));
    assert_eq!(e.as_str().len(), 39);
    assert_eq!(e.as_str().matches('-').count(), 5);
    let s = SessionId::new();
    assert!(s.as_str().starts_with("ses-"));
    assert_ne!(EpisodeId::new().as_str(), e.as_str());
    assert!(e.same(&e.duplicate()));
    assert!(!FrameId::from_string("fr-1".into()).same(&FrameId::from_string("fr-2".into())));
}

#[test]
fn defaults_match_documented_values() {
    assert_eq!(default_viewport_w(), 1280);
    assert_eq!(default_viewport_h(), 800);
    assert!(default_true());
    assert_eq!(default_wait_outcome(), WaitOutcome::NotRequested);
    assert_eq!(WaitPolicy::default(), WaitPolicy::NoWait);
    assert_eq!(InputMode::default(), InputMode::Js);
    assert_eq!(ImageFormat::default(), ImageFormat::Png);
    assert_eq!(VideoFormat::default(), VideoFormat::Gif);
    let p = ExternalStatePolicy::default();
    assert_eq!(p.storage, ExternalSourceMode::Live);
    assert_eq!(p.media_devices, ExternalSourceMode::Disabled);
    let o = LayoutProbeOptions::default();
    assert!(o.selectors.is_none() && o.max_elements.is_none());
    let t = TimerCounts::default();
    assert_eq!(t.set_timeout_count, 0);
}

#[test]
fn labels_of_categories_and_easings() {
    assert_eq!(motion_category_label(&MotionCategory::ColorChange), "color-change");
    assert_eq!(motion_category_label(&MotionCategory::TextChange), "text-change");
    assert_eq!(easing_hint_label(EasingHint::Ease), "ease-in-out");
    assert_eq!(easing_hint_label(EasingHint::EaseOutCubic), "ease-out-cubic");
    assert_eq!(debug_kind_list(&vec![MotionCategory::Fade, MotionCategory::Translate]), format!("{:?}", vec![MotionCategory::Fade, MotionCategory::Translate]));
    assert_eq!(debug_kind_list(&vec![]), "[]");
}

#[test]
fn json_and_debug_rendering_match_std() {
    let s = "a\"b\\c\nd\u{1}";
    let v = vec!["x".to_string(), "y\"".to_string()];
    let js = iframe_action_js(&v, s, "");
    let quoted_path = serde_json::to_string(&v).unwrap();
    let quoted_selector = serde_json::to_string(s).unwrap();
    assert!(js.contains(&format!("const path = {quoted_path};")));
    assert!(js.contains(&format!("doc.querySelector({quoted_selector});")));
    assert!(!js.contains(s));
    assert_eq!(debug_string_list(&v), format!("{:?}", v));
    assert_eq!(join_strings(&v, " + "), "x + y\"");
    assert_eq!(u64_decimal(0), "0");
    assert_eq!(u64_decimal(18446744073709551615), "18446744073709551615");
}

#[test]
fn text_order_is_string_order() {
    let words = ["", "a", "ab", "b", "Z", "é", "aa"];
    for x in words.iter() {
        for y in words.iter() {
            assert_eq!(text_less(x, y), x < y, "{:?} < {:?}", x, y);
        }
    }
}

#[test]
fn error_messages() {
    assert_eq!(Error::EpisodeNotFound("ep-1".into()).message(), "episode not found: ep-1");
    assert_eq!(Error::NoActiveEpisode("ses-1".into()).message(), "no active episode on session ses-1");
    assert_eq!(Error::invalid("bad".into()).message(), "invalid argument: bad");
    assert_eq!(Error::trigger_failed("x".into()).message(), "trigger failed: x");
    assert_eq!(Error::browser("y".into()).message(), "chromiumoxide error: y");
}

#[test]
fn fresh_id_suffix_is_lower_case_hyphenated_uuid() {
    let s = SessionId::new();
    let suffix: Vec<char> = s.as_str()["ses-".len()..].chars().collect();
    assert_eq!(suffix.len(), 36);
    for (j, c) in suffix.iter().enumerate() {
        if j == 8 || j == 13 || j == 18 || j == 23 {
            assert_eq!(*c, '-');
        } else {
            assert!(c.is_ascii_hexdigit() && !c.is_ascii_uppercase());
        }
    }
}
