use motionlens_core::intent::{
    build_intent_match, duration_verdict, fold_easing_match, kind_for_easing_axis, most_frequent, DeclaredIntent,
    DurationVerdict,
};
use motionlens_core::model::{EasingHint, MotionCategory as K};

fn s(v: &[&str]) -> Vec<String> {
    v.iter().map(|x| x.to_string()).collect()
}

fn intent(kinds: Vec<K>, targets: &[&str], forbidden: Vec<K>) -> DeclaredIntent {
    DeclaredIntent {
        description: "hero".to_string(),
        expected_kinds: kinds,
        expected_targets: s(targets),
        forbidden_kinds: forbidden,
        expected_easing: None,
    }
}

#[test]
fn seen_and_missing_partition_expected_kinds() {
    let i = intent(vec![K::Fade, K::Translate, K::Scale], &[], vec![]);
    let m = build_intent_match(&i, &vec![K::Translate, K::Fade], &vec![], &vec![], &vec![], None);
    assert_eq!(m.expected_kinds_seen, vec![K::Fade, K::Translate]);
    assert_eq!(m.expected_kinds_missing, vec![K::Scale]);
    assert!(!m.passes);
    assert_eq!(m.description, "hero");
}

#[test]
fn targets_graded_against_moved_selectors() {
    let i = intent(vec![], &["#a", "#b"], vec![]);
    let m = build_intent_match(&i, &vec![], &s(&["#b", "#c"]), &vec![], &vec![], None);
    assert_eq!(m.expected_targets_seen, s(&["#b"]));
    assert_eq!(m.expected_targets_missing, s(&["#a"]));
    assert!(!m.passes);
    let m2 = build_intent_match(&i, &vec![], &s(&["#a", "#b"]), &vec![], &vec![], None);
    assert!(m2.passes);
}

#[test]
fn forbidden_kinds_page_wide_without_targets() {
    let i = intent(vec![K::Fade], &[], vec![K::Translate, K::Appearance]);
    let m = build_intent_match(&i, &vec![K::Fade, K::Translate], &vec![], &vec![], &vec![], None);
    assert_eq!(m.forbidden_kinds_seen, vec![K::Translate]);
    assert!(!m.passes);
}

#[test]
fn forbidden_kinds_scoped_to_declared_targets() {
    let i = intent(vec![], &["#hero"], vec![K::Appearance, K::Translate]);
    // An unrelated element appeared and moved; the target moved too.
    let detected = vec![K::Appearance, K::Translate];
    let m = build_intent_match(&i, &detected, &s(&["#hero", "#other"]), &s(&["#other"]), &vec![], None);
    assert_eq!(m.forbidden_kinds_seen, vec![K::Translate]);
    // Nothing of the target moved or appeared: nothing forbidden counts.
    let m2 = build_intent_match(&i, &detected, &s(&["#other"]), &s(&["#other"]), &vec![], None);
    assert!(m2.forbidden_kinds_seen.is_empty());
    // The target itself appeared.
    let m3 = build_intent_match(&i, &detected, &vec![], &s(&["#hero"]), &vec![], None);
    assert_eq!(m3.forbidden_kinds_seen, vec![K::Appearance]);
}

#[test]
fn duration_verdicts() {
    // Span measured on the targets: only an overrun fails.
    assert_eq!(duration_verdict(true, true, true), DurationVerdict::Match);
    assert_eq!(duration_verdict(true, false, false), DurationVerdict::TooLong);
    // Sample-window fallback: both bounds apply.
    assert_eq!(duration_verdict(false, true, false), DurationVerdict::Match);
    assert_eq!(duration_verdict(false, true, true), DurationVerdict::TooShort);
    assert_eq!(duration_verdict(false, false, false), DurationVerdict::TooLong);
    assert_eq!(DurationVerdict::TooShort.label(), "too-short");
    let i = intent(vec![], &[], vec![]);
    let m = build_intent_match(&i, &vec![], &vec![], &vec![], &vec![], Some(DurationVerdict::TooLong));
    assert!(!m.passes);
    let m = build_intent_match(&i, &vec![], &vec![], &vec![], &vec![], Some(DurationVerdict::Match));
    assert!(m.passes);
}

#[test]
fn easing_majority_vote() {
    let i = intent(vec![], &[], vec![]);
    let m = build_intent_match(&i, &vec![], &vec![], &vec![], &vec![], None);
    let folded = fold_easing_match(m, EasingHint::EaseOut, &s(&["ease-out", "linear", "ease-out"]));
    let e = folded.easing_match.clone().unwrap();
    assert_eq!((e.expected.as_str(), e.observed.as_str(), e.passes), ("ease-out", "ease-out", true));
    assert!(folded.passes);
    let m = build_intent_match(&i, &vec![], &vec![], &vec![], &vec![], None);
    let folded = fold_easing_match(m, EasingHint::Linear, &vec![]);
    let e = folded.easing_match.clone().unwrap();
    assert_eq!((e.observed.as_str(), e.passes), ("unknown", false));
    assert!(!folded.passes);
    assert_eq!(most_frequent(&s(&["a", "b", "b"])), Some("b".to_string()));
    assert_eq!(most_frequent(&vec![]), None);
}

#[test]
fn easing_axes_evidence_kinds() {
    assert_eq!(kind_for_easing_axis("transform-translate-y"), Some(K::Translate));
    assert_eq!(kind_for_easing_axis("translate-x"), Some(K::Translate));
    assert_eq!(kind_for_easing_axis("opacity"), Some(K::Fade));
    assert_eq!(kind_for_easing_axis("scale"), None);
}
