use motionlens_core::intent::{build_intent_match, fold_scroll_range, DeclaredIntent};
use motionlens_core::model::{GateReliability, MotionCategory};
use motionlens_core::scroll::{scroll_range_gate, scroll_range_verdict, ScrollRangeVerdict};

#[test]
fn disjoint_ranges_are_outside() {
    let v = scroll_range_verdict(true, true, true);
    assert_eq!(v, ScrollRangeVerdict::OutsideExpected);
    assert_eq!(v.label(), "outside-expected");
}

#[test]
fn inner_range_is_narrower_before_overhang() {
    assert_eq!(scroll_range_verdict(false, true, true), ScrollRangeVerdict::NarrowerThanExpected);
    assert_eq!(scroll_range_verdict(false, false, true), ScrollRangeVerdict::WiderThanExpected);
    assert_eq!(scroll_range_verdict(false, false, false).label(), "match");
    assert_eq!(ScrollRangeVerdict::WiderThanExpected.label(), "wider-than-expected");
    assert_eq!(ScrollRangeVerdict::NarrowerThanExpected.label(), "narrower-than-expected");
}

#[test]
fn mismatch_raises_advisory_gate() {
    assert!(scroll_range_gate(ScrollRangeVerdict::Match, "d".to_string()).is_none());
    let g = scroll_range_gate(ScrollRangeVerdict::WiderThanExpected, "detail".to_string()).unwrap();
    assert_eq!(g.gate, "scroll-range-match");
    assert_eq!(g.reliability, GateReliability::Advisory);
    assert_eq!(g.detail, "detail");
}

#[test]
fn scroll_range_mismatch_fails_the_grading() {
    let intent = DeclaredIntent {
        description: "scrub".to_string(),
        expected_kinds: vec![MotionCategory::Translate],
        expected_targets: vec!["#hero".to_string()],
        forbidden_kinds: vec![],
        expected_easing: None,
    };
    let graded = || {
        build_intent_match(&intent, &vec![MotionCategory::Translate], &vec!["#hero".to_string()], &vec![], &vec![], None)
    };
    assert!(graded().passes);
    let ok = fold_scroll_range(graded(), ScrollRangeVerdict::Match);
    assert!(ok.passes);
    assert_eq!(ok.scroll_range, Some(ScrollRangeVerdict::Match));
    let narrow = fold_scroll_range(graded(), ScrollRangeVerdict::NarrowerThanExpected);
    assert!(!narrow.passes);
    assert_eq!(narrow.scroll_range, Some(ScrollRangeVerdict::NarrowerThanExpected));
    assert!(narrow.expected_kinds_missing.is_empty());
}
