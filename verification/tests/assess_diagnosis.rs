use motionlens_core::assess::{
    detected_kinds, kinds_phrase, last_active_pair, recommendations, smoothness_verdict, suggested_kinds_and_targets,
    union_texts, unlocated_motion, RecommendationInputs,
};
use motionlens_core::diagnosis::{
    all_targets_missing_hint, forbidden_kind_hint, moving_descendants, sequence_hints, target_hint, DiagElement,
    HintCode, ProbePairFacts,
};
use motionlens_core::intent::{build_intent_match, DeclaredIntent, DurationVerdict};
use motionlens_core::model::MotionCategory as K;

fn s(v: &[&str]) -> Vec<String> {
    v.iter().map(|x| x.to_string()).collect()
}

#[test]
fn detected_kinds_merge_pairs_then_axes() {
    let per = vec![vec![K::Fade, K::Scale], vec![K::Scale, K::Rotate]];
    assert_eq!(detected_kinds(&per, &s(&["opacity", "translate-y", "scale"])), vec![K::Fade, K::Scale, K::Rotate, K::Translate]);
    assert_eq!(union_texts(&vec![s(&["#a", "#b"]), s(&["#b", "#c", "#a"])]), s(&["#a", "#b", "#c"]));
}

#[test]
fn smoothness_labels() {
    assert_eq!(smoothness_verdict(true, true, true), "no-motion");
    assert_eq!(smoothness_verdict(false, true, true), "good");
    assert_eq!(smoothness_verdict(false, false, true), "acceptable");
    assert_eq!(smoothness_verdict(false, false, false), "poor");
}

#[test]
fn recommendations_cover_intent_failures() {
    let r = RecommendationInputs { mean_below_floor: true, smoothness_low: true, smoothness_high: false, jank_count: 2 };
    let di = DeclaredIntent {
        description: "d".into(),
        expected_kinds: vec![K::Fade],
        expected_targets: s(&["#t"]),
        forbidden_kinds: vec![K::Appearance],
        expected_easing: None,
    };
    // The target appeared (a forbidden kind scoped to it) but never moved.
    let im = build_intent_match(&di, &vec![K::Appearance], &vec![], &s(&["#t"]), &vec![], Some(DurationVerdict::TooLong));
    let recs = recommendations(&r, Some(&im), "Duration mismatch: expected 600ms.");
    assert_eq!(recs.len(), 6);
    assert!(recs[0].starts_with("Per-frame pixel delta is essentially zero"));
    assert!(recs[1].starts_with("Smoothness is low and discrete jank events"));
    assert_eq!(recs[2], "Intent declared expected_kinds [Fade] but they were never observed. Either the animation does not implement them or the sampling missed them.");
    assert_eq!(recs[3], "Forbidden motion kinds were observed: [Appearance]. Fix the code to remove them.");
    assert!(recs[4].starts_with("Intent declared expected_targets [\"#t\"] but they never moved"));
    assert_eq!(recs[5], "Duration mismatch: expected 600ms.");
    let calm = RecommendationInputs { mean_below_floor: false, smoothness_low: false, smoothness_high: true, jank_count: 0 };
    let recs = recommendations(&calm, None, "");
    assert_eq!(recs.len(), 1);
    assert!(recs[0].starts_with("Animation is smooth"));
}

#[test]
fn suggestion_helpers() {
    assert_eq!(last_active_pair(&vec![true, false, true, false]), Some(2));
    assert_eq!(last_active_pair(&vec![false, false]), None);
    let (k, t) = suggested_kinds_and_targets(true, &vec![K::Fade], &s(&["#a"]));
    assert!(k.is_empty() && t.is_empty());
    let (k, t) = suggested_kinds_and_targets(false, &vec![K::Fade], &s(&["#a"]));
    assert_eq!((k, t), (vec![K::Fade], s(&["#a"])));
    assert_eq!(kinds_phrase(&vec![K::Fade, K::ColorChange]), "fade + color-change");
    assert_eq!(kinds_phrase(&vec![]), "pixel-level motion");
    assert!(unlocated_motion(false, &vec![]).is_some());
    assert!(unlocated_motion(true, &vec![]).is_none());
    assert!(unlocated_motion(false, &s(&["#a"])).is_none());
}

fn el(sel: &str) -> DiagElement {
    DiagElement {
        selector: sel.to_string(),
        matched_selectors: vec![],
        ancestor_match_selectors: vec![],
        display: "block".to_string(),
        transform: None,
        color: None,
        background_color: None,
        zero_area: false,
        transparent: false,
        bbox_text: "[0.0, 0.0, 10.0, 10.0]".to_string(),
    }
}

fn facts(unchanged: bool, opacity: bool) -> ProbePairFacts {
    ProbePairFacts { bbox_unchanged: unchanged, opacity_changed: opacity }
}

#[test]
fn all_targets_missing() {
    let layout = vec![el("#x")];
    let layouts = vec![layout.clone(), layout.clone()];
    let h = all_targets_missing_hint(&s(&["#a", "#b"]), &layouts, false).unwrap();
    assert_eq!(h.code, HintCode::ExpectedTargetsAllMissing);
    assert!(h.message.starts_with("ALL 2 declared `expected_targets` ([\"#a\", \"#b\"]) are absent"));
    assert_eq!(h.code.label(), "expected-targets-all-missing");
    assert!(all_targets_missing_hint(&s(&["#a", "#x"]), &layouts, false).is_none());
    assert!(all_targets_missing_hint(&s(&["#a"]), &layouts, true).is_none());
    assert!(all_targets_missing_hint(&vec![], &layouts, false).is_none());
    assert!(all_targets_missing_hint(&s(&["#a"]), &vec![], false).is_some());
}

#[test]
fn target_seen_only_in_a_middle_layout_is_not_all_missing() {
    let ends = vec![el("#x")];
    let middle = vec![el("#x"), el("#a")];
    let layouts = vec![ends.clone(), middle, ends];
    assert!(all_targets_missing_hint(&s(&["#a", "#b"]), &layouts, false).is_none());
}

#[test]
fn target_absent_from_last_layout_is_not_found() {
    let first = vec![el("#t")];
    let last = vec![el("#other")];
    let h = target_hint(&"#t".to_string(), &vec![el("#t")], Some(&first), Some(&last), &vec![], &facts(false, false), &vec![]).unwrap();
    assert_eq!(h.code, HintCode::SelectorNotFound);
    assert_eq!(h.code.label(), "selector-not-found");
    assert!(h.message.contains("is absent from the last captured layout snapshot"));
}

#[test]
fn target_dive_order() {
    let mut child = el("#child");
    child.ancestor_match_selectors = s(&["#parent"]);
    let all = vec![el("#parent"), child.clone()];
    let first = vec![el("#parent"), child];
    let h = target_hint(&"#parent".to_string(), &all, Some(&first), Some(&first), &s(&["#child"]), &facts(true, false), &vec![]).unwrap();
    assert_eq!(h.code, HintCode::IntentTargetParentOfMovingElement);
    assert!(h.message.contains("however 1 of its descendants moved (e.g. [\"#child\"])"));
    assert_eq!(h.target_selector.as_deref(), Some("#parent"));
    assert_eq!(
        moving_descendants(&all, &"#parent".to_string(), &s(&["#child"])),
        s(&["#child"])
    );

    let h = target_hint(&"#nope".to_string(), &all, Some(&first), Some(&first), &vec![], &facts(true, false), &vec![]).unwrap();
    assert_eq!(h.code, HintCode::SelectorNotFound);
    assert_eq!(h.suggested_probe.as_deref(), Some("frame.dom_query { js: 'JSON.stringify(document.querySelector(\"#nope\")?.outerHTML?.slice(0, 200) ?? null)' }"));

    let mut hidden = el("#h");
    hidden.display = "none".to_string();
    let last = vec![hidden];
    let h = target_hint(&"#h".to_string(), &vec![], None, Some(&last), &vec![], &facts(true, false), &vec![]).unwrap();
    assert_eq!(h.code, HintCode::HiddenByDisplayNone);
    assert_eq!(h.message, "Selector `#h` resolved but its computed display is `none` and bbox is [0.0, 0.0, 10.0, 10.0]. Nothing can animate on an element that isn't laid out — check the parent's display / a CSS rule with higher specificity.");

    let mut clear = el("#o");
    clear.transparent = true;
    let l2 = vec![clear];
    let h = target_hint(&"#o".to_string(), &vec![], Some(&l2), Some(&l2), &vec![], &facts(true, false), &vec![]).unwrap();
    assert_eq!(h.code, HintCode::HiddenByZeroOpacity);

    let a = vec![el("#s")];
    let mut recolored = el("#s");
    recolored.color = Some("red".into());
    let b = vec![recolored];
    let h = target_hint(&"#s".to_string(), &vec![], Some(&a), Some(&b), &vec![], &facts(true, false), &vec![K::Translate]).unwrap();
    assert_eq!(h.code, HintCode::BboxStaticStyleMutating);
    assert!(target_hint(&"#s".to_string(), &vec![], Some(&a), Some(&b), &vec![], &facts(true, false), &vec![K::Fade]).is_none());
    assert!(target_hint(&"#s".to_string(), &vec![], Some(&a), Some(&a), &vec![], &facts(true, false), &vec![K::Translate]).is_none());
}

#[test]
fn sequence_and_forbidden_hints() {
    let h = sequence_hints(true, true, 0, &vec![], false, 0, &vec![]);
    let codes: Vec<HintCode> = h.iter().map(|x| x.code).collect();
    assert_eq!(codes, vec![HintCode::NoDomMutationAfterTrigger]);
    let h = sequence_hints(true, false, 0, &vec![], false, 0, &vec![]);
    assert_eq!(h[0].code, HintCode::NoMotionSourceRegistered);
    let h = sequence_hints(false, false, 2, &s(&["#fade"]), true, 4, &s(&["#a", "#b", "#c", "#d"]));
    let codes: Vec<HintCode> = h.iter().map(|x| x.code).collect();
    assert_eq!(codes, vec![HintCode::MotionSourceInactive, HintCode::RafSourceStalled]);
    assert!(h[0].message.starts_with("1 motion source(s) are registered"));
    assert!(h[1].message.starts_with("rAF is registered (4 active callback(s)) and the page IS animating, but `intent`'s expected target(s) [\"#a\", \"#b\", \"#c\"] never moved."));
    assert_eq!(h[1].target_selector.as_deref(), Some("#a"));

    let di = DeclaredIntent {
        description: "d".into(),
        expected_kinds: vec![],
        expected_targets: vec![],
        forbidden_kinds: vec![K::Rotate],
        expected_easing: None,
    };
    let im = build_intent_match(&di, &vec![K::Rotate], &vec![], &vec![], &vec![], None);
    let h = forbidden_kind_hint(Some(&im)).unwrap();
    assert_eq!(h.message, "Forbidden motion kind(s) observed: [Rotate]. Intent declared these as off-limits — fix the source to remove them.");
    assert!(forbidden_kind_hint(None).is_none());
}
