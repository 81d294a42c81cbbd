use motionlens_core::classify::{
    appeared_disappeared_between, classify_transition, layout_diff, moved_selectors_between, LayoutKeys, PairMotion,
    ProbedElement,
};
use motionlens_core::model::MotionCategory as K;

fn el(sel: &str) -> ProbedElement {
    ProbedElement {
        selector: sel.to_string(),
        matched_selectors: vec![],
        transform: None,
        background_color: None,
        color: None,
        display: "block".to_string(),
        text_content_preview: None,
    }
}

fn still() -> PairMotion {
    PairMotion {
        translated: false,
        resized: false,
        faded: false,
        rotated: false,
        rescaled: false,
        shifted: false,
        transforms_unparsed: false,
    }
}

fn keys(es: Vec<ProbedElement>, hidden: &[&str]) -> LayoutKeys {
    LayoutKeys { elements: es, hidden_selectors: hidden.iter().map(|s| s.to_string()).collect() }
}

fn sorted(mut v: Vec<K>) -> Vec<String> {
    let mut out: Vec<String> = v.drain(..).map(|k| format!("{:?}", k)).collect();
    out.sort();
    out
}

#[test]
fn unchanged_snapshot_shows_no_motion() {
    let a = keys(vec![el("#a"), el("#b")], &[]);
    let b = keys(vec![el("#a"), el("#b")], &[]);
    assert!(classify_transition(Some(&a), Some(&b), &vec![still(), still()]).is_empty());
    assert!(moved_selectors_between(Some(&a), Some(&b), &vec![still(), still()]).is_empty());
}

#[test]
fn missing_snapshot_gives_nothing() {
    let a = keys(vec![el("#a")], &[]);
    assert!(classify_transition(None, Some(&a), &vec![still()]).is_empty());
    assert!(classify_transition(Some(&a), None, &vec![]).is_empty());
}

#[test]
fn geometric_and_style_changes_classified() {
    let a = keys(vec![el("#a"), el("#b")], &[]);
    let mut b1 = el("#b");
    b1.color = Some("red".to_string());
    let b = keys(vec![el("#a"), b1], &[]);
    let mut m = still();
    m.translated = true;
    m.resized = true;
    let kinds = classify_transition(Some(&a), Some(&b), &vec![m, still()]);
    assert_eq!(sorted(kinds), vec!["ColorChange", "Layout", "Scale", "Translate"]);
}

#[test]
fn transform_changes_use_decomposition_or_fallback() {
    let mut a0 = el("#a");
    a0.transform = Some("matrix(1, 0, 0, 1, 0, 0)".to_string());
    let mut b0 = el("#a");
    b0.transform = Some("matrix(0, 1, -1, 0, 0, 0)".to_string());
    let mut m = still();
    m.rotated = true;
    let kinds = classify_transition(Some(&keys(vec![a0], &[])), Some(&keys(vec![b0], &[])), &vec![m]);
    assert_eq!(kinds, vec![K::Rotate]);
    // Unparsable transforms that changed to something visible read as translate.
    let mut a1 = el("#a");
    a1.transform = Some("weird(1)".to_string());
    let mut b1 = el("#a");
    b1.transform = Some("weird(2)".to_string());
    let mut m1 = still();
    m1.transforms_unparsed = true;
    let kinds = classify_transition(Some(&keys(vec![a1], &[])), Some(&keys(vec![b1], &[])), &vec![m1]);
    assert_eq!(kinds, vec![K::Translate]);
}

#[test]
fn hidden_elements_fade_instead_of_appearing() {
    let a = keys(vec![el("#gone"), el("#fading")], &["#hero"]);
    let b = keys(vec![el("#hero"), el("#new")], &["#fading"]);
    let kinds = classify_transition(Some(&a), Some(&b), &vec![still(), still()]);
    assert_eq!(sorted(kinds), vec!["Appearance", "Disappearance", "Fade"]);
    let (ap, dis) = appeared_disappeared_between(Some(&a), Some(&b));
    assert_eq!(ap, vec!["#new".to_string()]);
    assert_eq!(dis, vec!["#gone".to_string()]);
}

#[test]
fn text_change_needs_some_text() {
    let mut a0 = el("#n");
    a0.text_content_preview = Some("0".to_string());
    let mut b0 = el("#n");
    b0.text_content_preview = Some("247".to_string());
    let kinds = classify_transition(Some(&keys(vec![a0], &[])), Some(&keys(vec![b0], &[])), &vec![still()]);
    assert_eq!(kinds, vec![K::TextChange]);
}

#[test]
fn moved_selectors_in_order_with_matches() {
    let mut a_hero = el("#hero");
    a_hero.matched_selectors = vec![".hero".to_string()];
    let a = keys(vec![a_hero.clone(), el("#static"), el("#old")], &[]);
    let mut b_new = el("#new");
    b_new.matched_selectors = vec![".card".to_string()];
    let b = keys(vec![a_hero, el("#static"), b_new], &[]);
    let mut m = still();
    m.faded = true;
    let moved = moved_selectors_between(Some(&a), Some(&b), &vec![m, still(), still()]);
    let expect: Vec<String> = ["#hero", ".hero", "#new", ".card", "#old"].iter().map(|s| s.to_string()).collect();
    assert_eq!(moved, expect);
}

#[test]
fn layout_diff_reports_style_changes() {
    let mut a0 = el("#a");
    a0.transform = Some("matrix(1, 0, 0, 1, 0, 0)".to_string());
    a0.background_color = Some("red".to_string());
    let mut b0 = el("#a");
    b0.display = "flex".to_string();
    let d = layout_diff(Some(&keys(vec![a0, el("#gone")], &[])), Some(&keys(vec![b0, el("#new")], &[])));
    assert_eq!(d.pairs, vec![(0, 0)]);
    let got: Vec<(String, String, String)> =
        d.style_changes.iter().map(|c| (c.property.clone(), c.from.clone(), c.to.clone())).collect();
    assert_eq!(
        got,
        vec![
            ("transform".to_string(), "matrix(1, 0, 0, 1, 0, 0)".to_string(), "none".to_string()),
            ("background-color".to_string(), "red".to_string(), "".to_string()),
            ("display".to_string(), "block".to_string(), "flex".to_string()),
        ]
    );
    assert_eq!(d.appeared, vec!["#new".to_string()]);
    assert_eq!(d.disappeared, vec!["#gone".to_string()]);
}

#[test]
fn duplicate_selectors_pair_with_last() {
    let mut first = el("#dup");
    first.color = Some("blue".to_string());
    let a = keys(vec![first, el("#dup")], &[]);
    let b = keys(vec![el("#dup")], &[]);
    // The later `#dup` in `a` stands for the selector, and it matches `b`.
    assert!(classify_transition(Some(&a), Some(&b), &vec![still()]).is_empty());
}

#[test]
fn appeared_and_disappeared_selectors_count_as_moved() {
    let a = keys(vec![el("#stay"), el("#gone"), el("#faded")], &[]);
    let b = keys(vec![el("#stay"), el("#new"), el("#back")], &["#faded"]);
    let mut a2 = a.clone();
    a2.hidden_selectors.push("#back".to_string());
    let motions = vec![still(), still(), still()];
    let (appeared, disappeared) = appeared_disappeared_between(Some(&a2), Some(&b));
    let moved = moved_selectors_between(Some(&a2), Some(&b), &motions);
    assert_eq!(appeared, vec!["#new".to_string()]);
    assert_eq!(disappeared, vec!["#gone".to_string()]);
    for s in appeared.iter().chain(disappeared.iter()) {
        assert!(moved.contains(s), "{s} missing from {moved:?}");
    }
    assert!(!moved.contains(&"#stay".to_string()));
}

#[test]
fn layout_diff_of_a_snapshot_with_itself_is_empty() {
    let mut a0 = el("#a");
    a0.transform = Some("matrix(1, 0, 0, 1, 3, 0)".to_string());
    let k = keys(vec![a0, el("#b"), el("#a")], &[]);
    let d = layout_diff(Some(&k), Some(&k));
    assert_eq!(d.pairs, vec![(1, 1), (2, 2)]);
    assert!(d.style_changes.is_empty());
    assert!(d.appeared.is_empty() && d.disappeared.is_empty());
    let none = layout_diff(None, Some(&k));
    assert!(none.pairs.is_empty() && none.style_changes.is_empty() && none.appeared.is_empty());
}
