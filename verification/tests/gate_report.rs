use motionlens_core::gate::{
    build_verdict_human, coverage_gate_is_measurable, evidence_missing, failed_gates, gate_check_violations,
    reliability_note, verdict_label, GateInputs, SummaryFigures,
};
use motionlens_core::intent::{build_intent_match, DeclaredIntent};
use motionlens_core::model::{GateReliability, MotionCategory as K};

fn inputs() -> GateInputs {
    GateInputs {
        is_static: false,
        smoothness_below_min: false,
        smoothness_detail: "smooth detail".to_string(),
        jank_event_count: 0,
        max_jank_events: 2,
        require_intent_match: true,
        intent_passes: Some(true),
        cdp_source_count: 1,
        coverage_above_floor: false,
        coverage_below_min: false,
        coverage_detail: "coverage detail".to_string(),
        require_non_static: true,
    }
}

#[test]
fn passing_run_has_no_failed_gates() {
    let g = failed_gates(&inputs());
    assert!(g.is_empty());
    assert_eq!(verdict_label(true, true), "pass");
    assert_eq!(verdict_label(true, false), "needs-attention");
    assert_eq!(reliability_note(&g), "");
}

#[test]
fn gates_fail_in_report_order() {
    let mut i = inputs();
    i.smoothness_below_min = true;
    i.jank_event_count = 3;
    i.intent_passes = Some(false);
    i.coverage_below_min = true;
    let g = failed_gates(&i);
    let names: Vec<&str> = g.iter().map(|x| x.gate.as_str()).collect();
    assert_eq!(names, vec!["smoothness", "jank-events", "intent-match", "coverage"]);
    assert_eq!(g[0].detail, "smooth detail");
    assert_eq!(
        g[1].detail,
        "3 jank event(s) > max 2 — can include pixel-cv outliers from a deliberate full-screen beat and positional-teleport from a scaleX / clip bar. Check each event's `kind` against `intent`."
    );
    assert_eq!(g[2].reliability, GateReliability::Correctness);
    assert_eq!(g[3].reliability, GateReliability::Advisory);
    assert_eq!(verdict_label(g.is_empty(), true), "fail");
    assert!(reliability_note(&g).contains("CORRECTNESS"));
}

#[test]
fn static_sequence_and_missing_intent() {
    let mut i = inputs();
    i.is_static = true;
    i.smoothness_below_min = true;
    i.intent_passes = None;
    let g = failed_gates(&i);
    let names: Vec<&str> = g.iter().map(|x| x.gate.as_str()).collect();
    // A static sequence skips the smoothness gate.
    assert_eq!(names, vec!["intent-match", "non-static"]);
}

#[test]
fn coverage_gate_skipped_without_cdp_sources() {
    let mut i = inputs();
    i.cdp_source_count = 0;
    i.coverage_below_min = true;
    assert!(!coverage_gate_is_measurable(&i));
    assert!(failed_gates(&i).is_empty());
    i.coverage_above_floor = true;
    assert!(coverage_gate_is_measurable(&i));
    let g = failed_gates(&i);
    assert_eq!(g.len(), 1);
    assert!(reliability_note(&g).contains("ADVISORY"));
}

#[test]
fn evidence_missing_in_order() {
    let e = evidence_missing(
        &vec!["drift".to_string()],
        &vec!["#hero".to_string()],
        &vec!["fade-up".to_string()],
        true,
        true,
        0,
        true,
        false,
    );
    assert_eq!(e[0], "drift");
    assert_eq!(e[1], "intent_target_not_moved: #hero");
    assert_eq!(e[2], "motion_source_not_sampled: fade-up");
    assert_eq!(e[3], "sequence_is_static: no per-frame pixel change detected");
    assert!(e[4].starts_with("coverage_score 0.0 because no CSS Animation"));
    assert_eq!(e.len(), 5);
    let e = evidence_missing(&vec![], &vec![], &vec![], false, true, 0, false, true);
    assert_eq!(
        e,
        vec!["motion_present_but_no_coverable_sources: pixels change but no CSS/transition/WAAPI source exists — no rAF detected either (canvas paint / driver-side animation?). coverage_score is not assessable for this page; rely on smoothness / jank / intent_match, or set thresholds.min_coverage_score: 0.0".to_string()]
    );
}

fn figures(jank: usize, gaps: usize) -> SummaryFigures {
    SummaryFigures {
        smoothness_text: "0.91".to_string(),
        smoothness_verdict: "good".to_string(),
        jank_count: jank,
        coverage_text: "1.00".to_string(),
        evidence_gap_count: gaps,
    }
}

#[test]
fn verdict_human_branches() {
    assert_eq!(
        build_verdict_human("fail", false, true, None, &figures(0, 0)),
        "fail — sequence is static (no per-frame pixel change). Animation never fired or the clock never advanced."
    );
    assert_eq!(
        build_verdict_human("pass", true, false, None, &figures(0, 0)),
        "pass — smoothness 0.91 (good), no jank, no intent declared"
    );
    assert_eq!(
        build_verdict_human("needs-attention", true, false, None, &figures(2, 3)),
        "needs-attention — smoothness 0.91 (good), 2 jank events, no intent declared, 3 evidence gaps"
    );
    let di = DeclaredIntent {
        description: "d".into(),
        expected_kinds: vec![K::Scale],
        expected_targets: vec!["#a".into()],
        forbidden_kinds: vec![],
        expected_easing: None,
    };
    let im = build_intent_match(&di, &vec![], &vec![], &vec![], &vec![], None);
    assert_eq!(
        build_verdict_human("fail", false, false, Some(&im), &figures(1, 0)),
        "fail — expected_targets did not move: [\"#a\"]. smoothness=0.91 (good) jank=1 coverage=1.00"
    );
    let di2 = DeclaredIntent { expected_targets: vec![], ..di };
    let im2 = build_intent_match(&di2, &vec![], &vec![], &vec![], &vec![], None);
    assert_eq!(
        build_verdict_human("fail", false, false, Some(&im2), &figures(1, 0)),
        "fail — expected_kinds missing: [Scale]. smoothness=0.91 (good) jank=1"
    );
}

#[test]
fn gate_check_violations_listed() {
    assert!(gate_check_violations(true, "pass", None, None, false, None).is_empty());
    assert!(gate_check_violations(true, "needs-attention", Some(""), Some("x"), false, None).is_empty());
    let v = gate_check_violations(false, "fail", Some("http://a"), Some("http://b"), true, Some("src/app.js"));
    assert_eq!(
        v,
        vec![
            "report.passes is not true (verdict=fail)".to_string(),
            "report.verdict not in {pass, needs-attention}: fail".to_string(),
            "contract URL mismatch (config=http://a, report=http://b)".to_string(),
            "contract viewport differs from report viewport".to_string(),
            "report is stale — src/app.js was modified after motionlens-report.json was written".to_string(),
        ]
    );
}

#[test]
fn failing_run_never_clears_gate_check() {
    for confident in [false, true] {
        let verdict = verdict_label(false, confident);
        assert!(!gate_check_violations(false, verdict, None, None, false, None).is_empty());
    }
    assert!(gate_check_violations(true, verdict_label(true, false), None, None, false, None).is_empty());
    assert!(!gate_check_violations(true, "fail", None, None, false, None).is_empty());
}
