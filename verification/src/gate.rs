//! The evidence gate of a motion-verify run: which gates failed and how
//! far to trust each, the evidence that is missing, the three-valued
//! verdict and its one-line human summary.
//!
//! Scores such as smoothness, coverage and confidence are floating-point
//! values; they reach this module as the outcome of their threshold
//! comparisons, and where a message quotes one it arrives already
//! rendered.

use vstd::prelude::*;
use crate::error::Error;
use crate::intent::IntentMatch;
use crate::model::{debug_kind_list, kinds_debug_text, FailedGate, GateReliability, MotionCategory};
use crate::paths::{extension, extension_of};
use crate::text::{debug_list_text, debug_string_list, same_text, string_views, u64_decimal, usize_decimal, decimal};

verus! {

/// Checks that a sample plan has at least two target times; otherwise an
/// invalid-argument error.
pub fn check_sample_plan(target_times: usize) -> (r: Result<(), Error>)
    ensures
        target_times >= 2 ==> r is Ok,
        target_times < 2 ==> (r matches Err(Error::InvalidArgument(e))
            && e@ == "sample_plan.target_times_ms must contain at least 2 entries"@),
{
    proof {
        reveal_strlit("sample_plan.target_times_ms must contain at least 2 entries");
    }
    if target_times < 2 {
        return Err(Error::invalid(String::from_str("sample_plan.target_times_ms must contain at least 2 entries")));
    }
    Ok(())
}

pub struct FailedGateView {
    pub gate: Seq<char>,
    pub reliability: GateReliability,
    pub detail: Seq<char>,
}

impl View for FailedGate {
    type V = FailedGateView;

    open spec fn view(&self) -> FailedGateView {
        FailedGateView { gate: self.gate@, reliability: self.reliability, detail: self.detail@ }
    }
}

pub open spec fn gate_views(v: Seq<FailedGate>) -> Seq<FailedGateView> {
    v.map_values(|g: FailedGate| g@)
}

/// What the gates are evaluated on.
pub struct GateInputs {
    /// No per-frame change was detected.
    pub is_static: bool,
    /// The smoothness score is below the contract's minimum.
    pub smoothness_below_min: bool,
    /// The smoothness gate's message, quoting the score and the minimum.
    pub smoothness_detail: String,
    pub jank_event_count: usize,
    pub max_jank_events: u32,
    pub require_intent_match: bool,
    /// Whether the intent grading passed; `None` when no intent was declared.
    pub intent_passes: Option<bool>,
    /// Motion sources registered with the browser's animation domain
    /// (CSS animations, CSS transitions, web animations).
    pub cdp_source_count: usize,
    /// The coverage score exceeds a thousandth of the contract's minimum.
    pub coverage_above_floor: bool,
    /// The coverage score is below the contract's minimum.
    pub coverage_below_min: bool,
    /// The coverage gate's message, quoting the score and the minimum.
    pub coverage_detail: String,
    pub require_non_static: bool,
}

pub struct GateInputsView {
    pub is_static: bool,
    pub smoothness_below_min: bool,
    pub smoothness_detail: Seq<char>,
    pub jank_event_count: usize,
    pub max_jank_events: u32,
    pub require_intent_match: bool,
    pub intent_passes: Option<bool>,
    pub cdp_source_count: usize,
    pub coverage_above_floor: bool,
    pub coverage_below_min: bool,
    pub coverage_detail: Seq<char>,
    pub require_non_static: bool,
}

impl View for GateInputs {
    type V = GateInputsView;

    open spec fn view(&self) -> GateInputsView {
        GateInputsView {
            is_static: self.is_static,
            smoothness_below_min: self.smoothness_below_min,
            smoothness_detail: self.smoothness_detail@,
            jank_event_count: self.jank_event_count,
            max_jank_events: self.max_jank_events,
            require_intent_match: self.require_intent_match,
            intent_passes: self.intent_passes,
            cdp_source_count: self.cdp_source_count,
            coverage_above_floor: self.coverage_above_floor,
            coverage_below_min: self.coverage_below_min,
            coverage_detail: self.coverage_detail@,
            require_non_static: self.require_non_static,
        }
    }
}

/// The coverage gate is measurable: some motion source is registered with
/// the animation domain, or the score is above the floor anyway.
pub open spec fn coverage_gate_applies(inp: GateInputsView) -> bool {
    inp.cdp_source_count > 0 || inp.coverage_above_floor
}

pub open spec fn jank_detail_text(count: usize, max: u32) -> Seq<char> {
    decimal(count as nat) + " jank event(s) > max "@ + decimal(max as nat)
        + " — can include pixel-cv outliers from a deliberate full-screen beat and positional-teleport from a scaleX / clip bar. Check each event's `kind` against `intent`."@
}

pub open spec fn intent_gate_detail() -> Seq<char> {
    "intent_match.passes is not true — the declared intent (kinds / targets / duration) was not satisfied. This is a real defect, not a measurement artifact."@
}

pub open spec fn non_static_gate_detail() -> Seq<char> {
    "sequence is static (no per-frame pixel change) — the animation never fired or the clock never advanced. This is a real defect."@
}

pub open spec fn gate_if(failed: bool, g: FailedGateView) -> Seq<FailedGateView> {
    if failed {
        seq![g]
    } else {
        Seq::empty()
    }
}

/// The failed gates, in the order smoothness, jank events, intent match,
/// coverage, non-static.  Smoothness, jank and coverage are advisory;
/// intent match and non-static are correctness gates.
pub open spec fn spec_failed_gates(inp: GateInputsView) -> Seq<FailedGateView> {
    gate_if(
        !inp.is_static && inp.smoothness_below_min,
        FailedGateView { gate: "smoothness"@, reliability: GateReliability::Advisory, detail: inp.smoothness_detail },
    ) + gate_if(
        (inp.jank_event_count as u32) > inp.max_jank_events,
        FailedGateView {
            gate: "jank-events"@,
            reliability: GateReliability::Advisory,
            detail: jank_detail_text(inp.jank_event_count, inp.max_jank_events),
        },
    ) + gate_if(
        inp.require_intent_match && !(inp.intent_passes == Some(true)),
        FailedGateView { gate: "intent-match"@, reliability: GateReliability::Correctness, detail: intent_gate_detail() },
    ) + gate_if(
        coverage_gate_applies(inp) && inp.coverage_below_min,
        FailedGateView { gate: "coverage"@, reliability: GateReliability::Advisory, detail: inp.coverage_detail },
    ) + gate_if(
        inp.require_non_static && inp.is_static,
        FailedGateView { gate: "non-static"@, reliability: GateReliability::Correctness, detail: non_static_gate_detail() },
    )
}

fn push_gate(out: &mut Vec<FailedGate>, g: FailedGate)
    ensures
        gate_views(final(out)@) == gate_views(old(out)@).push(g@),
{
    let ghost before = gate_views(out@);
    out.push(g);
    proof {
        assert(gate_views(out@) =~= before.push(g@));
    }
}

fn gate(name: &str, reliability: GateReliability, detail: String) -> (g: FailedGate)
    ensures
        g@ == (FailedGateView { gate: name@, reliability, detail: detail@ }),
{
    FailedGate { gate: String::from_str(name), reliability, detail }
}

/// Whether the coverage gate is evaluated at all.
pub fn coverage_gate_is_measurable(inp: &GateInputs) -> (b: bool)
    ensures
        b == coverage_gate_applies(inp@),
{
    inp.cdp_source_count > 0 || inp.coverage_above_floor
}

/// The gates the run failed.
pub fn failed_gates(inp: &GateInputs) -> (out: Vec<FailedGate>)
    ensures
        gate_views(out@) == spec_failed_gates(inp@),
{
    let mut out: Vec<FailedGate> = Vec::new();
    let ghost g0 = gate_views(out@);
    if !inp.is_static && inp.smoothness_below_min {
        push_gate(&mut out, gate("smoothness", GateReliability::Advisory, inp.smoothness_detail.clone()));
    }
    let ghost g1 = gate_views(out@);
    if (inp.jank_event_count as u32) > inp.max_jank_events {
        let mut d = usize_decimal(inp.jank_event_count);
        d.append(" jank event(s) > max ");
        let m = u64_decimal(inp.max_jank_events as u64);
        d.append(m.as_str());
        d.append(
            " — can include pixel-cv outliers from a deliberate full-screen beat and positional-teleport from a scaleX / clip bar. Check each event's `kind` against `intent`.",
        );
        push_gate(&mut out, gate("jank-events", GateReliability::Advisory, d));
    }
    let ghost g2 = gate_views(out@);
    let intent_ok = match inp.intent_passes {
        Some(p) => p,
        None => false,
    };
    if inp.require_intent_match && !intent_ok {
        push_gate(
            &mut out,
            gate(
                "intent-match",
                GateReliability::Correctness,
                String::from_str(
                    "intent_match.passes is not true — the declared intent (kinds / targets / duration) was not satisfied. This is a real defect, not a measurement artifact.",
                ),
            ),
        );
    }
    let ghost g3 = gate_views(out@);
    if coverage_gate_is_measurable(inp) && inp.coverage_below_min {
        push_gate(&mut out, gate("coverage", GateReliability::Advisory, inp.coverage_detail.clone()));
    }
    let ghost g4 = gate_views(out@);
    if inp.require_non_static && inp.is_static {
        push_gate(
            &mut out,
            gate(
                "non-static",
                GateReliability::Correctness,
                String::from_str(
                    "sequence is static (no per-frame pixel change) — the animation never fired or the clock never advanced. This is a real defect.",
                ),
            ),
        );
    }
    proof {
        let v = inp@;
        assert(g1 =~= g0 + gate_if(!v.is_static && v.smoothness_below_min, FailedGateView { gate: "smoothness"@, reliability: GateReliability::Advisory, detail: v.smoothness_detail }));
        assert(g2 =~= g1 + gate_if((v.jank_event_count as u32) > v.max_jank_events, FailedGateView { gate: "jank-events"@, reliability: GateReliability::Advisory, detail: jank_detail_text(v.jank_event_count, v.max_jank_events) }));
        assert(g3 =~= g2 + gate_if(v.require_intent_match && !(v.intent_passes == Some(true)), FailedGateView { gate: "intent-match"@, reliability: GateReliability::Correctness, detail: intent_gate_detail() }));
        assert(g4 =~= g3 + gate_if(coverage_gate_applies(v) && v.coverage_below_min, FailedGateView { gate: "coverage"@, reliability: GateReliability::Advisory, detail: v.coverage_detail }));
        assert(gate_views(out@) =~= g4 + gate_if(v.require_non_static && v.is_static, FailedGateView { gate: "non-static"@, reliability: GateReliability::Correctness, detail: non_static_gate_detail() }));
        assert(gate_views(out@) =~= spec_failed_gates(v));
    }
    out
}


/// The run's label: `fail` when a gate failed; otherwise `pass` when the
/// confidence reaches 0.7 and `needs-attention` when it does not.
pub open spec fn spec_verdict(passes: bool, confident: bool) -> Seq<char> {
    if !passes {
        "fail"@
    } else if confident {
        "pass"@
    } else {
        "needs-attention"@
    }
}

pub fn verdict_label(passes: bool, confident: bool) -> (s: &'static str)
    ensures
        s@ == spec_verdict(passes, confident),
{
    if !passes {
        "fail"
    } else if confident {
        "pass"
    } else {
        "needs-attention"
    }
}

pub open spec fn prefixed_all(p: Seq<char>, xs: Seq<Seq<char>>) -> Seq<Seq<char>> {
    xs.map_values(|s: Seq<char>| p + s)
}

pub open spec fn static_note() -> Seq<char> {
    "sequence_is_static: no per-frame pixel change detected"@
}

pub open spec fn coverable_cause(raf_detected: bool) -> Seq<char> {
    if raf_detected {
        "rAF detected (canvas / WebGL / Three.js?)"@
    } else {
        "no rAF detected either (canvas paint / driver-side animation?)"@
    }
}

pub open spec fn coverable_note(raf_detected: bool) -> Seq<char> {
    "motion_present_but_no_coverable_sources: pixels change but no CSS/transition/WAAPI source exists — "@
        + coverable_cause(raf_detected)
        + ". coverage_score is not assessable for this page; rely on smoothness / jank / intent_match, or set thresholds.min_coverage_score: 0.0"@
}

pub open spec fn coverage_skip_text() -> Seq<char> {
    "coverage_score 0.0 because no CSS Animation / CSS Transition / WAAPI source was registered with the CDP Animation domain — the page is rAF / GSAP / Framer Motion / Lottie driven. The `coverage` gate is auto-skipped (structurally unmeasurable). Other gates (intent-match / non-static / smoothness) still apply."@
}

pub open spec fn note_if(present: bool, note: Seq<char>) -> Seq<Seq<char>> {
    if present {
        seq![note]
    } else {
        Seq::empty()
    }
}

/// The evidence a run is missing, in report order: the sampling-drift
/// notes, each declared target that did not move, each motion source no
/// sample fell into, a static sequence when motion was required, motion
/// that no coverable source explains, and a skipped coverage gate.
pub open spec fn spec_evidence_missing(
    drift_notes: Seq<Seq<char>>,
    targets_without_evidence: Seq<Seq<char>>,
    sources_without_samples: Seq<Seq<char>>,
    is_static: bool,
    require_non_static: bool,
    total_motion_sources: usize,
    raf_detected: bool,
    coverage_measurable: bool,
) -> Seq<Seq<char>> {
    drift_notes + prefixed_all("intent_target_not_moved: "@, targets_without_evidence) + prefixed_all(
        "motion_source_not_sampled: "@,
        sources_without_samples,
    ) + note_if(is_static && require_non_static, static_note()) + note_if(
        total_motion_sources == 0 && !is_static,
        coverable_note(raf_detected),
    ) + note_if(!coverage_measurable, coverage_skip_text())
}

fn push_text(out: &mut Vec<String>, t: String)
    ensures
        string_views(final(out)@) == string_views(old(out)@).push(t@),
{
    let ghost before = string_views(out@);
    out.push(t);
    proof {
        assert(string_views(out@) =~= before.push(t@));
    }
}

fn push_prefixed(out: &mut Vec<String>, prefix: &str, xs: &Vec<String>)
    ensures
        string_views(final(out)@) == string_views(old(out)@) + prefixed_all(prefix@, string_views(xs@)),
{
    let ghost start = string_views(out@);
    let n = xs.len();
    let mut i: usize = 0;
    while i < n
        invariant
            n == xs@.len(),
            i <= n,
            string_views(out@) == start + prefixed_all(prefix@, string_views(xs@).take(i as int)),
        decreases n - i,
    {
        let mut t = String::from_str(prefix);
        t.append(xs[i].as_str());
        push_text(out, t);
        proof {
            assert(prefixed_all(prefix@, string_views(xs@).take(i + 1)) =~= prefixed_all(prefix@, string_views(xs@).take(i as int)).push(prefix@ + xs@[i as int]@));
        }
        i = i + 1;
    }
    assert(string_views(xs@).take(n as int) =~= string_views(xs@));
}

/// Assembles the missing-evidence list of a run.
pub fn evidence_missing(
    drift_notes: &Vec<String>,
    targets_without_evidence: &Vec<String>,
    sources_without_samples: &Vec<String>,
    is_static: bool,
    require_non_static: bool,
    total_motion_sources: usize,
    raf_detected: bool,
    coverage_measurable: bool,
) -> (out: Vec<String>)
    ensures
        string_views(out@) == spec_evidence_missing(
            string_views(drift_notes@),
            string_views(targets_without_evidence@),
            string_views(sources_without_samples@),
            is_static,
            require_non_static,
            total_motion_sources,
            raf_detected,
            coverage_measurable,
        ),
{
    let mut out: Vec<String> = Vec::new();
    push_prefixed(&mut out, "", drift_notes);
    proof {
        reveal_strlit("");
        assert(prefixed_all(""@, string_views(drift_notes@)) =~= string_views(drift_notes@)) by {
            assert forall|k: int| 0 <= k < string_views(drift_notes@).len() implies ""@ + string_views(drift_notes@)[k] =~= string_views(drift_notes@)[k] by {}
        }
    }
    push_prefixed(&mut out, "intent_target_not_moved: ", targets_without_evidence);
    push_prefixed(&mut out, "motion_source_not_sampled: ", sources_without_samples);
    let ghost e0 = string_views(out@);
    if is_static && require_non_static {
        push_text(&mut out, String::from_str("sequence_is_static: no per-frame pixel change detected"));
    }
    let ghost e1 = string_views(out@);
    assert(e1 =~= e0 + note_if(is_static && require_non_static, static_note()));
    if total_motion_sources == 0 && !is_static {
        let cause = if raf_detected {
            "rAF detected (canvas / WebGL / Three.js?)"
        } else {
            "no rAF detected either (canvas paint / driver-side animation?)"
        };
        let mut t = String::from_str(
            "motion_present_but_no_coverable_sources: pixels change but no CSS/transition/WAAPI source exists — ",
        );
        t.append(cause);
        t.append(
            ". coverage_score is not assessable for this page; rely on smoothness / jank / intent_match, or set thresholds.min_coverage_score: 0.0",
        );
        push_text(&mut out, t);
    }
    let ghost e2 = string_views(out@);
    assert(e2 =~= e1 + note_if(total_motion_sources == 0 && !is_static, coverable_note(raf_detected)));
    if !coverage_measurable {
        push_text(
            &mut out,
            String::from_str(
                "coverage_score 0.0 because no CSS Animation / CSS Transition / WAAPI source was registered with the CDP Animation domain — the page is rAF / GSAP / Framer Motion / Lottie driven. The `coverage` gate is auto-skipped (structurally unmeasurable). Other gates (intent-match / non-static / smoothness) still apply.",
            ),
        );
    }
    assert(string_views(out@) =~= e2 + note_if(!coverage_measurable, coverage_skip_text()));
    out
}

/// What the one-line summary quotes besides the verdict; the scores
/// arrive rendered to two decimals.
pub struct SummaryFigures {
    pub smoothness_text: String,
    pub smoothness_verdict: String,
    pub jank_count: usize,
    pub coverage_text: String,
    pub evidence_gap_count: usize,
}

/// The one-line human summary of a run.
pub open spec fn spec_verdict_human(
    verdict: Seq<char>,
    passes: bool,
    is_static: bool,
    intent: Option<crate::intent::IntentMatchView>,
    smoothness: Seq<char>,
    smoothness_verdict: Seq<char>,
    jank: usize,
    coverage: Seq<char>,
    gaps: usize,
) -> Seq<char> {
    let dash = " — "@;
    if is_static && !passes {
        verdict + " — sequence is static (no per-frame pixel change). Animation never fired or the clock never advanced."@
    } else if intent matches Some(im) && im.expected_targets_missing.len() > 0 {
        verdict + " — expected_targets did not move: "@ + debug_list_text(intent->0.expected_targets_missing)
            + ". smoothness="@ + smoothness + " ("@ + smoothness_verdict + ") jank="@ + decimal(jank as nat)
            + " coverage="@ + coverage
    } else if intent matches Some(im) && im.expected_kinds_missing.len() > 0 {
        verdict + " — expected_kinds missing: "@ + kinds_debug_text(intent->0.expected_kinds_missing)
            + ". smoothness="@ + smoothness + " ("@ + smoothness_verdict + ") jank="@ + decimal(jank as nat)
    } else if intent matches Some(im) && im.forbidden_kinds_seen.len() > 0 {
        verdict + " — forbidden_kinds observed: "@ + kinds_debug_text(intent->0.forbidden_kinds_seen)
            + ". smoothness="@ + smoothness + " ("@ + smoothness_verdict + ")"@
    } else {
        verdict + " — smoothness "@ + smoothness + " ("@ + smoothness_verdict + "), "@ + (if jank == 0 {
            "no jank"@
        } else {
            decimal(jank as nat) + " jank events"@
        }) + (match intent {
            Some(im) => if im.passes {
                ", intent_match ok"@
            } else {
                ", intent_match fail"@
            },
            None => ", no intent declared"@,
        }) + (if gaps == 0 {
            Seq::empty()
        } else {
            ", "@ + decimal(gaps as nat) + " evidence gaps"@
        })
    }
}

pub open spec fn intent_view(intent: Option<&IntentMatch>) -> Option<crate::intent::IntentMatchView> {
    match intent {
        Some(im) => Some(im@),
        None => None,
    }
}

/// Renders the one-line human summary.
pub fn build_verdict_human(verdict: &str, passes: bool, is_static: bool, intent: Option<&IntentMatch>, f: &SummaryFigures) -> (s: String)
    ensures
        s@ == spec_verdict_human(
            verdict@,
            passes,
            is_static,
            intent_view(intent),
            f.smoothness_text@,
            f.smoothness_verdict@,
            f.jank_count,
            f.coverage_text@,
            f.evidence_gap_count,
        ),
{
    let mut s = String::from_str(verdict);
    if is_static && !passes {
        s.append(" — sequence is static (no per-frame pixel change). Animation never fired or the clock never advanced.");
        return s;
    }
    match intent {
        Some(im) => {
            if im.expected_targets_missing.len() > 0 {
                s.append(" — expected_targets did not move: ");
                let l = debug_string_list(&im.expected_targets_missing);
                s.append(l.as_str());
                s.append(". smoothness=");
                s.append(f.smoothness_text.as_str());
                s.append(" (");
                s.append(f.smoothness_verdict.as_str());
                s.append(") jank=");
                let j = usize_decimal(f.jank_count);
                s.append(j.as_str());
                s.append(" coverage=");
                s.append(f.coverage_text.as_str());
                return s;
            }
            if im.expected_kinds_missing.len() > 0 {
                s.append(" — expected_kinds missing: ");
                let l = debug_kind_list(&im.expected_kinds_missing);
                s.append(l.as_str());
                s.append(". smoothness=");
                s.append(f.smoothness_text.as_str());
                s.append(" (");
                s.append(f.smoothness_verdict.as_str());
                s.append(") jank=");
                let j = usize_decimal(f.jank_count);
                s.append(j.as_str());
                return s;
            }
            if im.forbidden_kinds_seen.len() > 0 {
                s.append(" — forbidden_kinds observed: ");
                let l = debug_kind_list(&im.forbidden_kinds_seen);
                s.append(l.as_str());
                s.append(". smoothness=");
                s.append(f.smoothness_text.as_str());
                s.append(" (");
                s.append(f.smoothness_verdict.as_str());
                s.append(")");
                return s;
            }
        },
        None => {},
    }
    s.append(" — smoothness ");
    s.append(f.smoothness_text.as_str());
    s.append(" (");
    s.append(f.smoothness_verdict.as_str());
    s.append("), ");
    if f.jank_count == 0 {
        s.append("no jank");
    } else {
        let j = usize_decimal(f.jank_count);
        s.append(j.as_str());
        s.append(" jank events");
    }
    match intent {
        Some(im) => {
            if im.passes {
                s.append(", intent_match ok");
            } else {
                s.append(", intent_match fail");
            }
        },
        None => {
            s.append(", no intent declared");
        },
    }
    if f.evidence_gap_count > 0 {
        s.append(", ");
        let g = usize_decimal(f.evidence_gap_count);
        s.append(g.as_str());
        s.append(" evidence gaps");
    }
    proof {
        assert(Seq::<char>::empty() + Seq::<char>::empty() =~= Seq::<char>::empty());
    }
    s
}

/// Some failed gate is a correctness gate.
pub open spec fn has_correctness_failure(gates: Seq<FailedGateView>) -> bool {
    exists|i: int| 0 <= i < gates.len() && #[trigger] gates[i].reliability == GateReliability::Correctness
}

pub open spec fn correctness_note() -> Seq<char> {
    " — passes:false includes a CORRECTNESS gate (intent-match / non-static): the declared intent was not satisfied, or the animation never fired. This is a real defect — fix it; do NOT dismiss it as a measurement artifact (any advisory gates listed are secondary)."@
}

pub open spec fn advisory_note() -> Seq<char> {
    " — passes:false is from ADVISORY gates only (smoothness / jank-events / coverage): likely a measurement / choreography artifact (ambient loop, an intended full-screen beat, rAF/GSAP coverage 0), not necessarily a defect. Triage with intent_match + the contact sheet; passes:true is reliable."@
}

/// What a failing run's summary adds about how far to trust the failure.
pub open spec fn spec_reliability_note(gates: Seq<FailedGateView>) -> Seq<char> {
    if gates.len() == 0 {
        Seq::empty()
    } else if has_correctness_failure(gates) {
        correctness_note()
    } else {
        advisory_note()
    }
}

pub fn reliability_note(gates: &Vec<FailedGate>) -> (s: &'static str)
    ensures
        s@ == spec_reliability_note(gate_views(gates@)),
{
    proof {
        reveal_strlit("");
    }
    if gates.len() == 0 {
        assert(""@ =~= Seq::<char>::empty());
        return "";
    }
    let n = gates.len();
    let mut i: usize = 0;
    while i < n
        invariant
            n == gates@.len(),
            i <= n,
            forall|j: int| 0 <= j < i ==> #[trigger] gate_views(gates@)[j].reliability != GateReliability::Correctness,
        decreases n - i,
    {
        if gates[i].reliability == GateReliability::Correctness {
            assert(gate_views(gates@)[i as int].reliability == GateReliability::Correctness);
            return " — passes:false includes a CORRECTNESS gate (intent-match / non-static): the declared intent was not satisfied, or the animation never fired. This is a real defect — fix it; do NOT dismiss it as a measurement artifact (any advisory gates listed are secondary).";
        }
        i = i + 1;
    }
    " — passes:false is from ADVISORY gates only (smoothness / jank-events / coverage): likely a measurement / choreography artifact (ambient loop, an intended full-screen beat, rAF/GSAP coverage 0), not necessarily a defect. Triage with intent_match + the contact sheet; passes:true is reliable."
}

/// Some failed gate is called `name`.
pub open spec fn names_gate(gs: Seq<FailedGateView>, name: Seq<char>) -> bool {
    exists|k: int| 0 <= k < gs.len() && (#[trigger] gs[k]).gate == name
}

proof fn lemma_names_gate_concat(x: Seq<FailedGateView>, y: Seq<FailedGateView>, name: Seq<char>)
    ensures
        names_gate(x + y, name) <==> names_gate(x, name) || names_gate(y, name),
{
    if names_gate(x + y, name) {
        let k = choose|k: int| 0 <= k < (x + y).len() && (#[trigger] (x + y)[k]).gate == name;
        if k < x.len() {
            assert(x[k] == (x + y)[k]);
        } else {
            assert(y[k - x.len()] == (x + y)[k]);
        }
    }
    if names_gate(x, name) {
        let k = choose|k: int| 0 <= k < x.len() && (#[trigger] x[k]).gate == name;
        assert((x + y)[k] == x[k]);
    }
    if names_gate(y, name) {
        let k = choose|k: int| 0 <= k < y.len() && (#[trigger] y[k]).gate == name;
        assert((x + y)[x.len() + k] == y[k]);
    }
}

proof fn lemma_names_gate_if(failed: bool, g: FailedGateView, name: Seq<char>)
    ensures
        names_gate(gate_if(failed, g), name) <==> failed && g.gate == name,
{
    if failed && g.gate == name {
        assert(gate_if(failed, g)[0] == g);
    }
}

/// Each gate fails exactly on its own condition: smoothness when a moving
/// sequence scores below the minimum; jank when there are more jank
/// events than the maximum allows; intent match when a match is required
/// and the grading did not pass (or no intent was graded); coverage when
/// it is measurable (a motion source is registered, or the score is above
/// the floor) and below the minimum; non-static when motion is required
/// and the sequence is static.  (The jank count is taken as a `u32`, so
/// the statement is for counts that fit one.)
pub proof fn law_each_gate_on_its_condition(inp: GateInputsView)
    requires
        inp.jank_event_count <= u32::MAX,
    ensures
        names_gate(spec_failed_gates(inp), "smoothness"@) <==> !inp.is_static && inp.smoothness_below_min,
        names_gate(spec_failed_gates(inp), "jank-events"@) <==> inp.jank_event_count > inp.max_jank_events,
        names_gate(spec_failed_gates(inp), "intent-match"@) <==> inp.require_intent_match && inp.intent_passes
            != Some(true),
        names_gate(spec_failed_gates(inp), "coverage"@) <==> (inp.cdp_source_count > 0 || inp.coverage_above_floor)
            && inp.coverage_below_min,
        names_gate(spec_failed_gates(inp), "non-static"@) <==> inp.require_non_static && inp.is_static,
{
    reveal_strlit("smoothness");
    reveal_strlit("jank-events");
    reveal_strlit("intent-match");
    reveal_strlit("coverage");
    reveal_strlit("non-static");
    assert("smoothness"@[0] != "non-static"@[0]);
    assert("smoothness"@ != "non-static"@);
    assert("smoothness"@.len() == 10 && "non-static"@.len() == 10 && "jank-events"@.len() == 11);
    assert("intent-match"@.len() == 12 && "coverage"@.len() == 8);
    assert("jank-events"@ != "smoothness"@ && "jank-events"@ != "intent-match"@ && "jank-events"@ != "coverage"@
        && "jank-events"@ != "non-static"@);
    assert("intent-match"@ != "smoothness"@ && "intent-match"@ != "coverage"@ && "intent-match"@ != "non-static"@);
    assert("coverage"@ != "smoothness"@ && "coverage"@ != "non-static"@);
    let f1 = FailedGateView { gate: "smoothness"@, reliability: GateReliability::Advisory, detail: inp.smoothness_detail };
    let f2 = FailedGateView {
        gate: "jank-events"@,
        reliability: GateReliability::Advisory,
        detail: jank_detail_text(inp.jank_event_count, inp.max_jank_events),
    };
    let f3 = FailedGateView { gate: "intent-match"@, reliability: GateReliability::Correctness, detail: intent_gate_detail() };
    let f4 = FailedGateView { gate: "coverage"@, reliability: GateReliability::Advisory, detail: inp.coverage_detail };
    let f5 = FailedGateView { gate: "non-static"@, reliability: GateReliability::Correctness, detail: non_static_gate_detail() };
    let c1 = !inp.is_static && inp.smoothness_below_min;
    let c2 = (inp.jank_event_count as u32) > inp.max_jank_events;
    let c3 = inp.require_intent_match && !(inp.intent_passes == Some(true));
    let c4 = coverage_gate_applies(inp) && inp.coverage_below_min;
    let c5 = inp.require_non_static && inp.is_static;
    assert(spec_failed_gates(inp) == gate_if(c1, f1) + gate_if(c2, f2) + gate_if(c3, f3) + gate_if(c4, f4) + gate_if(c5, f5));
    assert((inp.jank_event_count as u32) == inp.jank_event_count);
    lemma_five_gates(c1, f1, c2, f2, c3, f3, c4, f4, c5, f5, "smoothness"@);
    lemma_five_gates(c1, f1, c2, f2, c3, f3, c4, f4, c5, f5, "jank-events"@);
    lemma_five_gates(c1, f1, c2, f2, c3, f3, c4, f4, c5, f5, "intent-match"@);
    lemma_five_gates(c1, f1, c2, f2, c3, f3, c4, f4, c5, f5, "coverage"@);
    lemma_five_gates(c1, f1, c2, f2, c3, f3, c4, f4, c5, f5, "non-static"@);
}

/// Every failed gate is one of the five, and only the intent-match and
/// non-static gates are correctness failures; the others are advisory.
pub proof fn law_gate_reliability(inp: GateInputsView)
    ensures
        forall|k: int|
            0 <= k < spec_failed_gates(inp).len() ==> {
                let g = #[trigger] spec_failed_gates(inp)[k];
                &&& (g.reliability == GateReliability::Correctness) <==> (g.gate == "intent-match"@ || g.gate
                    == "non-static"@)
                &&& g.gate == "smoothness"@ || g.gate == "jank-events"@ || g.gate == "intent-match"@ || g.gate
                    == "coverage"@ || g.gate == "non-static"@
            },
{
    reveal_strlit("smoothness");
    reveal_strlit("jank-events");
    reveal_strlit("intent-match");
    reveal_strlit("coverage");
    reveal_strlit("non-static");
    assert("smoothness"@[0] != "non-static"@[0]);
    assert("smoothness"@.len() == 10 && "non-static"@.len() == 10 && "jank-events"@.len() == 11);
    assert("intent-match"@.len() == 12 && "coverage"@.len() == 8);
    let gs = spec_failed_gates(inp);
    let ok = |g: FailedGateView|
        ((g.reliability == GateReliability::Correctness) <==> (g.gate == "intent-match"@ || g.gate == "non-static"@))
            && (g.gate == "smoothness"@ || g.gate == "jank-events"@ || g.gate == "intent-match"@ || g.gate
            == "coverage"@ || g.gate == "non-static"@);
    assert forall|k: int| 0 <= k < gs.len() implies #[trigger] ok(gs[k]) by {
        let f1 = FailedGateView { gate: "smoothness"@, reliability: GateReliability::Advisory, detail: inp.smoothness_detail };
        let f2 = FailedGateView {
            gate: "jank-events"@,
            reliability: GateReliability::Advisory,
            detail: jank_detail_text(inp.jank_event_count, inp.max_jank_events),
        };
        let f3 = FailedGateView { gate: "intent-match"@, reliability: GateReliability::Correctness, detail: intent_gate_detail() };
        let f4 = FailedGateView { gate: "coverage"@, reliability: GateReliability::Advisory, detail: inp.coverage_detail };
        let f5 = FailedGateView { gate: "non-static"@, reliability: GateReliability::Correctness, detail: non_static_gate_detail() };
        let x1 = gate_if(!inp.is_static && inp.smoothness_below_min, f1);
        let x2 = gate_if((inp.jank_event_count as u32) > inp.max_jank_events, f2);
        let x3 = gate_if(inp.require_intent_match && !(inp.intent_passes == Some(true)), f3);
        let x4 = gate_if(coverage_gate_applies(inp) && inp.coverage_below_min, f4);
        let x5 = gate_if(inp.require_non_static && inp.is_static, f5);
        assert(gs == x1 + x2 + x3 + x4 + x5);
        assert(ok(f1) && ok(f2) && ok(f3) && ok(f4) && ok(f5));
        let all = seq![f1, f2, f3, f4, f5];
        assert(forall|q: int| 0 <= q < (x1 + x2 + x3 + x4 + x5).len() ==> all.contains(#[trigger] (x1 + x2 + x3 + x4 + x5)[q]))
            by {
            assert forall|q: int| 0 <= q < (x1 + x2 + x3 + x4 + x5).len() implies all.contains(
                #[trigger] (x1 + x2 + x3 + x4 + x5)[q],
            ) by {
                assert(all[0] == f1 && all[1] == f2 && all[2] == f3 && all[3] == f4 && all[4] == f5);
            }
        }
        assert(all.contains(gs[k]));
    }
}

proof fn lemma_five_gates(
    c1: bool,
    f1: FailedGateView,
    c2: bool,
    f2: FailedGateView,
    c3: bool,
    f3: FailedGateView,
    c4: bool,
    f4: FailedGateView,
    c5: bool,
    f5: FailedGateView,
    n: Seq<char>,
)
    ensures
        names_gate(gate_if(c1, f1) + gate_if(c2, f2) + gate_if(c3, f3) + gate_if(c4, f4) + gate_if(c5, f5), n) <==> (c1
            && f1.gate == n) || (c2 && f2.gate == n) || (c3 && f3.gate == n) || (c4 && f4.gate == n) || (c5 && f5.gate
            == n),
{
    let (g1, g2, g3, g4, g5) = (gate_if(c1, f1), gate_if(c2, f2), gate_if(c3, f3), gate_if(c4, f4), gate_if(c5, f5));
    lemma_names_gate_concat(g1 + g2 + g3 + g4, g5, n);
    lemma_names_gate_concat(g1 + g2 + g3, g4, n);
    lemma_names_gate_concat(g1 + g2, g3, n);
    lemma_names_gate_concat(g1, g2, n);
    lemma_names_gate_if(c1, f1, n);
    lemma_names_gate_if(c2, f2, n);
    lemma_names_gate_if(c3, f3, n);
    lemma_names_gate_if(c4, f4, n);
    lemma_names_gate_if(c5, f5, n);
}

/// A failed gate, for any reason, makes the verdict `fail`; with no failed
/// gate it is `pass` or `needs-attention`.  A failing grading of a
/// required intent, and a static sequence where motion was required,
/// always fail the run and always read as a correctness failure.
pub proof fn law_verdict_follows_gates(inp: GateInputsView, confident: bool)
    ensures
        (spec_verdict(spec_failed_gates(inp).len() == 0, confident) == "fail"@) == (spec_failed_gates(inp).len() > 0),
        inp.require_intent_match && inp.intent_passes != Some(true) ==> spec_failed_gates(inp).len() > 0
            && has_correctness_failure(spec_failed_gates(inp)),
        inp.require_non_static && inp.is_static ==> spec_failed_gates(inp).len() > 0
            && has_correctness_failure(spec_failed_gates(inp)),
        spec_failed_gates(inp).len() == 0 && inp.require_intent_match ==> inp.intent_passes == Some(true),
{
    reveal_strlit("fail");
    reveal_strlit("pass");
    reveal_strlit("needs-attention");
    let g = spec_failed_gates(inp);
    let c1 = gate_if(!inp.is_static && inp.smoothness_below_min, FailedGateView { gate: "smoothness"@, reliability: GateReliability::Advisory, detail: inp.smoothness_detail });
    let c2 = gate_if((inp.jank_event_count as u32) > inp.max_jank_events, FailedGateView { gate: "jank-events"@, reliability: GateReliability::Advisory, detail: jank_detail_text(inp.jank_event_count, inp.max_jank_events) });
    let c3 = gate_if(inp.require_intent_match && !(inp.intent_passes == Some(true)), FailedGateView { gate: "intent-match"@, reliability: GateReliability::Correctness, detail: intent_gate_detail() });
    let c4 = gate_if(coverage_gate_applies(inp) && inp.coverage_below_min, FailedGateView { gate: "coverage"@, reliability: GateReliability::Advisory, detail: inp.coverage_detail });
    let c5 = gate_if(inp.require_non_static && inp.is_static, FailedGateView { gate: "non-static"@, reliability: GateReliability::Correctness, detail: non_static_gate_detail() });
    assert(g == c1 + c2 + c3 + c4 + c5);
    assert("pass"@[0] != "fail"@[0]);
    assert("needs-attention"@.len() != "fail"@.len());
    if inp.require_intent_match && inp.intent_passes != Some(true) {
        let k = c1.len() + c2.len();
        assert(g[k as int] == c3[0]);
        assert(g[k as int].reliability == GateReliability::Correctness);
    }
    if inp.require_non_static && inp.is_static {
        let k = c1.len() + c2.len() + c3.len() + c4.len();
        assert(c5.len() == 1);
        assert(g.len() == k + 1);
        assert(g[k as int] == c5[0]);
        assert(g[k as int].reliability == GateReliability::Correctness);
    }
}

/// The violations a CI gate check finds in a report.  `config_url` and
/// `report_contract_url` are compared only when a contract file is given
/// (`config_url` is then `Some`), and only when both are non-empty or
/// present; `viewport_differs` is the outcome of comparing the two
/// viewports, when both are present; `stale_source` names a source file
/// newer than the report.
pub open spec fn spec_gate_check_violations(
    passes: bool,
    verdict: Seq<char>,
    config_url: Option<Seq<char>>,
    report_contract_url: Option<Seq<char>>,
    viewport_differs: bool,
    stale_source: Option<Seq<char>>,
) -> Seq<Seq<char>> {
    note_if(!passes, "report.passes is not true (verdict="@ + verdict + ")"@) + note_if(
        verdict != "pass"@ && verdict != "needs-attention"@,
        "report.verdict not in {pass, needs-attention}: "@ + verdict,
    ) + (match (config_url, report_contract_url) {
        (Some(c), Some(r)) => note_if(
            c.len() > 0 && c != r,
            "contract URL mismatch (config="@ + c + ", report="@ + r + ")"@,
        ),
        _ => Seq::empty(),
    }) + note_if(viewport_differs, "contract viewport differs from report viewport"@) + (match stale_source {
        Some(p) => seq!["report is stale — "@ + p + " was modified after motionlens-report.json was written"@],
        None => Seq::empty(),
    })
}

/// A report clears the CI check only if it passed with a verdict of
/// `pass` or `needs-attention`, and every report the run itself labels
/// (`verdict` from its own `passes`) is refused when it did not pass.
pub proof fn law_gate_check_requires_pass(
    passes: bool,
    verdict: Seq<char>,
    config_url: Option<Seq<char>>,
    report_contract_url: Option<Seq<char>>,
    viewport_differs: bool,
    stale_source: Option<Seq<char>>,
    confident: bool,
)
    ensures
        spec_gate_check_violations(passes, verdict, config_url, report_contract_url, viewport_differs, stale_source).len()
            == 0 ==> passes && (verdict == "pass"@ || verdict == "needs-attention"@),
        !passes ==> spec_gate_check_violations(
            passes,
            spec_verdict(passes, confident),
            config_url,
            report_contract_url,
            viewport_differs,
            stale_source,
        ).len() > 0,
{
}

pub fn gate_check_violations(
    passes: bool,
    verdict: &str,
    config_url: Option<&str>,
    report_contract_url: Option<&str>,
    viewport_differs: bool,
    stale_source: Option<&str>,
) -> (out: Vec<String>)
    ensures
        string_views(out@) == spec_gate_check_violations(
            passes,
            verdict@,
            match config_url {
                Some(c) => Some(c@),
                None => None,
            },
            match report_contract_url {
                Some(r) => Some(r@),
                None => None,
            },
            viewport_differs,
            match stale_source {
                Some(p) => Some(p@),
                None => None,
            },
        ),
{
    let mut out: Vec<String> = Vec::new();
    let ghost e0 = string_views(out@);
    if !passes {
        let mut t = String::from_str("report.passes is not true (verdict=");
        t.append(verdict);
        t.append(")");
        push_text(&mut out, t);
    }
    let ghost e1 = string_views(out@);
    let known = crate::text::same_text(verdict, "pass") || crate::text::same_text(verdict, "needs-attention");
    if !known {
        let mut t = String::from_str("report.verdict not in {pass, needs-attention}: ");
        t.append(verdict);
        push_text(&mut out, t);
    }
    let ghost e2 = string_views(out@);
    match (config_url, report_contract_url) {
        (Some(c), Some(r)) => {
            if c.unicode_len() > 0 && !crate::text::same_text(c, r) {
                let mut t = String::from_str("contract URL mismatch (config=");
                t.append(c);
                t.append(", report=");
                t.append(r);
                t.append(")");
                push_text(&mut out, t);
            }
        },
        _ => {},
    }
    let ghost e3 = string_views(out@);
    if viewport_differs {
        push_text(&mut out, String::from_str("contract viewport differs from report viewport"));
    }
    let ghost e4 = string_views(out@);
    match stale_source {
        Some(p) => {
            let mut t = String::from_str("report is stale — ");
            t.append(p);
            t.append(" was modified after motionlens-report.json was written");
            push_text(&mut out, t);
        },
        None => {},
    }
    proof {
        assert(e1 =~= e0 + note_if(!passes, "report.passes is not true (verdict="@ + verdict@ + ")"@));
        assert(e2 =~= e1 + note_if(verdict@ != "pass"@ && verdict@ != "needs-attention"@, "report.verdict not in {pass, needs-attention}: "@ + verdict@));
        assert(e4 =~= e3 + note_if(viewport_differs, "contract viewport differs from report viewport"@));
    }
    out
}


/// Directories the freshness check does not descend into: dependencies,
/// build output and version control.
pub open spec fn spec_is_skipped_dir(name: Seq<char>) -> bool {
    name == "node_modules"@ || name == "target"@ || name == "dist"@ || name == "build"@ || name == ".git"@
}

pub fn is_skipped_dir(name: &str) -> (b: bool)
    ensures
        b == spec_is_skipped_dir(name@),
{
    same_text(name, "node_modules") || same_text(name, "target") || same_text(name, "dist") || same_text(name, "build")
        || same_text(name, ".git")
}

/// Front-end source files, by extension: the files whose modification
/// makes a report stale.
pub open spec fn spec_is_frontend_source(path: Seq<char>) -> bool {
    match extension_of(path) {
        Some(e) => e == "ts"@ || e == "tsx"@ || e == "js"@ || e == "jsx"@ || e == "css"@ || e == "scss"@ || e
            == "html"@ || e == "svelte"@ || e == "vue"@,
        None => false,
    }
}

pub fn is_frontend_source(path: &str) -> (b: bool)
    ensures
        b == spec_is_frontend_source(path@),
{
    match extension(path) {
        Some(e) => {
            let x = e.as_str();
            same_text(x, "ts") || same_text(x, "tsx") || same_text(x, "js") || same_text(x, "jsx") || same_text(x, "css")
                || same_text(x, "scss") || same_text(x, "html") || same_text(x, "svelte") || same_text(x, "vue")
        },
        None => false,
    }
}

} // verus!
