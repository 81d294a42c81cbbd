//! The decisions of a motion assessment and of an intent suggestion that
//! do not depend on floating-point arithmetic: merging what each adjacent
//! frame pair showed, the smoothness verdict, the recommendations, and the
//! draft intent a probe suggests.
//!
//! The pixel statistics (mean and spread of the per-pair deltas, the
//! smoothness score) are computed by the caller; they arrive as the
//! outcomes of their threshold comparisons, and where a message quotes
//! them, as rendered text.

use vstd::prelude::*;
use crate::intent::{
    contains_kind, extend_unique_kinds, extend_unique_texts, kind_for_easing_axis, kinds_union, spec_kind_for_axis,
    texts_union, DurationVerdict, IntentMatch, IntentMatchView,
};
use crate::model::{debug_kind_list, kinds_debug_text, motion_category_label, spec_motion_category_label, MotionCategory};
use crate::error::Error;
use crate::text::{debug_list_text, debug_string_list, join_seqs, join_strings, same_text, string_views};

verus! {

/// Why a frame sequence cannot be assessed, checked in this order: fewer
/// than two frames, frames of more than one episode, frames out of time
/// order.  `episode_ids` are the frames' episodes in the given order and
/// `out_of_order` says whether some frame is earlier than the one before.
pub open spec fn assess_refusal(episode_ids: Seq<Seq<char>>, out_of_order: bool) -> Option<Seq<char>> {
    if episode_ids.len() < 2 {
        Some("motion.assess needs at least two frame_ids"@)
    } else if exists|k: int| 0 <= k < episode_ids.len() && #[trigger] episode_ids[k] != episode_ids[0] {
        Some("motion.assess: all frames must belong to the same episode"@)
    } else if out_of_order {
        Some("motion.assess: frame_ids must be in ascending t_ms order"@)
    } else {
        None
    }
}

/// Checks that a frame sequence can be assessed (see `assess_refusal`);
/// the refusal is an invalid-argument error.
pub fn check_assess_frames(episode_ids: &Vec<String>, out_of_order: bool) -> (r: Result<(), Error>)
    ensures
        match assess_refusal(string_views(episode_ids@), out_of_order) {
            None => r is Ok,
            Some(m) => r matches Err(Error::InvalidArgument(e)) && e@ == m,
        },
{
    proof {
        reveal_strlit("motion.assess needs at least two frame_ids");
        reveal_strlit("motion.assess: all frames must belong to the same episode");
        reveal_strlit("motion.assess: frame_ids must be in ascending t_ms order");
    }
    let ghost ids = string_views(episode_ids@);
    let n = episode_ids.len();
    if n < 2 {
        return Err(Error::invalid(String::from_str("motion.assess needs at least two frame_ids")));
    }
    let mut k: usize = 1;
    while k < n
        invariant
            n == episode_ids@.len(),
            ids == string_views(episode_ids@),
            1 <= k <= n,
            forall|j: int| 0 <= j < k ==> #[trigger] ids[j] == ids[0],
        decreases n - k,
    {
        if !same_text(episode_ids[k].as_str(), episode_ids[0].as_str()) {
            proof {
                assert(ids[k as int] != ids[0]);
            }
            return Err(Error::invalid(String::from_str("motion.assess: all frames must belong to the same episode")));
        }
        k = k + 1;
    }
    if out_of_order {
        return Err(Error::invalid(String::from_str("motion.assess: frame_ids must be in ascending t_ms order")));
    }
    Ok(())
}

/// `acc` extended by each list of `lists` in turn, keeping first
/// occurrences only.
pub open spec fn kinds_union_all(acc: Seq<MotionCategory>, lists: Seq<Seq<MotionCategory>>) -> Seq<MotionCategory>
    decreases lists.len(),
{
    if lists.len() == 0 {
        acc
    } else {
        kinds_union(kinds_union_all(acc, lists.drop_last()), lists.last())
    }
}

pub open spec fn texts_union_all(acc: Seq<Seq<char>>, lists: Seq<Seq<Seq<char>>>) -> Seq<Seq<char>>
    decreases lists.len(),
{
    if lists.len() == 0 {
        acc
    } else {
        texts_union(texts_union_all(acc, lists.drop_last()), lists.last())
    }
}

pub open spec fn kind_lists(v: Seq<Vec<MotionCategory>>) -> Seq<Seq<MotionCategory>> {
    v.map_values(|l: Vec<MotionCategory>| l@)
}

pub open spec fn text_lists(v: Seq<Vec<String>>) -> Seq<Seq<Seq<char>>> {
    v.map_values(|l: Vec<String>| string_views(l@))
}

/// The kinds an axis of a fitted easing evidences, in order, each once,
/// appended to `acc` when missing.
pub open spec fn axis_kinds(acc: Seq<MotionCategory>, axes: Seq<Seq<char>>) -> Seq<MotionCategory>
    decreases axes.len(),
{
    if axes.len() == 0 {
        acc
    } else {
        let a = axis_kinds(acc, axes.drop_last());
        match spec_kind_for_axis(axes.last()) {
            Some(k) => if a.contains(k) {
                a
            } else {
                a.push(k)
            },
            None => a,
        }
    }
}

/// The motion kinds an assessment reports: those of each adjacent frame
/// pair, in order of first occurrence, then those evidenced by the axes
/// of the fitted easings.
pub fn detected_kinds(per_transition: &Vec<Vec<MotionCategory>>, fitted_axes: &Vec<String>) -> (out: Vec<MotionCategory>)
    ensures
        out@ == axis_kinds(kinds_union_all(Seq::empty(), kind_lists(per_transition@)), string_views(fitted_axes@)),
{
    let mut out: Vec<MotionCategory> = Vec::new();
    let ghost ls = kind_lists(per_transition@);
    let n = per_transition.len();
    let mut i: usize = 0;
    while i < n
        invariant
            n == per_transition@.len(),
            ls == kind_lists(per_transition@),
            i <= n,
            out@ == kinds_union_all(Seq::empty(), ls.take(i as int)),
        decreases n - i,
    {
        proof {
            assert(ls.take(i + 1).drop_last() =~= ls.take(i as int));
            assert(ls.take(i + 1).last() == per_transition@[i as int]@);
        }
        extend_unique_kinds(&mut out, &per_transition[i]);
        i = i + 1;
    }
    assert(ls.take(n as int) =~= ls);
    let ghost base = out@;
    let ghost av = string_views(fitted_axes@);
    let m = fitted_axes.len();
    let mut j: usize = 0;
    while j < m
        invariant
            m == fitted_axes@.len(),
            av == string_views(fitted_axes@),
            j <= m,
            out@ == axis_kinds(base, av.take(j as int)),
        decreases m - j,
    {
        proof {
            assert(av.take(j + 1).drop_last() =~= av.take(j as int));
            assert(av.take(j + 1).last() == fitted_axes@[j as int]@);
        }
        match kind_for_easing_axis(fitted_axes[j].as_str()) {
            Some(k) => {
                if !contains_kind(&out, k) {
                    out.push(k);
                }
            },
            None => {},
        }
        j = j + 1;
    }
    assert(av.take(m as int) =~= av);
    out
}

/// The union of string lists, each string once, in order of first
/// occurrence (the appeared, disappeared or moved selectors over all
/// adjacent frame pairs).
pub fn union_texts(lists: &Vec<Vec<String>>) -> (out: Vec<String>)
    ensures
        string_views(out@) == texts_union_all(Seq::empty(), text_lists(lists@)),
{
    let mut out: Vec<String> = Vec::new();
    let ghost ls = text_lists(lists@);
    proof {
        assert(string_views(out@) =~= Seq::<Seq<char>>::empty());
    }
    let n = lists.len();
    let mut i: usize = 0;
    while i < n
        invariant
            n == lists@.len(),
            ls == text_lists(lists@),
            i <= n,
            string_views(out@) == texts_union_all(Seq::empty(), ls.take(i as int)),
        decreases n - i,
    {
        proof {
            assert(ls.take(i + 1).drop_last() =~= ls.take(i as int));
            assert(ls.take(i + 1).last() == string_views(lists@[i as int]@));
        }
        extend_unique_texts(&mut out, &lists[i]);
        i = i + 1;
    }
    assert(ls.take(n as int) =~= ls);
    out
}

/// How smooth a sequence reads: `no-motion` when nothing changed,
/// otherwise `good` from a score of 0.8, `acceptable` from 0.6 and `poor`
/// below that.
pub open spec fn spec_smoothness_verdict(is_static: bool, at_least_good: bool, at_least_acceptable: bool) -> Seq<char> {
    if is_static {
        "no-motion"@
    } else if at_least_good {
        "good"@
    } else if at_least_acceptable {
        "acceptable"@
    } else {
        "poor"@
    }
}

pub fn smoothness_verdict(is_static: bool, at_least_good: bool, at_least_acceptable: bool) -> (s: &'static str)
    ensures
        s@ == spec_smoothness_verdict(is_static, at_least_good, at_least_acceptable),
{
    if is_static {
        "no-motion"
    } else if at_least_good {
        "good"
    } else if at_least_acceptable {
        "acceptable"
    } else {
        "poor"
    }
}

/// What the recommendations of an assessment are decided on.
pub struct RecommendationInputs {
    /// The mean per-pair pixel delta is below the no-motion floor.
    pub mean_below_floor: bool,
    /// The smoothness score is below 0.6.
    pub smoothness_low: bool,
    /// The smoothness score is above 0.85.
    pub smoothness_high: bool,
    pub jank_count: usize,
}

pub open spec fn no_motion_advice() -> Seq<char> {
    "Per-frame pixel delta is essentially zero across the sequence; nothing animated. Check whether the animation is registered (timeline.sources), whether the clock actually advanced (clock.status), or whether animation-play-state is 'paused'."@
}

pub open spec fn jank_advice() -> Seq<char> {
    "Smoothness is low and discrete jank events were detected. Consider denser sampling around each jank event with frame.bisect, then decide whether the spike is an intended beat (modal appearing, layout shift) or an unintended jump."@
}

pub open spec fn smooth_advice() -> Seq<char> {
    "Animation is smooth and contains no detected jank under this sampling. If the perceived quality is still off, look at timing (timeline.sources duration vs your sample span) or easing fidelity (sample more densely around the start/end)."@
}

pub open spec fn advice_if(present: bool, a: Seq<char>) -> Seq<Seq<char>> {
    if present {
        seq![a]
    } else {
        Seq::empty()
    }
}

/// The recommendations drawn from a failed grading: missing kinds,
/// forbidden kinds, targets that never moved, and a mismatched duration
/// (whose advice quotes the measured figures and arrives rendered).
pub open spec fn intent_advice(im: IntentMatchView, duration_advice: Seq<char>) -> Seq<Seq<char>> {
    if im.passes {
        Seq::empty()
    } else {
        advice_if(
            im.expected_kinds_missing.len() > 0,
            "Intent declared expected_kinds "@ + kinds_debug_text(im.expected_kinds_missing)
                + " but they were never observed. Either the animation does not implement them or the sampling missed them."@,
        ) + advice_if(
            im.forbidden_kinds_seen.len() > 0,
            "Forbidden motion kinds were observed: "@ + kinds_debug_text(im.forbidden_kinds_seen) + ". Fix the code to remove them."@,
        ) + advice_if(
            im.expected_targets_missing.len() > 0,
            "Intent declared expected_targets "@ + debug_list_text(im.expected_targets_missing)
                + " but they never moved (no bbox / opacity / transform change in any adjacent frame pair). Verify the selectors match the actual elements, or sample more densely."@,
        ) + advice_if(
            im.duration_verdict matches Some(d) && d != DurationVerdict::Match,
            duration_advice,
        )
    }
}

/// The recommendations of an assessment, in report order.
pub open spec fn spec_recommendations(
    r: RecommendationInputs,
    intent: Option<IntentMatchView>,
    duration_advice: Seq<char>,
) -> Seq<Seq<char>> {
    advice_if(r.mean_below_floor, no_motion_advice()) + advice_if(r.smoothness_low && r.jank_count > 0, jank_advice())
        + advice_if(r.smoothness_high && r.jank_count == 0 && !r.mean_below_floor, smooth_advice()) + match intent {
        Some(im) => intent_advice(im, duration_advice),
        None => Seq::empty(),
    }
}

fn push_advice(out: &mut Vec<String>, a: String)
    ensures
        string_views(final(out)@) == string_views(old(out)@).push(a@),
{
    let ghost before = string_views(out@);
    out.push(a);
    proof {
        assert(string_views(out@) =~= before.push(a@));
    }
}

fn append_intent_advice(out: &mut Vec<String>, im: &IntentMatch, duration_advice: &str)
    ensures
        string_views(final(out)@) == string_views(old(out)@) + intent_advice(im@, duration_advice@),
{
    let ghost e3 = string_views(out@);
    if im.passes {
        assert(string_views(out@) =~= e3 + Seq::<Seq<char>>::empty());
        return;
    }
    if im.expected_kinds_missing.len() > 0 {
        let mut a = String::from_str("Intent declared expected_kinds ");
        let l = debug_kind_list(&im.expected_kinds_missing);
        a.append(l.as_str());
        a.append(" but they were never observed. Either the animation does not implement them or the sampling missed them.");
        push_advice(out, a);
    }
    let ghost f1 = string_views(out@);
    assert(f1 =~= e3 + advice_if(im@.expected_kinds_missing.len() > 0, "Intent declared expected_kinds "@ + kinds_debug_text(im@.expected_kinds_missing)
        + " but they were never observed. Either the animation does not implement them or the sampling missed them."@));
    if im.forbidden_kinds_seen.len() > 0 {
        let mut a = String::from_str("Forbidden motion kinds were observed: ");
        let l = debug_kind_list(&im.forbidden_kinds_seen);
        a.append(l.as_str());
        a.append(". Fix the code to remove them.");
        push_advice(out, a);
    }
    let ghost f2 = string_views(out@);
    assert(f2 =~= f1 + advice_if(im@.forbidden_kinds_seen.len() > 0, "Forbidden motion kinds were observed: "@ + kinds_debug_text(im@.forbidden_kinds_seen) + ". Fix the code to remove them."@));
    if im.expected_targets_missing.len() > 0 {
        let mut a = String::from_str("Intent declared expected_targets ");
        let l = debug_string_list(&im.expected_targets_missing);
        a.append(l.as_str());
        a.append(
            " but they never moved (no bbox / opacity / transform change in any adjacent frame pair). Verify the selectors match the actual elements, or sample more densely.",
        );
        push_advice(out, a);
    }
    let ghost f3 = string_views(out@);
    assert(f3 =~= f2 + advice_if(im@.expected_targets_missing.len() > 0, "Intent declared expected_targets "@ + debug_list_text(im@.expected_targets_missing)
        + " but they never moved (no bbox / opacity / transform change in any adjacent frame pair). Verify the selectors match the actual elements, or sample more densely."@));
    let mismatch = match im.duration_verdict {
        Some(d) => d != DurationVerdict::Match,
        None => false,
    };
    if mismatch {
        push_advice(out, String::from_str(duration_advice));
    }
    assert(string_views(out@) =~= f3 + advice_if(im@.duration_verdict matches Some(d) && d != DurationVerdict::Match, duration_advice@));
    assert(string_views(out@) =~= e3 + intent_advice(im@, duration_advice@));
}

/// Assembles the recommendations of an assessment.  `duration_advice` is
/// the rendered duration-mismatch advice, used when the grading's
/// duration verdict is not a match.
///
/// The "mean above the floor" condition of the smooth-motion advice is
/// the negation of `mean_below_floor`.
pub fn recommendations(r: &RecommendationInputs, intent: Option<&IntentMatch>, duration_advice: &str) -> (out: Vec<String>)
    ensures
        string_views(out@) == spec_recommendations(
            *r,
            match intent {
                Some(im) => Some(im@),
                None => None,
            },
            duration_advice@,
        ),
{
    let mut out: Vec<String> = Vec::new();
    let ghost e0 = string_views(out@);
    if r.mean_below_floor {
        push_advice(
            &mut out,
            String::from_str(
                "Per-frame pixel delta is essentially zero across the sequence; nothing animated. Check whether the animation is registered (timeline.sources), whether the clock actually advanced (clock.status), or whether animation-play-state is 'paused'.",
            ),
        );
    }
    let ghost e1 = string_views(out@);
    assert(e1 =~= e0 + advice_if(r.mean_below_floor, no_motion_advice()));
    if r.smoothness_low && r.jank_count > 0 {
        push_advice(
            &mut out,
            String::from_str(
                "Smoothness is low and discrete jank events were detected. Consider denser sampling around each jank event with frame.bisect, then decide whether the spike is an intended beat (modal appearing, layout shift) or an unintended jump.",
            ),
        );
    }
    let ghost e2 = string_views(out@);
    assert(e2 =~= e1 + advice_if(r.smoothness_low && r.jank_count > 0, jank_advice()));
    if r.smoothness_high && r.jank_count == 0 && !r.mean_below_floor {
        push_advice(
            &mut out,
            String::from_str(
                "Animation is smooth and contains no detected jank under this sampling. If the perceived quality is still off, look at timing (timeline.sources duration vs your sample span) or easing fidelity (sample more densely around the start/end).",
            ),
        );
    }
    let ghost e3 = string_views(out@);
    assert(e3 =~= e2 + advice_if(r.smoothness_high && r.jank_count == 0 && !r.mean_below_floor, smooth_advice()));
    match intent {
        Some(im) => {
            append_intent_advice(&mut out, im, duration_advice);
        },
        None => {
            assert(string_views(out@) =~= e3 + Seq::<Seq<char>>::empty());
        },
    }
    out
}

/// The index of the last adjacent frame pair whose delta was active
/// (above a quarter of the mean), if any.
pub open spec fn last_true(active: Seq<bool>) -> Option<int>
    decreases active.len(),
{
    if active.len() == 0 {
        None
    } else if active.last() {
        Some(active.len() - 1)
    } else {
        last_true(active.drop_last())
    }
}

pub fn last_active_pair(active: &Vec<bool>) -> (r: Option<usize>)
    ensures
        match r {
            Some(i) => last_true(active@) == Some(i as int),
            None => last_true(active@) is None,
        },
{
    let mut r: Option<usize> = None;
    let n = active.len();
    let mut i: usize = 0;
    while i < n
        invariant
            n == active@.len(),
            i <= n,
            match r {
                Some(k) => last_true(active@.take(i as int)) == Some(k as int),
                None => last_true(active@.take(i as int)) is None,
            },
        decreases n - i,
    {
        proof {
            assert(active@.take(i + 1).drop_last() =~= active@.take(i as int));
        }
        if active[i] {
            r = Some(i);
        }
        i = i + 1;
    }
    assert(active@.take(n as int) =~= active@);
    r
}

/// The kinds and targets a probe suggests declaring: none for a static
/// page, whose layout drift is not meaningful motion; else what moved.
pub fn suggested_kinds_and_targets(is_static: bool, detected: &Vec<MotionCategory>, moved: &Vec<String>) -> (r: (
    Vec<MotionCategory>,
    Vec<String>,
))
    ensures
        is_static ==> r.0@.len() == 0 && r.1@.len() == 0,
        !is_static ==> r.0@ == detected@ && string_views(r.1@) == string_views(moved@),
{
    if is_static {
        (Vec::new(), Vec::new())
    } else {
        let mut kinds: Vec<MotionCategory> = Vec::new();
        let mut k: usize = 0;
        while k < detected.len()
            invariant
                k <= detected@.len(),
                kinds@ == detected@.take(k as int),
            decreases detected@.len() - k,
        {
            kinds.push(detected[k]);
            assert(detected@.take(k + 1) =~= detected@.take(k as int).push(detected@[k as int]));
            k = k + 1;
        }
        assert(detected@.take(detected@.len() as int) =~= detected@);
        let mut targets: Vec<String> = Vec::new();
        let mut j: usize = 0;
        while j < moved.len()
            invariant
                j <= moved@.len(),
                string_views(targets@) == string_views(moved@).take(j as int),
            decreases moved@.len() - j,
        {
            let ghost before = string_views(targets@);
            targets.push(moved[j].clone());
            assert(string_views(targets@) =~= before.push(moved@[j as int]@));
            assert(string_views(moved@).take(j + 1) =~= string_views(moved@).take(j as int).push(moved@[j as int]@));
            j = j + 1;
        }
        assert(string_views(moved@).take(moved@.len() as int) =~= string_views(moved@));
        (kinds, targets)
    }
}

/// How a suggested intent names the kinds it saw: their labels joined by
/// ` + `, or `pixel-level motion` when none was classified.
pub open spec fn spec_kinds_phrase(kinds: Seq<MotionCategory>) -> Seq<char> {
    if kinds.len() == 0 {
        "pixel-level motion"@
    } else {
        join_seqs(kinds.map_values(|c: MotionCategory| spec_motion_category_label(c)), " + "@)
    }
}

pub fn kinds_phrase(kinds: &Vec<MotionCategory>) -> (s: String)
    ensures
        s@ == spec_kinds_phrase(kinds@),
{
    if kinds.len() == 0 {
        return String::from_str("pixel-level motion");
    }
    let mut labels: Vec<String> = Vec::new();
    let n = kinds.len();
    let mut i: usize = 0;
    while i < n
        invariant
            n == kinds@.len(),
            i <= n,
            labels@.len() == i,
            forall|j: int| 0 <= j < i ==> #[trigger] labels@[j]@ == spec_motion_category_label(kinds@[j]),
        decreases n - i,
    {
        labels.push(String::from_str(motion_category_label(&kinds[i])));
        i = i + 1;
    }
    proof {
        assert(string_views(labels@) =~= kinds@.map_values(|c: MotionCategory| spec_motion_category_label(c)));
    }
    join_strings(&labels, " + ")
}

pub open spec fn unlocated_motion_note() -> Seq<char> {
    "Pixels changed but no stable selector was identified — the layout probe found no element whose bbox / opacity / transform shifted. Either the animation is on an unsemantic element (canvas / SVG) or `focus_selectors` excluded it."@
}

/// Whether a probe should say that pixels moved without any element to
/// pin the motion on, and the note it gives then.
pub fn unlocated_motion(is_static: bool, suggested_targets: &Vec<String>) -> (r: Option<&'static str>)
    ensures
        match r {
            Some(n) => !is_static && suggested_targets@.len() == 0 && n@ == unlocated_motion_note(),
            None => is_static || suggested_targets@.len() > 0,
        },
{
    if suggested_targets.len() == 0 && !is_static {
        Some(
            "Pixels changed but no stable selector was identified — the layout probe found no element whose bbox / opacity / transform shifted. Either the animation is on an unsemantic element (canvas / SVG) or `focus_selectors` excluded it.",
        )
    } else {
        None
    }
}

} // verus!
