//! Grading a recorded motion against the intent an agent declared for it.
//!
//! The inputs are what the assessment found (the motion kinds detected,
//! the selectors that moved, appeared or disappeared) and what the agent
//! declared (kinds it expects, kinds it forbids, selectors it expects to
//! move, and optionally a duration and an easing).  The duration ratio is
//! a floating-point measurement; it reaches this module as the outcome of
//! its two threshold comparisons.

use vstd::prelude::*;
use crate::model::{easing_hint_label, spec_easing_hint_label, EasingHint, EasingMatch, EasingMatchView, MotionCategory};
use crate::text::{same_text, string_views};
use crate::scroll::ScrollRangeVerdict;

verus! {

/// The parts of an episode intent that grading reads.
pub struct DeclaredIntent {
    pub description: String,
    pub expected_kinds: Vec<MotionCategory>,
    pub expected_targets: Vec<String>,
    pub forbidden_kinds: Vec<MotionCategory>,
    pub expected_easing: Option<EasingHint>,
}

/// Outcome of comparing the observed motion span with the declared duration.
#[derive(Debug, Clone, Copy, PartialEq, Eq, Structural)]
pub enum DurationVerdict {
    Match,
    TooShort,
    TooLong,
}

pub open spec fn spec_duration_verdict_label(v: DurationVerdict) -> Seq<char> {
    match v {
        DurationVerdict::Match => "match"@,
        DurationVerdict::TooShort => "too-short"@,
        DurationVerdict::TooLong => "too-long"@,
    }
}

impl DurationVerdict {
    /// The report label: `match`, `too-short` or `too-long`.
    pub fn label(&self) -> (s: &'static str)
        ensures
            s@ == spec_duration_verdict_label(*self),
    {
        match self {
            DurationVerdict::Match => "match",
            DurationVerdict::TooShort => "too-short",
            DurationVerdict::TooLong => "too-long",
        }
    }
}

/// The duration verdict for an observed/expected ratio, given the outcome
/// of `ratio <= 1.2` and of `ratio < 0.8`.  When the span was measured on
/// the declared targets themselves only an overrun fails; when it falls
/// back to the whole sample window both bounds apply.
pub open spec fn spec_duration_verdict(span_from_targets: bool, at_most_upper: bool, below_lower: bool) -> DurationVerdict {
    if span_from_targets {
        if at_most_upper {
            DurationVerdict::Match
        } else {
            DurationVerdict::TooLong
        }
    } else if at_most_upper && !below_lower {
        DurationVerdict::Match
    } else if below_lower {
        DurationVerdict::TooShort
    } else {
        DurationVerdict::TooLong
    }
}

pub fn duration_verdict(span_from_targets: bool, at_most_upper: bool, below_lower: bool) -> (v: DurationVerdict)
    ensures
        v == spec_duration_verdict(span_from_targets, at_most_upper, below_lower),
{
    if span_from_targets {
        if at_most_upper {
            DurationVerdict::Match
        } else {
            DurationVerdict::TooLong
        }
    } else if at_most_upper && !below_lower {
        DurationVerdict::Match
    } else if below_lower {
        DurationVerdict::TooShort
    } else {
        DurationVerdict::TooLong
    }
}

/// The kinds of `xs`, in order, that are (`present`) or are not (`!present`)
/// among `ys`.
pub open spec fn kinds_kept(xs: Seq<MotionCategory>, ys: Seq<MotionCategory>, present: bool) -> Seq<MotionCategory> {
    xs.filter(|k: MotionCategory| ys.contains(k) == present)
}

/// The texts of `xs`, in order, that are (`present`) or are not
/// (`!present`) among `ys`.
pub open spec fn texts_kept(xs: Seq<Seq<char>>, ys: Seq<Seq<char>>, present: bool) -> Seq<Seq<char>> {
    xs.filter(|t: Seq<char>| ys.contains(t) == present)
}

/// Whether some text of `xs` is among `targets`.
pub open spec fn shares_any(xs: Seq<Seq<char>>, targets: Seq<Seq<char>>) -> bool {
    exists|i: int| 0 <= i < xs.len() && targets.contains(#[trigger] xs[i])
}

/// Whether a forbidden kind `k` counts as seen.  It must have been
/// detected.  When targets were declared it is further scoped to them: an
/// appearance (disappearance) counts only if a target appeared
/// (disappeared), any other kind only if a target moved.
pub open spec fn forbidden_counts(
    k: MotionCategory,
    detected: Seq<MotionCategory>,
    targets: Seq<Seq<char>>,
    moved: Seq<Seq<char>>,
    appeared: Seq<Seq<char>>,
    disappeared: Seq<Seq<char>>,
) -> bool {
    &&& detected.contains(k)
    &&& (targets.len() == 0 || match k {
        MotionCategory::Appearance => shares_any(appeared, targets),
        MotionCategory::Disappearance => shares_any(disappeared, targets),
        _ => shares_any(moved, targets),
    })
}

pub open spec fn forbidden_seen(
    forbidden: Seq<MotionCategory>,
    detected: Seq<MotionCategory>,
    targets: Seq<Seq<char>>,
    moved: Seq<Seq<char>>,
    appeared: Seq<Seq<char>>,
    disappeared: Seq<Seq<char>>,
) -> Seq<MotionCategory> {
    forbidden.filter(|k: MotionCategory| forbidden_counts(k, detected, targets, moved, appeared, disappeared))
}

/// The result of grading a motion against a declared intent.
pub struct IntentMatch {
    pub description: String,
    pub expected_kinds_seen: Vec<MotionCategory>,
    pub expected_kinds_missing: Vec<MotionCategory>,
    pub forbidden_kinds_seen: Vec<MotionCategory>,
    pub expected_targets_seen: Vec<String>,
    pub expected_targets_missing: Vec<String>,
    pub duration_verdict: Option<DurationVerdict>,
    pub easing_match: Option<EasingMatch>,
    /// The scroll-range comparison, when the scroll recipe made one.
    pub scroll_range: Option<ScrollRangeVerdict>,
    pub passes: bool,
}

pub struct IntentMatchView {
    pub description: Seq<char>,
    pub expected_kinds_seen: Seq<MotionCategory>,
    pub expected_kinds_missing: Seq<MotionCategory>,
    pub forbidden_kinds_seen: Seq<MotionCategory>,
    pub expected_targets_seen: Seq<Seq<char>>,
    pub expected_targets_missing: Seq<Seq<char>>,
    pub duration_verdict: Option<DurationVerdict>,
    pub easing_match: Option<EasingMatchView>,
    pub scroll_range: Option<ScrollRangeVerdict>,
    pub passes: bool,
}

impl View for IntentMatch {
    type V = IntentMatchView;

    open spec fn view(&self) -> IntentMatchView {
        IntentMatchView {
            description: self.description@,
            expected_kinds_seen: self.expected_kinds_seen@,
            expected_kinds_missing: self.expected_kinds_missing@,
            forbidden_kinds_seen: self.forbidden_kinds_seen@,
            expected_targets_seen: string_views(self.expected_targets_seen@),
            expected_targets_missing: string_views(self.expected_targets_missing@),
            duration_verdict: self.duration_verdict,
            easing_match: match self.easing_match {
                Some(e) => Some(e@),
                None => None,
            },
            scroll_range: self.scroll_range,
            passes: self.passes,
        }
    }
}

pub struct DeclaredIntentView {
    pub description: Seq<char>,
    pub expected_kinds: Seq<MotionCategory>,
    pub expected_targets: Seq<Seq<char>>,
    pub forbidden_kinds: Seq<MotionCategory>,
    pub expected_easing: Option<EasingHint>,
}

impl View for DeclaredIntent {
    type V = DeclaredIntentView;

    open spec fn view(&self) -> DeclaredIntentView {
        DeclaredIntentView {
            description: self.description@,
            expected_kinds: self.expected_kinds@,
            expected_targets: string_views(self.expected_targets@),
            forbidden_kinds: self.forbidden_kinds@,
            expected_easing: self.expected_easing,
        }
    }
}

/// Whether kinds, targets and duration all agree with the intent.
pub open spec fn grading_passes(
    kinds_missing: Seq<MotionCategory>,
    forbidden: Seq<MotionCategory>,
    targets_missing: Seq<Seq<char>>,
    duration: Option<DurationVerdict>,
) -> bool {
    &&& kinds_missing.len() == 0
    &&& forbidden.len() == 0
    &&& targets_missing.len() == 0
    &&& (duration matches Some(d) ==> d == DurationVerdict::Match)
}

/// What grading an intent yields, before any easing comparison.
pub open spec fn spec_intent_match(
    intent: DeclaredIntentView,
    detected: Seq<MotionCategory>,
    moved: Seq<Seq<char>>,
    appeared: Seq<Seq<char>>,
    disappeared: Seq<Seq<char>>,
    duration: Option<DurationVerdict>,
) -> IntentMatchView {
    let kinds_missing = kinds_kept(intent.expected_kinds, detected, false);
    let forbidden = forbidden_seen(intent.forbidden_kinds, detected, intent.expected_targets, moved, appeared, disappeared);
    let targets_missing = texts_kept(intent.expected_targets, moved, false);
    IntentMatchView {
        description: intent.description,
        expected_kinds_seen: kinds_kept(intent.expected_kinds, detected, true),
        expected_kinds_missing: kinds_missing,
        forbidden_kinds_seen: forbidden,
        expected_targets_seen: texts_kept(intent.expected_targets, moved, true),
        expected_targets_missing: targets_missing,
        duration_verdict: duration,
        easing_match: None,
        scroll_range: None,
        passes: grading_passes(kinds_missing, forbidden, targets_missing, duration),
    }
}

/// Whether `k` is in `v`.
pub fn contains_kind(v: &Vec<MotionCategory>, k: MotionCategory) -> (b: bool)
    ensures
        b == v@.contains(k),
{
    let n = v.len();
    let mut i: usize = 0;
    while i < n
        invariant
            n == v@.len(),
            i <= n,
            forall|j: int| 0 <= j < i ==> v@[j] != k,
        decreases n - i,
    {
        if v[i] == k {
            return true;
        }
        i = i + 1;
    }
    false
}

/// Whether a string equal to `s` is in `v`.
pub fn contains_text(v: &Vec<String>, s: &String) -> (b: bool)
    ensures
        b == string_views(v@).contains(s@),
{
    let n = v.len();
    let mut i: usize = 0;
    while i < n
        invariant
            n == v@.len(),
            i <= n,
            forall|j: int| 0 <= j < i ==> v@[j]@ != s@,
        decreases n - i,
    {
        if v[i] == *s {
            assert(string_views(v@)[i as int] == s@);
            return true;
        }
        i = i + 1;
    }
    assert(!string_views(v@).contains(s@)) by {
        if string_views(v@).contains(s@) {
            let j = choose|j: int| 0 <= j < string_views(v@).len() && string_views(v@)[j] == s@;
            assert(v@[j]@ == s@);
        }
    }
    false
}

/// The kinds of `xs`, in order, whose membership in `ys` is `present`.
pub fn keep_kinds(xs: &Vec<MotionCategory>, ys: &Vec<MotionCategory>, present: bool) -> (out: Vec<MotionCategory>)
    ensures
        out@ == kinds_kept(xs@, ys@, present),
{
    let mut out: Vec<MotionCategory> = Vec::new();
    let n = xs.len();
    let mut i: usize = 0;
    while i < n
        invariant
            n == xs@.len(),
            i <= n,
            out@ == kinds_kept(xs@.take(i as int), ys@, present),
        decreases n - i,
    {
        let k = xs[i];
        proof {
            assert(xs@.take(i + 1).drop_last() =~= xs@.take(i as int));
            assert(xs@.take(i + 1).last() == k);
            reveal(Seq::filter);
        }
        if contains_kind(ys, k) == present {
            out.push(k);
        }
        i = i + 1;
    }
    assert(xs@.take(n as int) =~= xs@);
    out
}

/// The strings of `xs`, in order, whose membership in `ys` is `present`.
pub fn keep_texts(xs: &Vec<String>, ys: &Vec<String>, present: bool) -> (out: Vec<String>)
    ensures
        string_views(out@) == texts_kept(string_views(xs@), string_views(ys@), present),
{
    let mut out: Vec<String> = Vec::new();
    let n = xs.len();
    let ghost xv = string_views(xs@);
    let mut i: usize = 0;
    while i < n
        invariant
            n == xs@.len(),
            xv == string_views(xs@),
            i <= n,
            string_views(out@) == texts_kept(xv.take(i as int), string_views(ys@), present),
        decreases n - i,
    {
        proof {
            assert(xv.take(i + 1).drop_last() =~= xv.take(i as int));
            assert(xv.take(i + 1).last() == xs@[i as int]@);
            reveal(Seq::filter);
        }
        if contains_text(ys, &xs[i]) == present {
            let ghost before = out@;
            out.push(xs[i].clone());
            proof {
                assert(string_views(out@) =~= string_views(before).push(xs@[i as int]@));
            }
        }
        i = i + 1;
    }
    assert(xv.take(n as int) =~= xv);
    out
}

/// Whether some string of `xs` equals some string of `targets`.
pub fn shares_any_text(xs: &Vec<String>, targets: &Vec<String>) -> (b: bool)
    ensures
        b == shares_any(string_views(xs@), string_views(targets@)),
{
    let n = xs.len();
    let mut i: usize = 0;
    while i < n
        invariant
            n == xs@.len(),
            i <= n,
            forall|j: int| 0 <= j < i ==> !string_views(targets@).contains(#[trigger] string_views(xs@)[j]),
        decreases n - i,
    {
        if contains_text(targets, &xs[i]) {
            assert(string_views(targets@).contains(string_views(xs@)[i as int]));
            return true;
        }
        i = i + 1;
    }
    false
}

/// Grades a detected motion against `intent`.  `duration` is the verdict
/// of the duration comparison, present when the intent declared an
/// expected duration.  The easing comparison is folded in afterwards by
/// [`fold_easing_match`].
pub fn build_intent_match(
    intent: &DeclaredIntent,
    detected: &Vec<MotionCategory>,
    moved: &Vec<String>,
    appeared: &Vec<String>,
    disappeared: &Vec<String>,
    duration: Option<DurationVerdict>,
) -> (m: IntentMatch)
    ensures
        m@ == spec_intent_match(intent@, detected@, string_views(moved@), string_views(appeared@), string_views(disappeared@), duration),
{
    let seen = keep_kinds(&intent.expected_kinds, detected, true);
    let missing = keep_kinds(&intent.expected_kinds, detected, false);
    let targets = &intent.expected_targets;
    let page_wide = targets.len() == 0;
    let in_appeared = shares_any_text(appeared, targets);
    let in_disappeared = shares_any_text(disappeared, targets);
    let in_moved = shares_any_text(moved, targets);
    let ghost tv = string_views(targets@);
    let ghost mv = string_views(moved@);
    let ghost av = string_views(appeared@);
    let ghost dv = string_views(disappeared@);
    let forb = &intent.forbidden_kinds;
    let mut forbidden: Vec<MotionCategory> = Vec::new();
    let n = forb.len();
    let mut i: usize = 0;
    while i < n
        invariant
            n == forb@.len(),
            i <= n,
            page_wide == (tv.len() == 0),
            tv == string_views(targets@),
            in_appeared == shares_any(av, tv),
            in_disappeared == shares_any(dv, tv),
            in_moved == shares_any(mv, tv),
            forbidden@ == forbidden_seen(forb@.take(i as int), detected@, tv, mv, av, dv),
        decreases n - i,
    {
        let k = forb[i];
        proof {
            assert(forb@.take(i + 1).drop_last() =~= forb@.take(i as int));
            assert(forb@.take(i + 1).last() == k);
            reveal(Seq::filter);
        }
        let scoped = match k {
            MotionCategory::Appearance => in_appeared,
            MotionCategory::Disappearance => in_disappeared,
            _ => in_moved,
        };
        if contains_kind(detected, k) && (page_wide || scoped) {
            forbidden.push(k);
        }
        i = i + 1;
    }
    assert(forb@.take(n as int) =~= forb@);
    let targets_seen = keep_texts(targets, moved, true);
    let targets_missing = keep_texts(targets, moved, false);
    let duration_ok = match duration {
        Some(d) => d == DurationVerdict::Match,
        None => true,
    };
    let passes = missing.len() == 0 && forbidden.len() == 0 && targets_missing.len() == 0 && duration_ok;
    IntentMatch {
        description: intent.description.clone(),
        expected_kinds_seen: seen,
        expected_kinds_missing: missing,
        forbidden_kinds_seen: forbidden,
        expected_targets_seen: targets_seen,
        expected_targets_missing: targets_missing,
        duration_verdict: duration,
        easing_match: None,
        scroll_range: None,
        passes,
    }
}


/// Number of entries of `s` equal to `x`.
pub open spec fn occurrences(s: Seq<Seq<char>>, x: Seq<char>) -> nat {
    s.filter(|y: Seq<char>| y == x).len()
}

/// `l` occurs in `s` at least as often as any other entry.
pub open spec fn is_mode(s: Seq<Seq<char>>, l: Seq<char>) -> bool {
    &&& s.contains(l)
    &&& forall|y: Seq<char>| s.contains(y) ==> occurrences(s, y) <= occurrences(s, l)
}

/// How often `x` occurs in `v`.
fn count_text(v: &Vec<String>, x: &String) -> (c: usize)
    ensures
        c == occurrences(string_views(v@), x@),
{
    let ghost sv = string_views(v@);
    let n = v.len();
    let mut c: usize = 0;
    let mut i: usize = 0;
    while i < n
        invariant
            n == v@.len(),
            sv == string_views(v@),
            i <= n,
            c == occurrences(sv.take(i as int), x@),
            c <= i,
        decreases n - i,
    {
        proof {
            assert(sv.take(i + 1).drop_last() =~= sv.take(i as int));
            assert(sv.take(i + 1).last() == v@[i as int]@);
            reveal(Seq::filter);
        }
        if v[i] == *x {
            c = c + 1;
        }
        i = i + 1;
    }
    assert(sv.take(n as int) =~= sv);
    c
}

/// A most frequent entry of `labels`; `None` when there is none.  Among
/// entries that tie, which one comes back is left open.
pub fn most_frequent(labels: &Vec<String>) -> (r: Option<String>)
    ensures
        match r {
            None => labels@.len() == 0,
            Some(l) => is_mode(string_views(labels@), l@),
        },
{
    let n = labels.len();
    if n == 0 {
        return None;
    }
    let ghost sv = string_views(labels@);
    let mut best: usize = 0;
    let mut best_count: usize = count_text(labels, &labels[0]);
    let mut i: usize = 1;
    while i < n
        invariant
            n == labels@.len(),
            sv == string_views(labels@),
            0 < i <= n,
            best < n,
            best_count == occurrences(sv, sv[best as int]),
            forall|j: int| 0 <= j < i ==> occurrences(sv, #[trigger] sv[j]) <= best_count,
        decreases n - i,
    {
        let c = count_text(labels, &labels[i]);
        if c > best_count {
            best = i;
            best_count = c;
        }
        i = i + 1;
    }
    let r = labels[best].clone();
    proof {
        assert(sv[best as int] == r@);
        assert forall|y: Seq<char>| sv.contains(y) implies occurrences(sv, y) <= occurrences(sv, r@) by {
            let j = choose|j: int| 0 <= j < sv.len() && sv[j] == y;
            assert(occurrences(sv, sv[j]) <= best_count);
        }
    }
    Some(r)
}

/// The easing comparison folded into a grading: `observed` is a most
/// frequent fitted easing label (`unknown` when nothing was fitted), and
/// the comparison passes when it equals the declared easing's label.  A
/// failing comparison fails the whole grading; everything else is kept.
pub open spec fn easing_folded(m: IntentMatchView, expected: EasingHint, fitted: Seq<Seq<char>>, r: IntentMatchView) -> bool {
    r.easing_match matches Some(e) && {
        &&& e.expected == spec_easing_hint_label(expected)
        &&& (if fitted.len() == 0 {
            e.observed == "unknown"@ && !e.passes
        } else {
            is_mode(fitted, e.observed) && e.passes == (e.observed == spec_easing_hint_label(expected))
        })
        &&& r.passes == (m.passes && e.passes)
        &&& r == IntentMatchView { easing_match: Some(e), passes: r.passes, ..m }
    }
}

/// Folds the declared easing into a grading, comparing it with the most
/// frequent of the easing labels fitted to the moving targets.
pub fn fold_easing_match(m: IntentMatch, expected: EasingHint, fitted: &Vec<String>) -> (r: IntentMatch)
    ensures
        easing_folded(m@, expected, string_views(fitted@), r@),
{
    proof {
        reveal_strlit("unknown");
    }
    let label = easing_hint_label(expected);
    let (observed, easing_passes) = match most_frequent(fitted) {
        Some(o) => {
            let p = same_text(o.as_str(), label);
            (o, p)
        },
        None => (String::from_str("unknown"), false),
    };
    let e = EasingMatch { expected: String::from_str(label), observed, passes: easing_passes };
    let passes = m.passes && easing_passes;
    IntentMatch { easing_match: Some(e), passes, ..m }
}

/// The scroll-range comparison folded into a grading: it is recorded,
/// and the grading passes only if it passed before and the sampled range
/// matches the declared one.
pub open spec fn scroll_range_folded(m: IntentMatchView, v: ScrollRangeVerdict) -> IntentMatchView {
    IntentMatchView { scroll_range: Some(v), passes: m.passes && v == ScrollRangeVerdict::Match, ..m }
}

/// Folds the scroll-range verdict of the scroll recipe into a grading.
pub fn fold_scroll_range(m: IntentMatch, v: ScrollRangeVerdict) -> (r: IntentMatch)
    ensures
        r@ == scroll_range_folded(m@, v),
{
    let passes = m.passes && v == ScrollRangeVerdict::Match;
    IntentMatch { scroll_range: Some(v), passes, ..m }
}

/// A grading that carries a scroll-range comparison passes only if the
/// range matched; folding one in never turns a failing grading into a
/// passing one, and leaves every other finding as it was.
pub proof fn law_scroll_range_gates_passes(m: IntentMatchView, v: ScrollRangeVerdict)
    ensures
        scroll_range_folded(m, v).passes ==> v == ScrollRangeVerdict::Match && m.passes,
        scroll_range_folded(m, v).scroll_range == Some(v),
        scroll_range_folded(m, v).expected_kinds_missing == m.expected_kinds_missing,
        scroll_range_folded(m, v).expected_targets_missing == m.expected_targets_missing,
        scroll_range_folded(m, v).forbidden_kinds_seen == m.forbidden_kinds_seen,
        m.passes && v == ScrollRangeVerdict::Match ==> scroll_range_folded(m, v).passes,
{
}

/// The motion kind an easing fit on `axis` evidences: translation for
/// the translate axes, a fade for opacity.
pub open spec fn spec_kind_for_axis(axis: Seq<char>) -> Option<MotionCategory> {
    if axis == "transform-translate-x"@ || axis == "transform-translate-y"@ || axis == "translate-x"@
        || axis == "translate-y"@ {
        Some(MotionCategory::Translate)
    } else if axis == "opacity"@ {
        Some(MotionCategory::Fade)
    } else {
        None
    }
}

pub fn kind_for_easing_axis(axis: &str) -> (k: Option<MotionCategory>)
    ensures
        k == spec_kind_for_axis(axis@),
{
    if same_text(axis, "transform-translate-x") || same_text(axis, "transform-translate-y")
        || same_text(axis, "translate-x") || same_text(axis, "translate-y") {
        Some(MotionCategory::Translate)
    } else if same_text(axis, "opacity") {
        Some(MotionCategory::Fade)
    } else {
        None
    }
}

/// `acc` followed by the entries of `xs` it does not hold yet, each once,
/// in order of first occurrence.
pub open spec fn kinds_union(acc: Seq<MotionCategory>, xs: Seq<MotionCategory>) -> Seq<MotionCategory>
    decreases xs.len(),
{
    if xs.len() == 0 {
        acc
    } else {
        let a = kinds_union(acc, xs.drop_last());
        if a.contains(xs.last()) {
            a
        } else {
            a.push(xs.last())
        }
    }
}

pub open spec fn texts_union(acc: Seq<Seq<char>>, xs: Seq<Seq<char>>) -> Seq<Seq<char>>
    decreases xs.len(),
{
    if xs.len() == 0 {
        acc
    } else {
        let a = texts_union(acc, xs.drop_last());
        if a.contains(xs.last()) {
            a
        } else {
            a.push(xs.last())
        }
    }
}

/// Appends to `dst` the kinds of `xs` it does not hold yet.
pub fn extend_unique_kinds(dst: &mut Vec<MotionCategory>, xs: &Vec<MotionCategory>)
    ensures
        final(dst)@ == kinds_union(old(dst)@, xs@),
{
    let ghost start = dst@;
    let n = xs.len();
    let mut i: usize = 0;
    while i < n
        invariant
            n == xs@.len(),
            i <= n,
            dst@ == kinds_union(start, xs@.take(i as int)),
        decreases n - i,
    {
        proof {
            assert(xs@.take(i + 1).drop_last() =~= xs@.take(i as int));
            assert(xs@.take(i + 1).last() == xs@[i as int]);
        }
        if !contains_kind(dst, xs[i]) {
            dst.push(xs[i]);
        }
        i = i + 1;
    }
    assert(xs@.take(n as int) =~= xs@);
}

/// Appends to `dst` the strings of `xs` it does not hold yet.
pub fn extend_unique_texts(dst: &mut Vec<String>, xs: &Vec<String>)
    ensures
        string_views(final(dst)@) == texts_union(string_views(old(dst)@), string_views(xs@)),
{
    let ghost start = string_views(dst@);
    let ghost xv = string_views(xs@);
    let n = xs.len();
    let mut i: usize = 0;
    while i < n
        invariant
            n == xs@.len(),
            xv == string_views(xs@),
            i <= n,
            string_views(dst@) == texts_union(start, xv.take(i as int)),
        decreases n - i,
    {
        proof {
            assert(xv.take(i + 1).drop_last() =~= xv.take(i as int));
            assert(xv.take(i + 1).last() == xs@[i as int]@);
        }
        if !contains_text(dst, &xs[i]) {
            let ghost before = dst@;
            dst.push(xs[i].clone());
            proof {
                assert(string_views(dst@) =~= string_views(before).push(xs@[i as int]@));
            }
        }
        i = i + 1;
    }
    assert(xv.take(n as int) =~= xv);
}


proof fn lemma_filter_member<A>(xs: Seq<A>, p: spec_fn(A) -> bool, x: A)
    ensures
        xs.filter(p).contains(x) == (xs.contains(x) && p(x)),
{
    broadcast use vstd::seq_lib::group_filter_ensures;

    if xs.filter(p).contains(x) {
        xs.lemma_filter_contains_rev(p, x);
        let i = choose|i: int| 0 <= i < xs.filter(p).len() && xs.filter(p)[i] == x;
        assert(p(xs.filter(p)[i]));
    }
    if xs.contains(x) && p(x) {
        let i = choose|i: int| 0 <= i < xs.len() && xs[i] == x;
        assert(xs.filter(p).contains(xs[i]));
    }
}

proof fn lemma_filter_complement<A>(xs: Seq<A>, p: spec_fn(A) -> bool, q: spec_fn(A) -> bool)
    requires
        forall|x: A| #[trigger] p(x) == !q(x),
    ensures
        xs.filter(p).len() + xs.filter(q).len() == xs.len(),
    decreases xs.len(),
{
    reveal(Seq::filter);
    if xs.len() > 0 {
        lemma_filter_complement(xs.drop_last(), p, q);
        assert(p(xs.last()) == !q(xs.last()));
    }
}

proof fn lemma_filter_same<A>(xs: Seq<A>, p: spec_fn(A) -> bool, q: spec_fn(A) -> bool)
    requires
        forall|x: A| xs.contains(x) ==> #[trigger] p(x) == q(x),
    ensures
        xs.filter(p) == xs.filter(q),
    decreases xs.len(),
{
    reveal(Seq::filter);
    if xs.len() > 0 {
        let d = xs.drop_last();
        assert forall|x: A| d.contains(x) implies #[trigger] p(x) == q(x) by {
            let i = choose|i: int| 0 <= i < d.len() && d[i] == x;
            assert(xs[i] == x);
        }
        lemma_filter_same(d, p, q);
        assert(xs.contains(xs.last()));
    }
}

/// Every expected kind is reported exactly once: as seen when it was
/// detected, as missing when it was not.  Nothing else is reported.
pub proof fn law_expected_kinds_partition(expected: Seq<MotionCategory>, detected: Seq<MotionCategory>)
    ensures
        kinds_kept(expected, detected, true).len() + kinds_kept(expected, detected, false).len() == expected.len(),
        forall|k: MotionCategory| #[trigger] kinds_kept(expected, detected, true).contains(k) == (expected.contains(k) && detected.contains(k)),
        forall|k: MotionCategory| #[trigger] kinds_kept(expected, detected, false).contains(k) == (expected.contains(k) && !detected.contains(k)),
{
    let p = |k: MotionCategory| detected.contains(k) == true;
    let q = |k: MotionCategory| detected.contains(k) == false;
    lemma_filter_complement(expected, p, q);
    assert forall|k: MotionCategory| #[trigger] kinds_kept(expected, detected, true).contains(k) == (expected.contains(k) && detected.contains(k)) by {
        lemma_filter_member(expected, p, k);
    }
    assert forall|k: MotionCategory| #[trigger] kinds_kept(expected, detected, false).contains(k) == (expected.contains(k) && !detected.contains(k)) by {
        lemma_filter_member(expected, q, k);
    }
}

/// Every expected target is reported exactly once: as seen when it moved,
/// as missing when it did not.  Nothing else is reported.
pub proof fn law_expected_targets_partition(targets: Seq<Seq<char>>, moved: Seq<Seq<char>>)
    ensures
        texts_kept(targets, moved, true).len() + texts_kept(targets, moved, false).len() == targets.len(),
        forall|t: Seq<char>| #[trigger] texts_kept(targets, moved, true).contains(t) == (targets.contains(t) && moved.contains(t)),
        forall|t: Seq<char>| #[trigger] texts_kept(targets, moved, false).contains(t) == (targets.contains(t) && !moved.contains(t)),
{
    let p = |t: Seq<char>| moved.contains(t) == true;
    let q = |t: Seq<char>| moved.contains(t) == false;
    lemma_filter_complement(targets, p, q);
    assert forall|t: Seq<char>| #[trigger] texts_kept(targets, moved, true).contains(t) == (targets.contains(t) && moved.contains(t)) by {
        lemma_filter_member(targets, p, t);
    }
    assert forall|t: Seq<char>| #[trigger] texts_kept(targets, moved, false).contains(t) == (targets.contains(t) && !moved.contains(t)) by {
        lemma_filter_member(targets, q, t);
    }
}

/// A forbidden kind is reported only if it was declared forbidden and
/// detected; with no declared targets every detected forbidden kind is
/// reported.
pub proof fn law_forbidden_kinds(
    forbidden: Seq<MotionCategory>,
    detected: Seq<MotionCategory>,
    targets: Seq<Seq<char>>,
    moved: Seq<Seq<char>>,
    appeared: Seq<Seq<char>>,
    disappeared: Seq<Seq<char>>,
)
    ensures
        forall|k: MotionCategory| #[trigger] forbidden_seen(forbidden, detected, targets, moved, appeared, disappeared).contains(k)
            ==> forbidden.contains(k) && detected.contains(k),
        targets.len() == 0 ==> forbidden_seen(forbidden, detected, targets, moved, appeared, disappeared) == kinds_kept(forbidden, detected, true),
{
    let p = |k: MotionCategory| forbidden_counts(k, detected, targets, moved, appeared, disappeared);
    assert forall|k: MotionCategory| #[trigger] forbidden_seen(forbidden, detected, targets, moved, appeared, disappeared).contains(k)
        implies forbidden.contains(k) && detected.contains(k) by {
        lemma_filter_member(forbidden, p, k);
    }
    if targets.len() == 0 {
        lemma_filter_same(forbidden, p, |k: MotionCategory| detected.contains(k) == true);
    }
}

proof fn lemma_shares_any(xs: Seq<Seq<char>>, targets: Seq<Seq<char>>)
    ensures
        shares_any(xs, targets) <==> exists|t: Seq<char>| #[trigger] targets.contains(t) && xs.contains(t),
{
    if shares_any(xs, targets) {
        let i = choose|i: int| 0 <= i < xs.len() && targets.contains(#[trigger] xs[i]);
        assert(targets.contains(xs[i]) && xs.contains(xs[i]));
    }
    if exists|t: Seq<char>| #[trigger] targets.contains(t) && xs.contains(t) {
        let t = choose|t: Seq<char>| #[trigger] targets.contains(t) && xs.contains(t);
        let i = choose|i: int| 0 <= i < xs.len() && xs[i] == t;
        assert(targets.contains(xs[i]));
    }
}

/// A forbidden kind is reported as seen exactly when it was declared
/// forbidden, was detected, and (when targets were declared) touched a
/// declared target the way that kind does: an appearance when some target
/// appeared, a disappearance when some target disappeared, any other kind
/// when some target moved.
pub proof fn law_forbidden_kind_scoped_to_targets(
    forbidden: Seq<MotionCategory>,
    detected: Seq<MotionCategory>,
    targets: Seq<Seq<char>>,
    moved: Seq<Seq<char>>,
    appeared: Seq<Seq<char>>,
    disappeared: Seq<Seq<char>>,
    k: MotionCategory,
)
    ensures
        forbidden_seen(forbidden, detected, targets, moved, appeared, disappeared).contains(k) <==> {
            &&& forbidden.contains(k)
            &&& detected.contains(k)
            &&& targets.len() > 0 ==> {
                &&& k == MotionCategory::Appearance ==> exists|t: Seq<char>| #[trigger] targets.contains(t)
                    && appeared.contains(t)
                &&& k == MotionCategory::Disappearance ==> exists|t: Seq<char>| #[trigger] targets.contains(t)
                    && disappeared.contains(t)
                &&& (k != MotionCategory::Appearance && k != MotionCategory::Disappearance) ==> exists|t: Seq<char>|
                    #[trigger] targets.contains(t) && moved.contains(t)
            }
        },
{
    let p = |x: MotionCategory| forbidden_counts(x, detected, targets, moved, appeared, disappeared);
    lemma_filter_member(forbidden, p, k);
    lemma_shares_any(appeared, targets);
    lemma_shares_any(disappeared, targets);
    lemma_shares_any(moved, targets);
}

/// A grading passes exactly when every expected kind was detected, every
/// expected target moved, no forbidden kind counts as seen, and the
/// duration, if compared, matched.
pub proof fn law_intent_passes(
    intent: DeclaredIntentView,
    detected: Seq<MotionCategory>,
    moved: Seq<Seq<char>>,
    appeared: Seq<Seq<char>>,
    disappeared: Seq<Seq<char>>,
    duration: Option<DurationVerdict>,
)
    ensures
        spec_intent_match(intent, detected, moved, appeared, disappeared, duration).passes == {
            &&& forall|k: MotionCategory| #[trigger] intent.expected_kinds.contains(k) ==> detected.contains(k)
            &&& forall|t: Seq<char>| #[trigger] intent.expected_targets.contains(t) ==> moved.contains(t)
            &&& forbidden_seen(intent.forbidden_kinds, detected, intent.expected_targets, moved, appeared, disappeared).len() == 0
            &&& (duration matches Some(d) ==> d == DurationVerdict::Match)
        },
{
    law_expected_kinds_partition(intent.expected_kinds, detected);
    law_expected_targets_partition(intent.expected_targets, moved);
    let km = kinds_kept(intent.expected_kinds, detected, false);
    let tm = texts_kept(intent.expected_targets, moved, false);
    assert((km.len() == 0) == (forall|k: MotionCategory| #[trigger] intent.expected_kinds.contains(k) ==> detected.contains(k))) by {
        if km.len() == 0 {
            assert forall|k: MotionCategory| #[trigger] intent.expected_kinds.contains(k) implies detected.contains(k) by {
                if !detected.contains(k) {
                    assert(km.contains(k));
                }
            }
        } else {
            assert(km.contains(km[0]));
        }
    }
    assert((tm.len() == 0) == (forall|t: Seq<char>| #[trigger] intent.expected_targets.contains(t) ==> moved.contains(t))) by {
        if tm.len() == 0 {
            assert forall|t: Seq<char>| #[trigger] intent.expected_targets.contains(t) implies moved.contains(t) by {
                if !moved.contains(t) {
                    assert(tm.contains(t));
                }
            }
        } else {
            assert(tm.contains(tm[0]));
        }
    }
}

/// Folding in the easing can only turn a passing grading into a failing
/// one, never the reverse, and a folded grading passes only if its easing
/// comparison does.
pub proof fn law_easing_only_narrows(m: IntentMatchView, expected: EasingHint, fitted: Seq<Seq<char>>, r: IntentMatchView)
    requires
        easing_folded(m, expected, fitted, r),
    ensures
        r.passes ==> m.passes,
        r.passes ==> r.easing_match->0.passes,
        r.expected_kinds_missing == m.expected_kinds_missing,
        r.expected_targets_missing == m.expected_targets_missing,
{
}

} // verus!
