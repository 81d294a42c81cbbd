//! Diagnosis hints: candidate causes a motion-verify report offers for
//! what went wrong, each with a code, the selector it concerns, a message
//! and a suggested next probe.
//!
//! This module decides and words the hints that rest on selectors, counts
//! and flags: every declared target missing from the page, the per-target
//! dive for targets that did not move, the whole-sequence hints, and the
//! forbidden-kind hint.  The hints whose conditions or messages are
//! floating-point measurements (covering overlays, transitions jumped
//! over, delayed animations, silently static elements, duration
//! mismatches, jank spikes) are decided by the application, which places
//! them among these in report order.

use vstd::prelude::*;
use crate::intent::{contains_text, IntentMatch};
use crate::model::{debug_kind_list, kinds_debug_text, MotionCategory};
use crate::classify::opt_view;
use crate::text::{debug_list_text, debug_string_list, decimal, string_views, u64_decimal, usize_decimal};

verus! {

/// The kind of a diagnosis hint.
#[derive(Debug, Clone, Copy, PartialEq, Eq, Structural)]
pub enum HintCode {
    ExpectedTargetsAllMissing,
    ViewportCoveredByOverlay,
    IntentTargetParentOfMovingElement,
    SelectorNotFound,
    HiddenByDisplayNone,
    HiddenByZeroOpacity,
    BboxStaticStyleMutating,
    NoDomMutationAfterTrigger,
    NoMotionSourceRegistered,
    MotionSourceInactive,
    RafSourceStalled,
    CssTransitionJumpedOver,
    CssAnimationDelayOverrun,
    SilentStaticProminentElement,
    IntentDurationMismatch,
    ForbiddenKindObserved,
    JankSpike,
}

pub open spec fn spec_hint_code_label(c: HintCode) -> Seq<char> {
    match c {
        HintCode::ExpectedTargetsAllMissing => "expected-targets-all-missing"@,
        HintCode::ViewportCoveredByOverlay => "viewport-covered-by-overlay"@,
        HintCode::IntentTargetParentOfMovingElement => "intent-target-parent-of-moving-element"@,
        HintCode::SelectorNotFound => "selector-not-found"@,
        HintCode::HiddenByDisplayNone => "hidden-by-display-none"@,
        HintCode::HiddenByZeroOpacity => "hidden-by-zero-opacity"@,
        HintCode::BboxStaticStyleMutating => "bbox-static-style-mutating"@,
        HintCode::NoDomMutationAfterTrigger => "no-dom-mutation-after-trigger"@,
        HintCode::NoMotionSourceRegistered => "no-motion-source-registered"@,
        HintCode::MotionSourceInactive => "motion-source-inactive"@,
        HintCode::RafSourceStalled => "raf-source-stalled"@,
        HintCode::CssTransitionJumpedOver => "css-transition-jumped-over"@,
        HintCode::CssAnimationDelayOverrun => "css-animation-delay-overrun"@,
        HintCode::SilentStaticProminentElement => "silent-static-prominent-element"@,
        HintCode::IntentDurationMismatch => "intent-duration-mismatch"@,
        HintCode::ForbiddenKindObserved => "forbidden-kind-observed"@,
        HintCode::JankSpike => "jank-spike"@,
    }
}

impl HintCode {
    /// The code as reports print it.
    pub fn label(&self) -> (s: &'static str)
        ensures
            s@ == spec_hint_code_label(*self),
    {
        match self {
            HintCode::ExpectedTargetsAllMissing => "expected-targets-all-missing",
            HintCode::ViewportCoveredByOverlay => "viewport-covered-by-overlay",
            HintCode::IntentTargetParentOfMovingElement => "intent-target-parent-of-moving-element",
            HintCode::SelectorNotFound => "selector-not-found",
            HintCode::HiddenByDisplayNone => "hidden-by-display-none",
            HintCode::HiddenByZeroOpacity => "hidden-by-zero-opacity",
            HintCode::BboxStaticStyleMutating => "bbox-static-style-mutating",
            HintCode::NoDomMutationAfterTrigger => "no-dom-mutation-after-trigger",
            HintCode::NoMotionSourceRegistered => "no-motion-source-registered",
            HintCode::MotionSourceInactive => "motion-source-inactive",
            HintCode::RafSourceStalled => "raf-source-stalled",
            HintCode::CssTransitionJumpedOver => "css-transition-jumped-over",
            HintCode::CssAnimationDelayOverrun => "css-animation-delay-overrun",
            HintCode::SilentStaticProminentElement => "silent-static-prominent-element",
            HintCode::IntentDurationMismatch => "intent-duration-mismatch",
            HintCode::ForbiddenKindObserved => "forbidden-kind-observed",
            HintCode::JankSpike => "jank-spike",
        }
    }
}

/// A diagnosis hint; the structured observation that reports attach to
/// each hint is built by the application from the same inputs.
#[derive(Debug, Clone)]
pub struct Hint {
    pub code: HintCode,
    pub target_selector: Option<String>,
    pub message: String,
    pub suggested_probe: Option<String>,
}

pub struct HintView {
    pub code: HintCode,
    pub target_selector: Option<Seq<char>>,
    pub message: Seq<char>,
    pub suggested_probe: Option<Seq<char>>,
}

impl View for Hint {
    type V = HintView;

    open spec fn view(&self) -> HintView {
        HintView {
            code: self.code,
            target_selector: opt_view(self.target_selector),
            message: self.message@,
            suggested_probe: opt_view(self.suggested_probe),
        }
    }
}

pub open spec fn hint_views(v: Seq<Hint>) -> Seq<HintView> {
    v.map_values(|h: Hint| h@)
}

fn hint(code: HintCode, target_selector: Option<String>, message: String, suggested_probe: Option<String>) -> (h: Hint)
    ensures
        h@ == (HintView {
            code,
            target_selector: opt_view(target_selector),
            message: message@,
            suggested_probe: opt_view(suggested_probe),
        }),
{
    Hint { code, target_selector, message, suggested_probe }
}

/// An element of a captured layout snapshot, as the diagnosis reads it.
#[derive(Debug, Clone)]
pub struct DiagElement {
    pub selector: String,
    pub matched_selectors: Vec<String>,
    pub ancestor_match_selectors: Vec<String>,
    pub display: String,
    pub transform: Option<String>,
    pub color: Option<String>,
    pub background_color: Option<String>,
    /// The box is at most half a pixel wide or high.
    pub zero_area: bool,
    /// The opacity is at most a hundredth.
    pub transparent: bool,
    /// The box, as `{:?}` renders its four numbers.
    pub bbox_text: String,
}

pub struct DiagElementView {
    pub selector: Seq<char>,
    pub matched_selectors: Seq<Seq<char>>,
    pub ancestor_match_selectors: Seq<Seq<char>>,
    pub display: Seq<char>,
    pub transform: Option<Seq<char>>,
    pub color: Option<Seq<char>>,
    pub background_color: Option<Seq<char>>,
    pub zero_area: bool,
    pub transparent: bool,
    pub bbox_text: Seq<char>,
}

impl View for DiagElement {
    type V = DiagElementView;

    open spec fn view(&self) -> DiagElementView {
        DiagElementView {
            selector: self.selector@,
            matched_selectors: string_views(self.matched_selectors@),
            ancestor_match_selectors: string_views(self.ancestor_match_selectors@),
            display: self.display@,
            transform: opt_view(self.transform),
            color: opt_view(self.color),
            background_color: opt_view(self.background_color),
            zero_area: self.zero_area,
            transparent: self.transparent,
            bbox_text: self.bbox_text@,
        }
    }
}

pub open spec fn diag_views(v: Seq<DiagElement>) -> Seq<DiagElementView> {
    v.map_values(|e: DiagElement| e@)
}

pub open spec fn layout_view(l: Option<&Vec<DiagElement>>) -> Option<Seq<DiagElementView>> {
    match l {
        Some(v) => Some(diag_views(v@)),
        None => None,
    }
}

pub open spec fn diag_selectors(es: Seq<DiagElementView>) -> Seq<Seq<char>> {
    es.map_values(|e: DiagElementView| e.selector)
}

/// The first element of a snapshot under `sel`.
pub open spec fn probe_in(l: Option<Seq<DiagElementView>>, sel: Seq<char>) -> Option<DiagElementView> {
    match l {
        Some(es) => match diag_selectors(es).index_of_first(sel) {
            Some(i) => Some(es[i]),
            None => None,
        },
        None => None,
    }
}

fn find_probe<'a>(l: Option<&'a Vec<DiagElement>>, sel: &String) -> (r: Option<&'a DiagElement>)
    ensures
        match r {
            Some(e) => probe_in(layout_view(l), sel@) == Some(e@),
            None => probe_in(layout_view(l), sel@) is None,
        },
{
    match l {
        None => None,
        Some(es) => {
            let ghost sels = diag_selectors(diag_views(es@));
            proof {
                sels.index_of_first_ensures(sel@);
            }
            let n = es.len();
            let mut i: usize = 0;
            while i < n
                invariant
                    n == es@.len(),
                    sels == diag_selectors(diag_views(es@)),
                    layout_view(l) == Some(diag_views(es@)),
                    sels.len() == n,
                    i <= n,
                    forall|j: int| 0 <= j < i ==> sels[j] != sel@,
                decreases n - i,
            {
                if es[i].selector == *sel {
                    proof {
                        assert(diag_views(es@)[i as int] == es@[i as int]@);
                        sels.index_of_first_ensures(sel@);
                        assert(sels[i as int] == sel@);
                        assert(sels.contains(sel@));
                        let k = sels.index_of_first(sel@)->0;
                        if k < i {
                            assert(sels[k] != sel@);
                        }
                        assert(k == i);
                        assert(layout_view(l) == Some(diag_views(es@)));
                        assert(probe_in(layout_view(l), sel@) == Some(diag_views(es@)[i as int]));
                    }
                    return Some(&es[i]);
                }
                i = i + 1;
            }
            proof {
                sels.index_of_first_ensures(sel@);
                if sels.contains(sel@) {
                    let k = choose|k: int| 0 <= k < sels.len() && sels[k] == sel@;
                    assert(sels[k] != sel@);
                }
            }
            None
        },
    }
}

pub open spec fn all_missing_message(targets: Seq<Seq<char>>) -> Seq<char> {
    "ALL "@ + decimal(targets.len()) + " declared `expected_targets` ("@ + debug_list_text(targets) + ") are absent from every captured layout snapshot. Before chasing per-selector causes, **rule out a page-level meta-cause first** — these are the most common reasons every target disappears at once: (a) the URL is serving unexpected content (a dev port collision, a redirect, a wrong build), (b) the page never reached the intended state (network failure, an auth / login wall in front, JS error at load), (c) contract drift (the selectors were renamed in a refactor and the contract was not updated). Confirm the page actually rendered what you expect before treating per-selector hints as the diagnosis."@
}

/// The diagnosis views of the captured layouts, frame after frame.
pub open spec fn layouts_view(ls: Seq<Vec<DiagElement>>) -> Seq<Seq<DiagElementView>> {
    ls.map_values(|l: Vec<DiagElement>| diag_views(l@))
}

/// `sel` is the selector of no element of any captured layout.
pub open spec fn absent_everywhere(layouts: Seq<Seq<DiagElementView>>, sel: Seq<char>) -> bool {
    forall|j: int| 0 <= j < layouts.len() ==> probe_in(Some(#[trigger] layouts[j]), sel) is None
}

/// Every declared target is absent from every captured layout, and the
/// grading saw none of them move: the page itself is probably not the
/// one the contract is about.
pub open spec fn spec_all_missing_hint(
    targets: Seq<Seq<char>>,
    layouts: Seq<Seq<DiagElementView>>,
    some_target_seen: bool,
) -> Option<HintView> {
    if targets.len() > 0 && (forall|i: int| 0 <= i < targets.len() ==> absent_everywhere(layouts, #[trigger] targets[i]))
        && !some_target_seen {
        Some(HintView {
            code: HintCode::ExpectedTargetsAllMissing,
            target_selector: None,
            message: all_missing_message(targets),
            suggested_probe: Some("frame.dom_query { js: 'JSON.stringify({ title: document.title, href: location.href })' } — confirm the URL and title match what your contract expects before drilling individual selectors."@),
        })
    } else {
        None
    }
}

pub open spec fn opt_hint_view(h: Option<Hint>) -> Option<HintView> {
    match h {
        Some(x) => Some(x@),
        None => None,
    }
}

/// Whether `sel` is the selector of an element of some captured layout.
fn present_somewhere(layouts: &Vec<Vec<DiagElement>>, sel: &String) -> (b: bool)
    ensures
        b == !absent_everywhere(layouts_view(layouts@), sel@),
{
    let ghost lv = layouts_view(layouts@);
    let n = layouts.len();
    let mut j: usize = 0;
    while j < n
        invariant
            n == layouts@.len(),
            lv == layouts_view(layouts@),
            j <= n,
            forall|k: int| 0 <= k < j ==> probe_in(Some(#[trigger] lv[k]), sel@) is None,
        decreases n - j,
    {
        let p = find_probe(Some(&layouts[j]), sel);
        assert(lv[j as int] == diag_views(layouts@[j as int]@));
        if p.is_some() {
            assert(probe_in(Some(lv[j as int]), sel@) is Some);
            return true;
        }
        j = j + 1;
    }
    false
}

/// The hint that every declared target is missing; `layouts` holds the
/// elements of every captured layout, frame after frame.
pub fn all_targets_missing_hint(
    targets: &Vec<String>,
    layouts: &Vec<Vec<DiagElement>>,
    some_target_seen: bool,
) -> (r: Option<Hint>)
    ensures
        opt_hint_view(r) == spec_all_missing_hint(string_views(targets@), layouts_view(layouts@), some_target_seen),
{
    let ghost tv = string_views(targets@);
    let ghost lv = layouts_view(layouts@);
    let n = targets.len();
    let mut all_missing = true;
    let mut i: usize = 0;
    while i < n
        invariant
            n == targets@.len(),
            tv == string_views(targets@),
            lv == layouts_view(layouts@),
            i <= n,
            all_missing == forall|k: int| 0 <= k < i ==> absent_everywhere(lv, #[trigger] tv[k]),
        decreases n - i,
    {
        if present_somewhere(layouts, &targets[i]) {
            assert(!absent_everywhere(lv, tv[i as int]));
            all_missing = false;
        }
        i = i + 1;
    }
    if n > 0 && all_missing && !some_target_seen {
        let mut m = String::from_str("ALL ");
        let c = usize_decimal(n);
        m.append(c.as_str());
        m.append(" declared `expected_targets` (");
        let l = debug_string_list(targets);
        m.append(l.as_str());
        m.append(") are absent from every captured layout snapshot. Before chasing per-selector causes, **rule out a page-level meta-cause first** — these are the most common reasons every target disappears at once: (a) the URL is serving unexpected content (a dev port collision, a redirect, a wrong build), (b) the page never reached the intended state (network failure, an auth / login wall in front, JS error at load), (c) contract drift (the selectors were renamed in a refactor and the contract was not updated). Confirm the page actually rendered what you expect before treating per-selector hints as the diagnosis.");
        Some(hint(HintCode::ExpectedTargetsAllMissing, None, m, Some(String::from_str("frame.dom_query { js: 'JSON.stringify({ title: document.title, href: location.href })' } — confirm the URL and title match what your contract expects before drilling individual selectors."))))
    } else {
        None
    }
}

/// An element that has `sel` among its ancestors' matched selectors and
/// itself moved (its selector, or one it matches, is among the moved).
pub open spec fn moving_child(e: DiagElementView, sel: Seq<char>, moved: Seq<Seq<char>>) -> bool {
    &&& e.ancestor_match_selectors.contains(sel)
    &&& (moved.contains(e.selector) || exists|j: int| 0 <= j < e.matched_selectors.len() && moved.contains(#[trigger] e.matched_selectors[j]))
}

/// The selectors of the moving children of `sel` among `es`, each once,
/// in order of first occurrence.
pub open spec fn moving_children(es: Seq<DiagElementView>, sel: Seq<char>, moved: Seq<Seq<char>>) -> Seq<Seq<char>>
    decreases es.len(),
{
    if es.len() == 0 {
        Seq::empty()
    } else {
        let r = moving_children(es.drop_last(), sel, moved);
        if moving_child(es.last(), sel, moved) && !r.contains(es.last().selector) {
            r.push(es.last().selector)
        } else {
            r
        }
    }
}

/// The geometric comparison of a target's first and last probe, measured
/// by the caller.
pub struct ProbePairFacts {
    /// No box coordinate moved by half a pixel or more.
    pub bbox_unchanged: bool,
    /// The opacity differs.
    pub opacity_changed: bool,
}

/// The intent expects geometric motion: a translation, scaling, layout
/// change or rotation.
pub open spec fn expects_geometry(kinds: Seq<MotionCategory>) -> bool {
    kinds.contains(MotionCategory::Translate) || kinds.contains(MotionCategory::Scale) || kinds.contains(
        MotionCategory::Layout,
    ) || kinds.contains(MotionCategory::Rotate)
}

pub open spec fn min_int(a: int, b: int) -> int {
    if a < b {
        a
    } else {
        b
    }
}

pub open spec fn parent_message(sel: Seq<char>, kids: Seq<Seq<char>>) -> Seq<char> {
    "`"@ + sel + "` is declared in `expected_targets` but its own bbox / opacity / transform stayed static across the sequence — however "@ + decimal(kids.len()) + " of its descendants moved (e.g. "@ + debug_list_text(kids.take(min_int(5, kids.len() as int)))
        + "). The agent likely declared the parent while the animation runs on the children. Re-declare with a descendant selector (try `"@ + sel + " *` or a more specific child class), or list the moving children explicitly in `expected_targets`. Reading this hint first short-circuits the per-selector `raf-source-stalled` chase — the page IS animating, it's the contract that points at the wrong node."@
}

pub open spec fn parent_probe(sel: Seq<char>) -> Seq<char> {
    "frame.layout_probe { selectors: [\""@ + sel + "\", \""@ + sel + " *\"] } — inspect the parent's bbox + each descendant's bbox / transform across the sequence and pick the child that actually animates."@
}

/// The hint for a declared target that did not move, if any: the first
/// of, in order, its moving descendants, its absence from the last
/// captured layout, its hidden last state, its transparency at both ends, and a
/// style that changed while its box stood still although geometric motion
/// was expected.
pub open spec fn spec_target_hint(
    sel: Seq<char>,
    all: Seq<DiagElementView>,
    first: Option<Seq<DiagElementView>>,
    last: Option<Seq<DiagElementView>>,
    moved: Seq<Seq<char>>,
    pair: ProbePairFacts,
    expected_kinds: Seq<MotionCategory>,
) -> Option<HintView> {
    let kids = moving_children(all, sel, moved);
    let fp = probe_in(first, sel);
    let lp = probe_in(last, sel);
    if kids.len() > 0 {
        Some(HintView {
            code: HintCode::IntentTargetParentOfMovingElement,
            target_selector: Some(sel),
            message: parent_message(sel, kids),
            suggested_probe: Some(parent_probe(sel)),
        })
    } else if lp is None {
        Some(HintView {
            code: HintCode::SelectorNotFound,
            target_selector: Some(sel),
            message: "Selector `"@ + sel + "` was declared in `expected_targets` but is absent from the last captured layout snapshot. Either the selector is wrong, the element renders only after a later trigger or is removed before the end of the sequence, or `include_layout` was off."@,
            suggested_probe: Some("frame.dom_query { js: 'JSON.stringify(document.querySelector(\""@ + sel + "\")?.outerHTML?.slice(0, 200) ?? null)' }"@),
        })
    } else if lp matches Some(p) && (p.display == "none"@ || p.zero_area) {
        Some(HintView {
            code: HintCode::HiddenByDisplayNone,
            target_selector: Some(sel),
            message: "Selector `"@ + sel + "` resolved but its computed display is `"@ + lp->0.display + "` and bbox is "@ + lp->0.bbox_text + ". Nothing can animate on an element that isn't laid out — check the parent's display / a CSS rule with higher specificity."@,
            suggested_probe: Some("frame.dom_query { js: '(() => { let el = document.querySelector(\""@ + sel + "\"); if (!el) return \"null\"; let s = getComputedStyle(el); return JSON.stringify({ display: s.display, visibility: s.visibility, opacity: s.opacity }); })()' }"@),
        })
    } else if fp matches Some(a) && lp matches Some(b) && a.transparent && b.transparent {
        Some(HintView {
            code: HintCode::HiddenByZeroOpacity,
            target_selector: Some(sel),
            message: "Selector `"@ + sel + "` has opacity ~0 in both the first and last sampled frames. The element exists and is laid out, but no fade-in occurred. Check whether the `opacity` keyframe / class toggle actually fires after the trigger."@,
            suggested_probe: Some("frame.dom_query { js: '(() => { let el = document.querySelector(\""@ + sel + "\"); return JSON.stringify(el?.getAnimations().map(a => ({ id: a.id, playState: a.playState, currentTime: a.currentTime })) ?? []); })()' }"@),
        })
    } else if fp matches Some(a) && lp matches Some(b) && pair.bbox_unchanged && (pair.opacity_changed
        || a.transform != b.transform || a.color != b.color || a.background_color != b.background_color)
        && expects_geometry(expected_kinds) {
        Some(HintView {
            code: HintCode::BboxStaticStyleMutating,
            target_selector: Some(sel),
            message: "Selector `"@ + sel + "`'s bbox is unchanged but its style (opacity / transform / color) did mutate. Intent expected translate / scale / layout / rotate, but only colour / opacity changed. The transform may be applied to a parent or cancelled out."@,
            suggested_probe: Some("frame.dom_query { js: '(() => { let el = document.querySelector(\""@ + sel + "\"); if (!el) return \"null\"; let p = el.parentElement; return JSON.stringify({ self_transform: getComputedStyle(el).transform, parent_transform: p && getComputedStyle(p).transform }); })()' }"@),
        })
    } else {
        None
    }
}

proof fn lemma_moving_children_empty(es: Seq<DiagElementView>, sel: Seq<char>, moved: Seq<Seq<char>>)
    ensures
        moving_children(es, sel, moved).len() == 0 <==> forall|k: int| 0 <= k < es.len() ==> !moving_child(
            #[trigger] es[k],
            sel,
            moved,
        ),
    decreases es.len(),
{
    if es.len() > 0 {
        let d = es.drop_last();
        lemma_moving_children_empty(d, sel, moved);
        let r = moving_children(d, sel, moved);
        if moving_children(es, sel, moved).len() == 0 {
            assert forall|k: int| 0 <= k < es.len() implies !moving_child(#[trigger] es[k], sel, moved) by {
                if k < es.len() - 1 {
                    assert(es[k] == d[k]);
                }
            }
        } else if forall|k: int| 0 <= k < es.len() ==> !moving_child(#[trigger] es[k], sel, moved) {
            assert forall|k: int| 0 <= k < d.len() implies !moving_child(#[trigger] d[k], sel, moved) by {
                assert(d[k] == es[k]);
            }
            assert(!moving_child(es[es.len() - 1], sel, moved));
        }
    }
}

/// `e` is a descendant of the target `sel` that moved: it lies under `sel`
/// and its own selector, or one it matches, is among the moved ones.
pub open spec fn moved_descendant(e: DiagElementView, sel: Seq<char>, moved: Seq<Seq<char>>) -> bool {
    &&& e.ancestor_match_selectors.contains(sel)
    &&& (moved.contains(e.selector) || exists|q: int| 0 <= q < e.matched_selectors.len() && moved.contains(
        #[trigger] e.matched_selectors[q],
    ))
}

/// For a declared target: a moved descendant makes the hint point at the
/// moving children; otherwise a target missing from the last layout is
/// not found, and a target whose first element in the last layout has
/// display `none` or a zero-area box is hidden by display.  A target laid
/// out with a non-zero box is never reported as hidden by display, and
/// one that is laid out but transparent in both the first and the last
/// layout is hidden by zero opacity.
pub proof fn law_target_hint_cases(
    sel: Seq<char>,
    all: Seq<DiagElementView>,
    first: Option<Seq<DiagElementView>>,
    last: Option<Seq<DiagElementView>>,
    moved: Seq<Seq<char>>,
    pair: ProbePairFacts,
    expected_kinds: Seq<MotionCategory>,
)
    ensures
        ({
            let h = spec_target_hint(sel, all, first, last, moved, pair, expected_kinds);
            let kids = exists|k: int| 0 <= k < all.len() && #[trigger] moved_descendant(all[k], sel, moved);
            &&& kids ==> (h matches Some(v) && v.code == HintCode::IntentTargetParentOfMovingElement)
            &&& !kids && (last matches Some(es) ==> forall|k: int| 0 <= k < es.len() ==> (#[trigger] es[k]).selector != sel)
                ==> (h matches Some(v) && v.code == HintCode::SelectorNotFound && v.target_selector == Some(sel))
            &&& forall|i: int|
                #![trigger last->0[i]]
                !kids && last is Some && 0 <= i < last->0.len() && last->0[i].selector == sel && (forall|k: int|
                    0 <= k < i ==> (#[trigger] last->0[k]).selector != sel) ==> (h matches Some(v) && v.code
                    == HintCode::HiddenByDisplayNone <==> (last->0[i].display == "none"@ || last->0[i].zero_area))
            &&& forall|i: int, j: int|
                #![trigger last->0[i], first->0[j]]
                !kids && last is Some && first is Some && 0 <= i < last->0.len() && last->0[i].selector == sel && (
                forall|k: int| 0 <= k < i ==> (#[trigger] last->0[k]).selector != sel) && 0 <= j < first->0.len()
                    && first->0[j].selector == sel && (forall|k: int|
                    0 <= k < j ==> (#[trigger] first->0[k]).selector != sel) && !(last->0[i].display == "none"@
                    || last->0[i].zero_area) && first->0[j].transparent && last->0[i].transparent ==> (h matches Some(v)
                    && v.code == HintCode::HiddenByZeroOpacity)
        }),
{
    lemma_moving_children_empty(all, sel, moved);
    assert forall|k: int| 0 <= k < all.len() implies moving_child(#[trigger] all[k], sel, moved) == moved_descendant(
        all[k],
        sel,
        moved,
    ) by {}
    match last {
        Some(es) => {
            let sels = diag_selectors(es);
            sels.index_of_first_ensures(sel);
            assert forall|k: int| 0 <= k < es.len() implies #[trigger] sels[k] == es[k].selector by {}
            match sels.index_of_first(sel) {
                Some(x) => {
                    assert forall|i: int|
                        0 <= i < es.len() && es[i].selector == sel && (forall|k: int|
                            0 <= k < i ==> (#[trigger] es[k]).selector != sel) implies i == x by {
                        if x < i {
                            assert(es[x].selector == sel);
                        }
                        if i < x {
                            assert(sels[i] == sel);
                        }
                    }
                },
                None => {
                    assert forall|k: int| 0 <= k < es.len() implies (#[trigger] es[k]).selector != sel by {
                        assert(sels[k] == es[k].selector);
                    }
                },
            }
        },
        None => {},
    }
    match first {
        Some(es) => {
            let sels = diag_selectors(es);
            sels.index_of_first_ensures(sel);
            assert forall|k: int| 0 <= k < es.len() implies #[trigger] sels[k] == es[k].selector by {}
            match sels.index_of_first(sel) {
                Some(x) => {
                    assert forall|j: int|
                        0 <= j < es.len() && es[j].selector == sel && (forall|k: int|
                            0 <= k < j ==> (#[trigger] es[k]).selector != sel) implies j == x by {
                        if x < j {
                            assert(es[x].selector == sel);
                        }
                        if j < x {
                            assert(sels[j] == sel);
                        }
                    }
                },
                None => {
                    assert forall|k: int| 0 <= k < es.len() implies (#[trigger] es[k]).selector != sel by {
                        assert(sels[k] == es[k].selector);
                    }
                },
            }
        },
        None => {},
    }
}

fn is_moving_child(e: &DiagElement, sel: &String, moved: &Vec<String>) -> (b: bool)
    ensures
        b == moving_child(e@, sel@, string_views(moved@)),
{
    if !contains_text(&e.ancestor_match_selectors, sel) {
        return false;
    }
    if contains_text(moved, &e.selector) {
        return true;
    }
    let ms = &e.matched_selectors;
    let n = ms.len();
    let mut j: usize = 0;
    while j < n
        invariant
            n == ms@.len(),
            ms@ == e.matched_selectors@,
            e@.ancestor_match_selectors.contains(sel@),
            j <= n,
            forall|q: int| 0 <= q < j ==> !string_views(moved@).contains(#[trigger] string_views(ms@)[q]),
        decreases n - j,
    {
        if contains_text(moved, &ms[j]) {
            assert(string_views(moved@).contains(e@.matched_selectors[j as int]));
            return true;
        }
        j = j + 1;
    }
    false
}

/// The moving children of `sel` among the elements of all captured frames.
pub fn moving_descendants(all: &Vec<DiagElement>, sel: &String, moved: &Vec<String>) -> (out: Vec<String>)
    ensures
        string_views(out@) == moving_children(diag_views(all@), sel@, string_views(moved@)),
{
    let ghost av = diag_views(all@);
    let mut out: Vec<String> = Vec::new();
    let n = all.len();
    let mut i: usize = 0;
    while i < n
        invariant
            n == all@.len(),
            av == diag_views(all@),
            i <= n,
            string_views(out@) == moving_children(av.take(i as int), sel@, string_views(moved@)),
        decreases n - i,
    {
        let e = &all[i];
        proof {
            assert(av.take(i + 1).drop_last() =~= av.take(i as int));
            assert(av.take(i + 1).last() == e@);
        }
        if is_moving_child(e, sel, moved) && !contains_text(&out, &e.selector) {
            let ghost before = string_views(out@);
            out.push(e.selector.clone());
            proof {
                assert(string_views(out@) =~= before.push(e@.selector));
            }
        }
        i = i + 1;
    }
    assert(av.take(n as int) =~= av);
    out
}

fn prefix_texts(v: &Vec<String>, k: usize) -> (out: Vec<String>)
    ensures
        string_views(out@) == string_views(v@).take(min_int(k as int, v@.len() as int)),
{
    let m = if k < v.len() {
        k
    } else {
        v.len()
    };
    let mut out: Vec<String> = Vec::new();
    let mut i: usize = 0;
    while i < m
        invariant
            m <= v@.len(),
            m == min_int(k as int, v@.len() as int),
            i <= m,
            string_views(out@) == string_views(v@).take(i as int),
        decreases m - i,
    {
        let ghost before = string_views(out@);
        out.push(v[i].clone());
        proof {
            assert(string_views(out@) =~= before.push(v@[i as int]@));
            assert(string_views(v@).take(i + 1) =~= string_views(v@).take(i as int).push(v@[i as int]@));
        }
        i = i + 1;
    }
    out
}

fn with_selector(head: &str, sel: &String, tail: &str) -> (s: String)
    ensures
        s@ == head@ + sel@ + tail@,
{
    let mut s = String::from_str(head);
    s.append(sel.as_str());
    s.append(tail);
    s
}

fn expects_geometric_motion(kinds: &Vec<MotionCategory>) -> (b: bool)
    ensures
        b == expects_geometry(kinds@),
{
    crate::intent::contains_kind(kinds, MotionCategory::Translate) || crate::intent::contains_kind(kinds, MotionCategory::Scale)
        || crate::intent::contains_kind(kinds, MotionCategory::Layout) || crate::intent::contains_kind(
        kinds,
        MotionCategory::Rotate,
    )
}

/// The hint for a declared target that did not move.  `all` holds the
/// elements of every captured layout, frame after frame; `first` and
/// `last` are the first and the last captured layouts.
pub fn target_hint(
    sel: &String,
    all: &Vec<DiagElement>,
    first: Option<&Vec<DiagElement>>,
    last: Option<&Vec<DiagElement>>,
    moved: &Vec<String>,
    pair: &ProbePairFacts,
    expected_kinds: &Vec<MotionCategory>,
) -> (r: Option<Hint>)
    ensures
        opt_hint_view(r) == spec_target_hint(
            sel@,
            diag_views(all@),
            layout_view(first),
            layout_view(last),
            string_views(moved@),
            *pair,
            expected_kinds@,
        ),
{
    proof {
        reveal_strlit("none");
    }
    let kids = moving_descendants(all, sel, moved);
    if kids.len() > 0 {
        let mut m = with_selector("`", sel, "` is declared in `expected_targets` but its own bbox / opacity / transform stayed static across the sequence — however ");
        let n = usize_decimal(kids.len());
        m.append(n.as_str());
        m.append(" of its descendants moved (e.g. ");
        let sample = prefix_texts(&kids, 5);
        let l = debug_string_list(&sample);
        m.append(l.as_str());
        m.append("). The agent likely declared the parent while the animation runs on the children. Re-declare with a descendant selector (try `");
        m.append(sel.as_str());
        m.append(" *` or a more specific child class), or list the moving children explicitly in `expected_targets`. Reading this hint first short-circuits the per-selector `raf-source-stalled` chase — the page IS animating, it's the contract that points at the wrong node.");
        let mut p = with_selector("frame.layout_probe { selectors: [\"", sel, "\", \"");
        p.append(sel.as_str());
        p.append(" *\"] } — inspect the parent's bbox + each descendant's bbox / transform across the sequence and pick the child that actually animates.");
        return Some(hint(HintCode::IntentTargetParentOfMovingElement, Some(sel.clone()), m, Some(p)));
    }
    let fp = find_probe(first, sel);
    let lp = find_probe(last, sel);
    if lp.is_none() {
        return Some(
            hint(
                HintCode::SelectorNotFound,
                Some(sel.clone()),
                with_selector("Selector `", sel, "` was declared in `expected_targets` but is absent from the last captured layout snapshot. Either the selector is wrong, the element renders only after a later trigger or is removed before the end of the sequence, or `include_layout` was off."),
                Some(with_selector("frame.dom_query { js: 'JSON.stringify(document.querySelector(\"", sel, "\")?.outerHTML?.slice(0, 200) ?? null)' }")),
            ),
        );
    }
    match lp {
        Some(p) => {
            if crate::text::same_text(p.display.as_str(), "none") || p.zero_area {
                let mut m = with_selector("Selector `", sel, "` resolved but its computed display is `");
                m.append(p.display.as_str());
                m.append("` and bbox is ");
                m.append(p.bbox_text.as_str());
                m.append(". Nothing can animate on an element that isn't laid out — check the parent's display / a CSS rule with higher specificity.");
                return Some(
                    hint(
                        HintCode::HiddenByDisplayNone,
                        Some(sel.clone()),
                        m,
                        Some(with_selector("frame.dom_query { js: '(() => { let el = document.querySelector(\"", sel, "\"); if (!el) return \"null\"; let s = getComputedStyle(el); return JSON.stringify({ display: s.display, visibility: s.visibility, opacity: s.opacity }); })()' }")),
                    ),
                );
            }
        },
        None => {},
    }
    match (fp, lp) {
        (Some(a), Some(b)) => {
            if a.transparent && b.transparent {
                return Some(
                    hint(
                        HintCode::HiddenByZeroOpacity,
                        Some(sel.clone()),
                        with_selector("Selector `", sel, "` has opacity ~0 in both the first and last sampled frames. The element exists and is laid out, but no fade-in occurred. Check whether the `opacity` keyframe / class toggle actually fires after the trigger."),
                        Some(with_selector("frame.dom_query { js: '(() => { let el = document.querySelector(\"", sel, "\"); return JSON.stringify(el?.getAnimations().map(a => ({ id: a.id, playState: a.playState, currentTime: a.currentTime })) ?? []); })()' }")),
                    ),
                );
            }
            let style_changed = pair.opacity_changed || !crate::classify::same_opt(&a.transform, &b.transform)
                || !crate::classify::same_opt(&a.color, &b.color) || !crate::classify::same_opt(
                &a.background_color,
                &b.background_color,
            );
            if pair.bbox_unchanged && style_changed && expects_geometric_motion(expected_kinds) {
                return Some(
                    hint(
                        HintCode::BboxStaticStyleMutating,
                        Some(sel.clone()),
                        with_selector("Selector `", sel, "`'s bbox is unchanged but its style (opacity / transform / color) did mutate. Intent expected translate / scale / layout / rotate, but only colour / opacity changed. The transform may be applied to a parent or cancelled out."),
                        Some(with_selector("frame.dom_query { js: '(() => { let el = document.querySelector(\"", sel, "\"); if (!el) return \"null\"; let p = el.parentElement; return JSON.stringify({ self_transform: getComputedStyle(el).transform, parent_transform: p && getComputedStyle(p).transform }); })()' }")),
                    ),
                );
            }
            None
        },
        _ => None,
    }
}

pub open spec fn hint_if(present: bool, h: HintView) -> Seq<HintView> {
    if present {
        seq![h]
    } else {
        Seq::empty()
    }
}

pub open spec fn raf_message(active: u32, stuck: Seq<Seq<char>>) -> Seq<char> {
    "rAF is registered ("@ + decimal(active as nat) + " active callback(s)) and the page IS animating, but `intent`'s expected target(s) "@ + debug_list_text(stuck.take(min_int(3, stuck.len() as int))) + " never moved. This is a *candidate* — read it as 'one likely cause among several', NOT a verdict. POSSIBLE causes, in roughly decreasing likelihood for a rAF page: (1) a `performance.now()`-anchored rAF loop — `const start = performance.now()` + reading `performance.now() - start` inside the callback does not advance in lock-step with the virtual rAF tick, so the loop never reaches its end condition. Fix: use the rAF callback's `t` argument as the time origin: `requestAnimationFrame(t => { if (start === undefined) start = t; ... })`. (2) The target selector(s) are not in the DOM at the sampled times (verify with `frame.dom_query`); the URL may be serving unexpected content. (3) A chained reveal depends on a stalled precondition (loader → `classList.add('ready')` → hero entrance) and the precondition's source is the one stalled, not the target itself. RULE OUT (2) and (3) before grepping source for `performance.now()`."@
}

/// The hints about the sequence as a whole, in report order: a static
/// capture after triggers, a static page with no trigger and no motion
/// source, motion sources no sample caught active, and a registered rAF
/// loop while declared targets stayed still on a moving page.
pub open spec fn spec_sequence_hints(
    is_static: bool,
    had_triggers: bool,
    total_sources: usize,
    unsampled: Seq<Seq<char>>,
    raf_detected: bool,
    raf_active_count: u32,
    unmoved_targets: Seq<Seq<char>>,
) -> Seq<HintView> {
    hint_if(
        is_static && had_triggers,
        HintView {
            code: HintCode::NoDomMutationAfterTrigger,
            target_selector: None,
            message: "Triggers were declared but the captured sequence is static (no per-frame pixel change). Either the trigger target selector is wrong (the click landed nowhere), the trigger fires but the handler is bound elsewhere, or the animation is on a transform that the layout probe can't see (canvas / SVG / WebGL)."@,
            suggested_probe: Some("evidence.list — inspect the TriggerEvent ledger for wait_outcome, then frame.dom_query the trigger target to confirm the handler is bound."@),
        },
    ) + hint_if(
        is_static && !had_triggers && total_sources == 0,
        HintView {
            code: HintCode::NoMotionSourceRegistered,
            target_selector: None,
            message: "Page is static, no triggers were declared, and `timeline.sources` reports zero CSS animations / transitions / WAAPI animations. Either the verify is pointed at a static page, or the motion source loads lazily after the initial sample window."@,
            suggested_probe: Some("motion.audit_required { url } — confirm the page has no time-driven motion at all."@),
        },
    ) + hint_if(
        unsampled.len() > 0 && total_sources > 0,
        HintView {
            code: HintCode::MotionSourceInactive,
            target_selector: Some(unsampled[0]),
            message: decimal(unsampled.len()) + " motion source(s) are registered in `timeline.sources` but none of the sampled frames caught them inside their active window. Either the sample plan misses the source's active interval, or the source never started (paused / display:none ancestor / play-state)."@,
            suggested_probe: Some("frame.bisect on the largest unobserved interval, OR frame.dom_query { js: '(() => { let el = document.querySelector(\""@ + unsampled[0] + "\"); return JSON.stringify(el?.getAnimations().map(a => a.playState) ?? []); })()' }"@),
        },
    ) + hint_if(
        raf_detected && unmoved_targets.len() > 0 && !is_static,
        HintView {
            code: HintCode::RafSourceStalled,
            target_selector: Some(unmoved_targets[0]),
            message: raf_message(raf_active_count, unmoved_targets),
            suggested_probe: Some("frame.dom_query { js: 'document.querySelector(\""@ + unmoved_targets[0] + "\")?.outerHTML?.slice(0,160) ?? \"null\"' } — and grep your source for `performance.now()` next to a `requestAnimationFrame` callback; switch the time origin to the rAF `t` argument."@),
        },
    )
}

fn push_hint(out: &mut Vec<Hint>, h: Hint)
    ensures
        hint_views(final(out)@) == hint_views(old(out)@).push(h@),
{
    let ghost before = hint_views(out@);
    out.push(h);
    proof {
        assert(hint_views(out@) =~= before.push(h@));
    }
}

pub fn sequence_hints(
    is_static: bool,
    had_triggers: bool,
    total_sources: usize,
    unsampled: &Vec<String>,
    raf_detected: bool,
    raf_active_count: u32,
    unmoved_targets: &Vec<String>,
) -> (out: Vec<Hint>)
    ensures
        hint_views(out@) == spec_sequence_hints(
            is_static,
            had_triggers,
            total_sources,
            string_views(unsampled@),
            raf_detected,
            raf_active_count,
            string_views(unmoved_targets@),
        ),
{
    let mut out: Vec<Hint> = Vec::new();
    let ghost h0 = hint_views(out@);
    if is_static && had_triggers {
        push_hint(
            &mut out,
            hint(HintCode::NoDomMutationAfterTrigger, None, String::from_str("Triggers were declared but the captured sequence is static (no per-frame pixel change). Either the trigger target selector is wrong (the click landed nowhere), the trigger fires but the handler is bound elsewhere, or the animation is on a transform that the layout probe can't see (canvas / SVG / WebGL)."), Some(String::from_str("evidence.list — inspect the TriggerEvent ledger for wait_outcome, then frame.dom_query the trigger target to confirm the handler is bound."))),
        );
    }
    let ghost h1 = hint_views(out@);
    if is_static && !had_triggers && total_sources == 0 {
        push_hint(
            &mut out,
            hint(HintCode::NoMotionSourceRegistered, None, String::from_str("Page is static, no triggers were declared, and `timeline.sources` reports zero CSS animations / transitions / WAAPI animations. Either the verify is pointed at a static page, or the motion source loads lazily after the initial sample window."), Some(String::from_str("motion.audit_required { url } — confirm the page has no time-driven motion at all."))),
        );
    }
    let ghost h2 = hint_views(out@);
    if unsampled.len() > 0 && total_sources > 0 {
        let mut m = usize_decimal(unsampled.len());
        m.append(" motion source(s) are registered in `timeline.sources` but none of the sampled frames caught them inside their active window. Either the sample plan misses the source's active interval, or the source never started (paused / display:none ancestor / play-state).");
        let p = with_selector("frame.bisect on the largest unobserved interval, OR frame.dom_query { js: '(() => { let el = document.querySelector(\"", &unsampled[0], "\"); return JSON.stringify(el?.getAnimations().map(a => a.playState) ?? []); })()' }");
        push_hint(&mut out, hint(HintCode::MotionSourceInactive, Some(unsampled[0].clone()), m, Some(p)));
    }
    let ghost h3 = hint_views(out@);
    if raf_detected && unmoved_targets.len() > 0 && !is_static {
        let mut m = String::from_str("rAF is registered (");
        let c = u64_decimal(raf_active_count as u64);
        m.append(c.as_str());
        m.append(" active callback(s)) and the page IS animating, but `intent`'s expected target(s) ");
        let stuck = prefix_texts(unmoved_targets, 3);
        let l = debug_string_list(&stuck);
        m.append(l.as_str());
        m.append(" never moved. This is a *candidate* — read it as 'one likely cause among several', NOT a verdict. POSSIBLE causes, in roughly decreasing likelihood for a rAF page: (1) a `performance.now()`-anchored rAF loop — `const start = performance.now()` + reading `performance.now() - start` inside the callback does not advance in lock-step with the virtual rAF tick, so the loop never reaches its end condition. Fix: use the rAF callback's `t` argument as the time origin: `requestAnimationFrame(t => { if (start === undefined) start = t; ... })`. (2) The target selector(s) are not in the DOM at the sampled times (verify with `frame.dom_query`); the URL may be serving unexpected content. (3) A chained reveal depends on a stalled precondition (loader → `classList.add('ready')` → hero entrance) and the precondition's source is the one stalled, not the target itself. RULE OUT (2) and (3) before grepping source for `performance.now()`.");
        let p = with_selector("frame.dom_query { js: 'document.querySelector(\"", &unmoved_targets[0], "\")?.outerHTML?.slice(0,160) ?? \"null\"' } — and grep your source for `performance.now()` next to a `requestAnimationFrame` callback; switch the time origin to the rAF `t` argument.");
        push_hint(&mut out, hint(HintCode::RafSourceStalled, Some(unmoved_targets[0].clone()), m, Some(p)));
    }
    proof {
        let uv = string_views(unsampled@);
        let tv = string_views(unmoved_targets@);
        assert(h1 =~= h0 + hint_if(is_static && had_triggers, HintView { code: HintCode::NoDomMutationAfterTrigger, target_selector: None, message: "Triggers were declared but the captured sequence is static (no per-frame pixel change). Either the trigger target selector is wrong (the click landed nowhere), the trigger fires but the handler is bound elsewhere, or the animation is on a transform that the layout probe can't see (canvas / SVG / WebGL)."@, suggested_probe: Some("evidence.list — inspect the TriggerEvent ledger for wait_outcome, then frame.dom_query the trigger target to confirm the handler is bound."@) }));
        assert(h2 =~= h1 + hint_if(is_static && !had_triggers && total_sources == 0, HintView { code: HintCode::NoMotionSourceRegistered, target_selector: None, message: "Page is static, no triggers were declared, and `timeline.sources` reports zero CSS animations / transitions / WAAPI animations. Either the verify is pointed at a static page, or the motion source loads lazily after the initial sample window."@, suggested_probe: Some("motion.audit_required { url } — confirm the page has no time-driven motion at all."@) }));
        if unsampled@.len() > 0 {
            assert(uv[0] == unsampled@[0]@);
        }
        assert(h3 =~= h2 + hint_if(uv.len() > 0 && total_sources > 0, HintView { code: HintCode::MotionSourceInactive, target_selector: Some(uv[0]), message: decimal(uv.len()) + " motion source(s) are registered in `timeline.sources` but none of the sampled frames caught them inside their active window. Either the sample plan misses the source's active interval, or the source never started (paused / display:none ancestor / play-state)."@, suggested_probe: Some("frame.bisect on the largest unobserved interval, OR frame.dom_query { js: '(() => { let el = document.querySelector(\""@ + uv[0] + "\"); return JSON.stringify(el?.getAnimations().map(a => a.playState) ?? []); })()' }"@) }));
        if unmoved_targets@.len() > 0 {
            assert(tv[0] == unmoved_targets@[0]@);
        }
        assert(hint_views(out@) =~= h3 + hint_if(raf_detected && tv.len() > 0 && !is_static, HintView { code: HintCode::RafSourceStalled, target_selector: Some(tv[0]), message: raf_message(raf_active_count, tv), suggested_probe: Some("frame.dom_query { js: 'document.querySelector(\""@ + tv[0] + "\")?.outerHTML?.slice(0,160) ?? \"null\"' } — and grep your source for `performance.now()` next to a `requestAnimationFrame` callback; switch the time origin to the rAF `t` argument."@) }));
    }
    out
}

/// The hint that a grading saw forbidden kinds.
pub open spec fn spec_forbidden_hint(intent: Option<crate::intent::IntentMatchView>) -> Option<HintView> {
    match intent {
        Some(im) => if im.forbidden_kinds_seen.len() > 0 {
            Some(HintView {
                code: HintCode::ForbiddenKindObserved,
                target_selector: None,
                message: "Forbidden motion kind(s) observed: "@ + kinds_debug_text(im.forbidden_kinds_seen) + ". Intent declared these as off-limits — fix the source to remove them."@,
                suggested_probe: Some("motion.assess on the same frames — confirm per_transition_kinds shows the forbidden kind."@),
            })
        } else {
            None
        },
        None => None,
    }
}

pub fn forbidden_kind_hint(intent: Option<&IntentMatch>) -> (r: Option<Hint>)
    ensures
        opt_hint_view(r) == spec_forbidden_hint(crate::gate::intent_view(intent)),
{
    match intent {
        Some(im) => {
            if im.forbidden_kinds_seen.len() > 0 {
                let mut m = String::from_str("Forbidden motion kind(s) observed: ");
                let l = debug_kind_list(&im.forbidden_kinds_seen);
                m.append(l.as_str());
                m.append(". Intent declared these as off-limits — fix the source to remove them.");
                Some(hint(HintCode::ForbiddenKindObserved, None, m, Some(String::from_str("motion.assess on the same frames — confirm per_transition_kinds shows the forbidden kind."))))
            } else {
                None
            }
        },
        None => None,
    }
}

} // verus!
