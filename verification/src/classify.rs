//! Comparing two layout snapshots of adjacent frames.
//!
//! Elements of the two snapshots are paired by selector; when a selector
//! repeats within a snapshot, its last element stands for it.  What can be
//! decided on strings (pairing, appearance and disappearance, style and
//! text changes) is decided here.  The geometric comparisons (a box moved
//! or resized by more than half a pixel, opacity changed by more than a
//! hundredth, a decomposed transform rotated, rescaled or shifted) are
//! floating-point measurements; they reach this module as one
//! [`PairMotion`] per element of the later snapshot.

use vstd::prelude::*;
use crate::intent::{contains_text, extend_unique_kinds, kinds_union};
use crate::model::{MotionCategory, StyleChange, StyleChangeView};
use crate::text::{same_text, string_views};

verus! {

/// One probed element: the selector it was found under, the declared
/// selectors it matches, and its string-valued computed styles.
#[derive(Debug, Clone)]
pub struct ProbedElement {
    pub selector: String,
    pub matched_selectors: Vec<String>,
    pub transform: Option<String>,
    pub background_color: Option<String>,
    pub color: Option<String>,
    pub display: String,
    pub text_content_preview: Option<String>,
}

pub struct ProbedView {
    pub selector: Seq<char>,
    pub matched_selectors: Seq<Seq<char>>,
    pub transform: Option<Seq<char>>,
    pub background_color: Option<Seq<char>>,
    pub color: Option<Seq<char>>,
    pub display: Seq<char>,
    pub text_content_preview: Option<Seq<char>>,
}

pub open spec fn opt_view(o: Option<String>) -> Option<Seq<char>> {
    match o {
        Some(s) => Some(s@),
        None => None,
    }
}

impl View for ProbedElement {
    type V = ProbedView;

    open spec fn view(&self) -> ProbedView {
        ProbedView {
            selector: self.selector@,
            matched_selectors: string_views(self.matched_selectors@),
            transform: opt_view(self.transform),
            background_color: opt_view(self.background_color),
            color: opt_view(self.color),
            display: self.display@,
            text_content_preview: opt_view(self.text_content_preview),
        }
    }
}

/// The string side of a layout snapshot: the visible elements, and the
/// selectors the visibility filter dropped.
#[derive(Debug, Clone)]
pub struct LayoutKeys {
    pub elements: Vec<ProbedElement>,
    pub hidden_selectors: Vec<String>,
}

pub open spec fn probed_views(es: Seq<ProbedElement>) -> Seq<ProbedView> {
    es.map_values(|e: ProbedElement| e@)
}

pub open spec fn selectors_of(es: Seq<ProbedView>) -> Seq<Seq<char>> {
    es.map_values(|e: ProbedView| e.selector)
}

/// The geometric comparison of an element of the later snapshot with its
/// partner in the earlier one, measured by the caller.
#[derive(Debug, Clone, Copy, PartialEq, Eq, Structural)]
pub struct PairMotion {
    /// The document-relative box origin moved by more than half a pixel.
    pub translated: bool,
    /// The box width or height changed by more than half a pixel.
    pub resized: bool,
    /// The opacity changed by more than a hundredth.
    pub faded: bool,
    /// The decomposed transforms differ in rotation by more than a degree.
    pub rotated: bool,
    /// The decomposed transforms differ in scale by more than a hundredth.
    pub rescaled: bool,
    /// The decomposed transforms differ in translation by more than half a pixel.
    pub shifted: bool,
    /// Neither transform parses as a 2D or 3D matrix.
    pub transforms_unparsed: bool,
}

/// The element of `a` that stands for `sel`: its last element with it.
pub open spec fn partner(a: Seq<ProbedView>, sel: Seq<char>) -> Option<int> {
    selectors_of(a).index_of_last(sel)
}

/// `b[j]` stands for its selector in `b`.
pub open spec fn stands_for_selector(b: Seq<ProbedView>, j: int) -> bool {
    partner(b, b[j].selector) == Some(j)
}

/// A transform other than none was set.
pub open spec fn visible_transform(t: Option<Seq<char>>) -> bool {
    match t {
        Some(s) => s.len() > 0 && s != "none"@,
        None => false,
    }
}

pub open spec fn text_changed(ea: ProbedView, eb: ProbedView) -> bool {
    ea.text_content_preview != eb.text_content_preview && (ea.text_content_preview is Some
        || eb.text_content_preview is Some)
}

/// Whether an element paired across the two snapshots shows motion of
/// kind `c`.
pub open spec fn paired_shows(c: MotionCategory, ea: ProbedView, eb: ProbedView, m: PairMotion) -> bool {
    let tdiff = ea.transform != eb.transform;
    match c {
        MotionCategory::Translate => m.translated || (tdiff && (m.shifted || (m.transforms_unparsed
            && visible_transform(eb.transform)))),
        MotionCategory::Scale => m.resized || (tdiff && m.rescaled),
        MotionCategory::Layout => m.resized,
        MotionCategory::Fade => m.faded,
        MotionCategory::Rotate => tdiff && m.rotated,
        MotionCategory::ColorChange => ea.color != eb.color || ea.background_color != eb.background_color,
        MotionCategory::TextChange => text_changed(ea, eb),
        MotionCategory::Appearance => false,
        MotionCategory::Disappearance => false,
    }
}

/// Whether element `j` of the later snapshot shows motion of kind `c`:
/// through its partner, or, having none, by fading in (it was hidden
/// before) or by appearing.
pub open spec fn later_shows(
    c: MotionCategory,
    a: Seq<ProbedView>,
    hidden_a: Seq<Seq<char>>,
    b: Seq<ProbedView>,
    motions: Seq<PairMotion>,
    j: int,
) -> bool {
    &&& stands_for_selector(b, j)
    &&& match partner(a, b[j].selector) {
        Some(i) => paired_shows(c, a[i], b[j], motions[j]),
        None => c == (if hidden_a.contains(b[j].selector) {
            MotionCategory::Fade
        } else {
            MotionCategory::Appearance
        }),
    }
}

/// Whether element `i` of the earlier snapshot, absent from the later one,
/// shows motion of kind `c`: fading out if it is hidden there, else
/// disappearing.
pub open spec fn earlier_shows(c: MotionCategory, a: Seq<ProbedView>, b: Seq<ProbedView>, hidden_b: Seq<Seq<char>>, i: int) -> bool {
    &&& !selectors_of(b).contains(a[i].selector)
    &&& c == (if hidden_b.contains(a[i].selector) {
        MotionCategory::Fade
    } else {
        MotionCategory::Disappearance
    })
}

/// Whether the transition from `a` to `b` shows motion of kind `c`.
pub open spec fn transition_shows(
    c: MotionCategory,
    a: Seq<ProbedView>,
    hidden_a: Seq<Seq<char>>,
    b: Seq<ProbedView>,
    hidden_b: Seq<Seq<char>>,
    motions: Seq<PairMotion>,
) -> bool {
    ||| exists|j: int| 0 <= j < b.len() && #[trigger] later_shows(c, a, hidden_a, b, motions, j)
    ||| exists|i: int| 0 <= i < a.len() && #[trigger] earlier_shows(c, a, b, hidden_b, i)
}

/// Position of the element of `a` that stands for `sel`.
pub fn partner_index(a: &Vec<ProbedElement>, sel: &String) -> (r: Option<usize>)
    ensures
        match r {
            Some(i) => i < a@.len() && partner(probed_views(a@), sel@) == Some(i as int),
            None => partner(probed_views(a@), sel@) is None,
        },
{
    let ghost sels = selectors_of(probed_views(a@));
    proof {
        sels.index_of_last_ensures(sel@);
    }
    let mut i: usize = a.len();
    while i > 0
        invariant
            sels == selectors_of(probed_views(a@)),
            sels.len() == a@.len(),
            i <= a@.len(),
            forall|j: int| i <= j < a@.len() ==> sels[j] != sel@,
        decreases i,
    {
        if a[i - 1].selector == *sel {
            proof {
                sels.index_of_last_ensures(sel@);
                assert(sels[i - 1] == sel@);
                assert(sels.contains(sel@));
                let k = sels.index_of_last(sel@)->0;
                if k < i - 1 {
                    assert(sels[i - 1] != sel@);
                }
            }
            return Some(i - 1);
        }
        i = i - 1;
    }
    proof {
        sels.index_of_last_ensures(sel@);
        if sels.contains(sel@) {
            let k = choose|k: int| 0 <= k < sels.len() && sels[k] == sel@;
            assert(sels[k] != sel@);
        }
    }
    None
}

/// Whether two optional strings are equal.
pub fn same_opt(a: &Option<String>, b: &Option<String>) -> (r: bool)
    ensures
        r == (opt_view(*a) == opt_view(*b)),
{
    match (a, b) {
        (Some(x), Some(y)) => *x == *y,
        (None, None) => true,
        _ => false,
    }
}

fn transform_is_visible(t: &Option<String>) -> (r: bool)
    ensures
        r == visible_transform(opt_view(*t)),
{
    proof {
        reveal_strlit("none");
    }
    match t {
        Some(s) => s.unicode_len() > 0 && !same_text(s.as_str(), "none"),
        None => false,
    }
}

pub proof fn lemma_push_contains<A>(s: Seq<A>, x: A, c: A)
    ensures
        s.push(x).contains(c) == (s.contains(c) || c == x),
{
    if s.push(x).contains(c) {
        let k = choose|k: int| 0 <= k < s.len() + 1 && s.push(x)[k] == c;
        if k < s.len() {
            assert(s[k] == c);
        }
    }
    if s.contains(c) {
        let k = choose|k: int| 0 <= k < s.len() && s[k] == c;
        assert(s.push(x)[k] == c);
    }
    if c == x {
        assert(s.push(x)[s.len() as int] == c);
    }
}

/// Every motion category, once each.
pub fn all_categories() -> (v: Vec<MotionCategory>)
    ensures
        forall|c: MotionCategory| #[trigger] v@.contains(c),
        v@.no_duplicates(),
{
    let v = vec![
        MotionCategory::Fade,
        MotionCategory::Translate,
        MotionCategory::Scale,
        MotionCategory::Rotate,
        MotionCategory::ColorChange,
        MotionCategory::Layout,
        MotionCategory::Appearance,
        MotionCategory::Disappearance,
        MotionCategory::TextChange,
    ];
    proof {
        assert forall|c: MotionCategory| #[trigger] v@.contains(c) by {
            match c {
                MotionCategory::Fade => assert(v@[0] == c),
                MotionCategory::Translate => assert(v@[1] == c),
                MotionCategory::Scale => assert(v@[2] == c),
                MotionCategory::Rotate => assert(v@[3] == c),
                MotionCategory::ColorChange => assert(v@[4] == c),
                MotionCategory::Layout => assert(v@[5] == c),
                MotionCategory::Appearance => assert(v@[6] == c),
                MotionCategory::Disappearance => assert(v@[7] == c),
                MotionCategory::TextChange => assert(v@[8] == c),
            }
        }
    }
    v
}

fn paired_shows_exec(c: MotionCategory, ea: &ProbedElement, eb: &ProbedElement, m: PairMotion) -> (r: bool)
    ensures
        r == paired_shows(c, ea@, eb@, m),
{
    let tdiff = !same_opt(&ea.transform, &eb.transform);
    match c {
        MotionCategory::Translate => m.translated || (tdiff && (m.shifted || (m.transforms_unparsed
            && transform_is_visible(&eb.transform)))),
        MotionCategory::Scale => m.resized || (tdiff && m.rescaled),
        MotionCategory::Layout => m.resized,
        MotionCategory::Fade => m.faded,
        MotionCategory::Rotate => tdiff && m.rotated,
        MotionCategory::ColorChange => !same_opt(&ea.color, &eb.color) || !same_opt(
            &ea.background_color,
            &eb.background_color,
        ),
        MotionCategory::TextChange => {
            let has_text = ea.text_content_preview.is_some() || eb.text_content_preview.is_some();
            !same_opt(&ea.text_content_preview, &eb.text_content_preview) && has_text
        },
        MotionCategory::Appearance => false,
        MotionCategory::Disappearance => false,
    }
}

/// The kinds of motion an element paired across the snapshots shows.
fn paired_kinds(ea: &ProbedElement, eb: &ProbedElement, m: PairMotion) -> (out: Vec<MotionCategory>)
    ensures
        forall|c: MotionCategory| #[trigger] out@.contains(c) == paired_shows(c, ea@, eb@, m),
{
    let all = all_categories();
    let mut out: Vec<MotionCategory> = Vec::new();
    let n = all.len();
    let mut i: usize = 0;
    while i < n
        invariant
            n == all@.len(),
            i <= n,
            forall|c: MotionCategory| #[trigger] all@.contains(c),
            forall|c: MotionCategory| #[trigger] out@.contains(c) == exists|k: int| 0 <= k < i && all@[k] == c && paired_shows(c, ea@, eb@, m),
        decreases n - i,
    {
        let c = all[i];
        let ghost before = out@;
        if paired_shows_exec(c, ea, eb, m) {
            out.push(c);
        }
        proof {
            assert forall|d: MotionCategory| #[trigger] out@.contains(d) == exists|k: int| 0 <= k < i + 1 && all@[k] == d && paired_shows(d, ea@, eb@, m) by {
                lemma_push_contains(before, c, d);
                if exists|k: int| 0 <= k < i + 1 && all@[k] == d && paired_shows(d, ea@, eb@, m) {
                    let k = choose|k: int| 0 <= k < i + 1 && all@[k] == d && paired_shows(d, ea@, eb@, m);
                    if k < i {
                        assert(before.contains(d));
                    }
                }
            }
        }
        i = i + 1;
    }
    proof {
        assert forall|c: MotionCategory| #[trigger] out@.contains(c) == paired_shows(c, ea@, eb@, m) by {
            if paired_shows(c, ea@, eb@, m) {
                assert(all@.contains(c));
                let k = choose|k: int| 0 <= k < all@.len() && all@[k] == c;
                assert(0 <= k < n && all@[k] == c && paired_shows(c, ea@, eb@, m));
            }
        }
    }
    out
}

proof fn lemma_kinds_union(acc: Seq<MotionCategory>, xs: Seq<MotionCategory>)
    requires
        acc.no_duplicates(),
    ensures
        kinds_union(acc, xs).no_duplicates(),
        forall|c: MotionCategory| #[trigger] kinds_union(acc, xs).contains(c) == (acc.contains(c) || xs.contains(c)),
    decreases xs.len(),
{
    if xs.len() > 0 {
        let d = xs.drop_last();
        lemma_kinds_union(acc, d);
        let u = kinds_union(acc, d);
        assert forall|c: MotionCategory| #[trigger] xs.contains(c) == (d.contains(c) || c == xs.last()) by {
            if xs.contains(c) {
                let k = choose|k: int| 0 <= k < xs.len() && xs[k] == c;
                if k < xs.len() - 1 {
                    assert(d[k] == c);
                }
            }
            if d.contains(c) {
                let k = choose|k: int| 0 <= k < d.len() && d[k] == c;
                assert(xs[k] == c);
            }
            if c == xs.last() {
                assert(xs[xs.len() - 1] == c);
            }
        }
        if !u.contains(xs.last()) {
            assert forall|c: MotionCategory| #[trigger] u.push(xs.last()).contains(c) == (u.contains(c) || c == xs.last()) by {
                if u.push(xs.last()).contains(c) {
                    let k = choose|k: int| 0 <= k < u.len() + 1 && u.push(xs.last())[k] == c;
                    if k < u.len() {
                        assert(u[k] == c);
                    }
                }
                if u.contains(c) {
                    let k = choose|k: int| 0 <= k < u.len() && u[k] == c;
                    assert(u.push(xs.last())[k] == c);
                }
                if c == xs.last() {
                    assert(u.push(xs.last())[u.len() as int] == c);
                }
            }
        }
    }
}

/// The kinds of motion the transition from snapshot `a` to snapshot `b`
/// shows, each once; empty unless both snapshots are present.
/// `motions[j]` is the geometric comparison of `b`'s element `j` with its
/// partner.  The order of the kinds carries no meaning.
pub fn classify_transition(a: Option<&LayoutKeys>, b: Option<&LayoutKeys>, motions: &Vec<PairMotion>) -> (out: Vec<MotionCategory>)
    requires
        b matches Some(lb) ==> motions@.len() == lb.elements@.len(),
    ensures
        out@.no_duplicates(),
        match (a, b) {
            (Some(la), Some(lb)) => forall|c: MotionCategory| #[trigger] out@.contains(c) == transition_shows(
                c,
                probed_views(la.elements@),
                string_views(la.hidden_selectors@),
                probed_views(lb.elements@),
                string_views(lb.hidden_selectors@),
                motions@,
            ),
            _ => out@.len() == 0,
        },
{
    let (la, lb) = match (a, b) {
        (Some(x), Some(y)) => (x, y),
        _ => {
            return Vec::new();
        },
    };
    let ghost av = probed_views(la.elements@);
    let ghost bv = probed_views(lb.elements@);
    let ghost ha = string_views(la.hidden_selectors@);
    let ghost hb = string_views(lb.hidden_selectors@);
    let mut out: Vec<MotionCategory> = Vec::new();
    let nb = lb.elements.len();
    let mut j: usize = 0;
    while j < nb
        invariant
            nb == lb.elements@.len(),
            motions@.len() == nb,
            av == probed_views(la.elements@),
            bv == probed_views(lb.elements@),
            ha == string_views(la.hidden_selectors@),
            j <= nb,
            out@.no_duplicates(),
            forall|c: MotionCategory| #[trigger] out@.contains(c) == exists|k: int| 0 <= k < j && #[trigger] later_shows(c, av, ha, bv, motions@, k),
        decreases nb - j,
    {
        let eb = &lb.elements[j];
        let rep = partner_index(&lb.elements, &eb.selector);
        let mut kinds: Vec<MotionCategory> = Vec::new();
        if rep == Some(j) {
            match partner_index(&la.elements, &eb.selector) {
                Some(i) => {
                    kinds = paired_kinds(&la.elements[i], eb, motions[j]);
                },
                None => {
                    if contains_text(&la.hidden_selectors, &eb.selector) {
                        kinds.push(MotionCategory::Fade);
                    } else {
                        kinds.push(MotionCategory::Appearance);
                    }
                },
            }
        }
        let ghost before = out@;
        proof {
            assert(bv[j as int] == eb@);
            assert forall|c: MotionCategory| #[trigger] kinds@.contains(c) == later_shows(c, av, ha, bv, motions@, j as int) by {
                if rep == Some(j) && partner(av, eb@.selector) is None {
                    if kinds@.contains(c) {
                        assert(kinds@[0] == c);
                    }
                    if later_shows(c, av, ha, bv, motions@, j as int) {
                        assert(kinds@[0] == c);
                    }
                }
            }
            lemma_kinds_union(before, kinds@);
        }
        extend_unique_kinds(&mut out, &kinds);
        proof {
            assert forall|c: MotionCategory| #[trigger] out@.contains(c) == exists|k: int| 0 <= k < j + 1 && #[trigger] later_shows(c, av, ha, bv, motions@, k) by {
                if later_shows(c, av, ha, bv, motions@, j as int) {
                    assert(kinds@.contains(c));
                }
                if exists|k: int| 0 <= k < j + 1 && #[trigger] later_shows(c, av, ha, bv, motions@, k) {
                    let k = choose|k: int| 0 <= k < j + 1 && #[trigger] later_shows(c, av, ha, bv, motions@, k);
                    if k < j {
                        assert(before.contains(c));
                    }
                }
            }
        }
        j = j + 1;
    }
    let na = la.elements.len();
    let mut i: usize = 0;
    while i < na
        invariant
            na == la.elements@.len(),
            av == probed_views(la.elements@),
            bv == probed_views(lb.elements@),
            ha == string_views(la.hidden_selectors@),
            hb == string_views(lb.hidden_selectors@),
            motions@.len() == bv.len(),
            i <= na,
            out@.no_duplicates(),
            forall|c: MotionCategory| #[trigger] out@.contains(c) == (
                (exists|k: int| 0 <= k < bv.len() && #[trigger] later_shows(c, av, ha, bv, motions@, k))
                || (exists|k: int| 0 <= k < i && #[trigger] earlier_shows(c, av, bv, hb, k))),
        decreases na - i,
    {
        let ea = &la.elements[i];
        let mut kinds: Vec<MotionCategory> = Vec::new();
        let absent = partner_index(&lb.elements, &ea.selector).is_none();
        if absent {
            if contains_text(&lb.hidden_selectors, &ea.selector) {
                kinds.push(MotionCategory::Fade);
            } else {
                kinds.push(MotionCategory::Disappearance);
            }
        }
        let ghost before = out@;
        proof {
            assert(av[i as int] == ea@);
            let sb = selectors_of(bv);
            sb.index_of_last_ensures(ea@.selector);
            assert forall|c: MotionCategory| #[trigger] kinds@.contains(c) == earlier_shows(c, av, bv, hb, i as int) by {
                if absent {
                    if kinds@.contains(c) {
                        assert(kinds@[0] == c);
                    }
                    if earlier_shows(c, av, bv, hb, i as int) {
                        assert(kinds@[0] == c);
                    }
                }
            }
            lemma_kinds_union(before, kinds@);
        }
        extend_unique_kinds(&mut out, &kinds);
        proof {
            assert forall|c: MotionCategory| #[trigger] out@.contains(c) == (
                (exists|k: int| 0 <= k < bv.len() && #[trigger] later_shows(c, av, ha, bv, motions@, k))
                || (exists|k: int| 0 <= k < i + 1 && #[trigger] earlier_shows(c, av, bv, hb, k))) by {
                if earlier_shows(c, av, bv, hb, i as int) {
                    assert(kinds@.contains(c));
                }
                if exists|k: int| 0 <= k < i + 1 && #[trigger] earlier_shows(c, av, bv, hb, k) {
                    let k = choose|k: int| 0 <= k < i + 1 && #[trigger] earlier_shows(c, av, bv, hb, k);
                    if k < i {
                        assert(before.contains(c));
                    }
                }
            }
        }
        i = i + 1;
    }
    out
}


/// The selector of an element followed by the declared selectors it matches.
pub open spec fn with_matches(e: ProbedView) -> Seq<Seq<char>> {
    seq![e.selector] + e.matched_selectors
}

/// Whether a paired element moved: its box moved or resized, its opacity
/// changed, its transform string changed, or its text changed.
pub open spec fn element_moved(ea: ProbedView, eb: ProbedView, m: PairMotion) -> bool {
    m.translated || m.resized || m.faded || ea.transform != eb.transform || text_changed(ea, eb)
}

/// What element `j` of the later snapshot contributes to the moved
/// selectors: itself and its matches when it is new or moved.
pub open spec fn later_moved_entries(a: Seq<ProbedView>, b: Seq<ProbedView>, motions: Seq<PairMotion>, j: int) -> Seq<Seq<char>> {
    match partner(a, b[j].selector) {
        None => with_matches(b[j]),
        Some(i) => if element_moved(a[i], b[j], motions[j]) {
            with_matches(b[j])
        } else {
            Seq::empty()
        },
    }
}

pub open spec fn moved_from_later(a: Seq<ProbedView>, b: Seq<ProbedView>, motions: Seq<PairMotion>, n: int) -> Seq<Seq<char>>
    decreases n,
{
    if n <= 0 {
        Seq::empty()
    } else {
        moved_from_later(a, b, motions, n - 1) + later_moved_entries(a, b, motions, n - 1)
    }
}

/// What an element of the earlier snapshot contributes: itself and its
/// matches when its selector is gone from the later snapshot.
pub open spec fn vanished_entries(b: Seq<ProbedView>, ea: ProbedView) -> Seq<Seq<char>> {
    if selectors_of(b).contains(ea.selector) {
        Seq::empty()
    } else {
        with_matches(ea)
    }
}

pub open spec fn moved_from_earlier(a: Seq<ProbedView>, b: Seq<ProbedView>, n: int) -> Seq<Seq<char>>
    decreases n,
{
    if n <= 0 {
        Seq::empty()
    } else {
        moved_from_earlier(a, b, n - 1) + vanished_entries(b, a[n - 1])
    }
}

/// Appends the selector of `e` and the selectors it matches.
fn append_with_matches(out: &mut Vec<String>, e: &ProbedElement)
    ensures
        string_views(final(out)@) == string_views(old(out)@) + with_matches(e@),
{
    let ghost start = string_views(out@);
    out.push(e.selector.clone());
    proof {
        assert(string_views(out@) =~= start + seq![e@.selector]);
    }
    let ms = &e.matched_selectors;
    let n = ms.len();
    let mut i: usize = 0;
    while i < n
        invariant
            n == ms@.len(),
            i <= n,
            string_views(out@) == start + seq![e@.selector] + string_views(ms@).take(i as int),
        decreases n - i,
    {
        let ghost before = string_views(out@);
        out.push(ms[i].clone());
        proof {
            assert(string_views(ms@).take(i + 1) =~= string_views(ms@).take(i as int).push(ms@[i as int]@));
            assert(string_views(out@) =~= before.push(ms@[i as int]@));
        }
        i = i + 1;
    }
    assert(string_views(ms@).take(n as int) =~= string_views(ms@));
    assert(seq![e@.selector] + string_views(ms@) == with_matches(e@));
    assert(start + seq![e@.selector] + string_views(ms@) =~= start + with_matches(e@));
}

/// The selectors that moved between snapshot `a` and snapshot `b`, in
/// order: for each element of `b`, itself and its matched selectors when
/// it has no partner in `a` or moved relative to it; then, for each
/// element of `a` whose selector is gone from `b`, itself and its matched
/// selectors.  Empty unless both snapshots are present.  Entries may
/// repeat.
pub fn moved_selectors_between(a: Option<&LayoutKeys>, b: Option<&LayoutKeys>, motions: &Vec<PairMotion>) -> (out: Vec<String>)
    requires
        b matches Some(lb) ==> motions@.len() == lb.elements@.len(),
    ensures
        match (a, b) {
            (Some(la), Some(lb)) => string_views(out@) == moved_from_later(
                probed_views(la.elements@),
                probed_views(lb.elements@),
                motions@,
                lb.elements@.len() as int,
            ) + moved_from_earlier(probed_views(la.elements@), probed_views(lb.elements@), la.elements@.len() as int),
            _ => out@.len() == 0,
        },
{
    let (la, lb) = match (a, b) {
        (Some(x), Some(y)) => (x, y),
        _ => {
            return Vec::new();
        },
    };
    let ghost av = probed_views(la.elements@);
    let ghost bv = probed_views(lb.elements@);
    let mut out: Vec<String> = Vec::new();
    let nb = lb.elements.len();
    let mut j: usize = 0;
    while j < nb
        invariant
            nb == lb.elements@.len(),
            motions@.len() == nb,
            av == probed_views(la.elements@),
            bv == probed_views(lb.elements@),
            j <= nb,
            string_views(out@) == moved_from_later(av, bv, motions@, j as int),
        decreases nb - j,
    {
        let eb = &lb.elements[j];
        proof {
            assert(bv[j as int] == eb@);
        }
        match partner_index(&la.elements, &eb.selector) {
            None => {
                append_with_matches(&mut out, eb);
            },
            Some(i) => {
                let ea = &la.elements[i];
                proof {
                    assert(av[i as int] == ea@);
                }
                let m = motions[j];
                let has_text = ea.text_content_preview.is_some() || eb.text_content_preview.is_some();
                let text_diff = !same_opt(&ea.text_content_preview, &eb.text_content_preview) && has_text;
                if m.translated || m.resized || m.faded || !same_opt(&ea.transform, &eb.transform) || text_diff {
                    append_with_matches(&mut out, eb);
                } else {
                    proof {
                        assert(string_views(out@) =~= moved_from_later(av, bv, motions@, j as int) + Seq::<Seq<char>>::empty());
                    }
                }
            },
        }
        j = j + 1;
    }
    let ghost later = string_views(out@);
    let na = la.elements.len();
    let mut i: usize = 0;
    while i < na
        invariant
            na == la.elements@.len(),
            av == probed_views(la.elements@),
            bv == probed_views(lb.elements@),
            i <= na,
            string_views(out@) == later + moved_from_earlier(av, bv, i as int),
        decreases na - i,
    {
        let ea = &la.elements[i];
        proof {
            assert(av[i as int] == ea@);
            selectors_of(bv).index_of_last_ensures(ea@.selector);
        }
        if partner_index(&lb.elements, &ea.selector).is_none() {
            append_with_matches(&mut out, ea);
            proof {
                assert(later + moved_from_earlier(av, bv, i + 1) =~= later + moved_from_earlier(av, bv, i as int) + with_matches(ea@));
            }
        } else {
            proof {
                assert(later + moved_from_earlier(av, bv, i + 1) =~= later + moved_from_earlier(av, bv, i as int));
            }
        }
        i = i + 1;
    }
    out
}

/// `acc` with `x` appended unless it already holds it.
fn push_unique_text(acc: &mut Vec<String>, x: &String)
    ensures
        string_views(final(acc)@) == (if string_views(old(acc)@).contains(x@) {
            string_views(old(acc)@)
        } else {
            string_views(old(acc)@).push(x@)
        }),
{
    if !contains_text(acc, x) {
        let ghost before = string_views(acc@);
        acc.push(x.clone());
        proof {
            assert(string_views(acc@) =~= before.push(x@));
        }
    }
}

proof fn lemma_push_unique<A>(s: Seq<A>, x: A)
    requires
        s.no_duplicates(),
        !s.contains(x),
    ensures
        s.push(x).no_duplicates(),
{
    assert forall|i: int, j: int| 0 <= i < s.len() + 1 && 0 <= j < s.len() + 1 && i != j implies s.push(x)[i] != s.push(x)[j] by {
        if i < s.len() && j < s.len() {
            assert(s[i] != s[j]);
        } else if i == s.len() {
            assert(s[j] == s.push(x)[j]);
        } else {
            assert(s[i] == s.push(x)[i]);
        }
    }
}

/// Selectors present in `xs` but in neither `ys` nor `hidden`.
pub open spec fn newly_present(xs: Seq<ProbedView>, ys: Seq<ProbedView>, hidden: Seq<Seq<char>>, s: Seq<char>) -> bool {
    selectors_of(xs).contains(s) && !selectors_of(ys).contains(s) && !hidden.contains(s)
}

/// The selectors of `xs` absent from `ys` and not in `hidden`, each once.
fn fresh_selectors(xs: &Vec<ProbedElement>, ys: &Vec<ProbedElement>, hidden: &Vec<String>) -> (out: Vec<String>)
    ensures
        string_views(out@).no_duplicates(),
        forall|s: Seq<char>| #[trigger] string_views(out@).contains(s) == newly_present(
            probed_views(xs@),
            probed_views(ys@),
            string_views(hidden@),
            s,
        ),
{
    let ghost xv = probed_views(xs@);
    let ghost yv = probed_views(ys@);
    let ghost hv = string_views(hidden@);
    let mut out: Vec<String> = Vec::new();
    let n = xs.len();
    let mut j: usize = 0;
    while j < n
        invariant
            n == xs@.len(),
            xv == probed_views(xs@),
            yv == probed_views(ys@),
            hv == string_views(hidden@),
            j <= n,
            string_views(out@).no_duplicates(),
            forall|s: Seq<char>| #[trigger] string_views(out@).contains(s) == (
                (exists|k: int| 0 <= k < j && xv[k].selector == s) && !selectors_of(yv).contains(s) && !hv.contains(s)),
        decreases n - j,
    {
        let e = &xs[j];
        let ghost before = string_views(out@);
        proof {
            assert(xv[j as int] == e@);
            selectors_of(yv).index_of_last_ensures(e@.selector);
        }
        if partner_index(ys, &e.selector).is_none() && !contains_text(hidden, &e.selector) {
            push_unique_text(&mut out, &e.selector);
            proof {
                if !before.contains(e@.selector) {
                    lemma_push_unique(before, e@.selector);
                }
            }
        }
        proof {
            assert forall|s: Seq<char>| #[trigger] string_views(out@).contains(s) == (
                (exists|k: int| 0 <= k < j + 1 && xv[k].selector == s) && !selectors_of(yv).contains(s) && !hv.contains(s)) by {
                lemma_push_contains(before, e@.selector, s);
                if exists|k: int| 0 <= k < j + 1 && xv[k].selector == s {
                    let k = choose|k: int| 0 <= k < j + 1 && xv[k].selector == s;
                    if k < j {
                        assert(exists|k: int| 0 <= k < j && xv[k].selector == s);
                    }
                }
            }
        }
        j = j + 1;
    }
    proof {
        assert forall|s: Seq<char>| #[trigger] string_views(out@).contains(s) == newly_present(xv, yv, hv, s) by {
            if selectors_of(xv).contains(s) {
                let k = choose|k: int| 0 <= k < selectors_of(xv).len() && selectors_of(xv)[k] == s;
                assert(xv[k].selector == s);
            }
            if exists|k: int| 0 <= k < n && xv[k].selector == s {
                let k = choose|k: int| 0 <= k < n && xv[k].selector == s;
                assert(selectors_of(xv)[k] == s);
            }
        }
    }
    out
}

/// The selectors that really appeared (present in `b`, absent from `a`
/// and not merely hidden there) and really disappeared (the converse),
/// each once; both empty unless both snapshots are present.  Their order
/// carries no meaning.
pub fn appeared_disappeared_between(a: Option<&LayoutKeys>, b: Option<&LayoutKeys>) -> (r: (Vec<String>, Vec<String>))
    ensures
        string_views(r.0@).no_duplicates(),
        string_views(r.1@).no_duplicates(),
        match (a, b) {
            (Some(la), Some(lb)) => {
                let av = probed_views(la.elements@);
                let bv = probed_views(lb.elements@);
                &&& forall|s: Seq<char>| #[trigger] string_views(r.0@).contains(s) == newly_present(bv, av, string_views(la.hidden_selectors@), s)
                &&& forall|s: Seq<char>| #[trigger] string_views(r.1@).contains(s) == newly_present(av, bv, string_views(lb.hidden_selectors@), s)
            },
            _ => r.0@.len() == 0 && r.1@.len() == 0,
        },
{
    match (a, b) {
        (Some(la), Some(lb)) => {
            let appeared = fresh_selectors(&lb.elements, &la.elements, &la.hidden_selectors);
            let disappeared = fresh_selectors(&la.elements, &lb.elements, &lb.hidden_selectors);
            (appeared, disappeared)
        },
        _ => (Vec::new(), Vec::new()),
    }
}


pub open spec fn opt_or(o: Option<Seq<char>>, d: Seq<char>) -> Seq<char> {
    match o {
        Some(s) => s,
        None => d,
    }
}

pub open spec fn change_if(changed: bool, c: StyleChangeView) -> Seq<StyleChangeView> {
    if changed {
        seq![c]
    } else {
        Seq::empty()
    }
}

/// The style changes of a paired element, in the order transform,
/// background colour, colour, display.  A missing transform reads as
/// `none`, a missing colour as the empty string.
pub open spec fn style_changes_of(ea: ProbedView, eb: ProbedView) -> Seq<StyleChangeView> {
    let sel = eb.selector;
    change_if(
        ea.transform != eb.transform,
        StyleChangeView { selector: sel, property: "transform"@, from: opt_or(ea.transform, "none"@), to: opt_or(eb.transform, "none"@) },
    ) + change_if(
        ea.background_color != eb.background_color,
        StyleChangeView {
            selector: sel,
            property: "background-color"@,
            from: opt_or(ea.background_color, Seq::empty()),
            to: opt_or(eb.background_color, Seq::empty()),
        },
    ) + change_if(
        ea.color != eb.color,
        StyleChangeView { selector: sel, property: "color"@, from: opt_or(ea.color, Seq::empty()), to: opt_or(eb.color, Seq::empty()) },
    ) + change_if(
        ea.display != eb.display,
        StyleChangeView { selector: sel, property: "display"@, from: ea.display, to: eb.display },
    )
}

/// The partner pair `(i, j)` of element `j` of `b`, when it stands for its
/// selector and has a partner `i` in `a`.
pub open spec fn pair_at(a: Seq<ProbedView>, b: Seq<ProbedView>, j: int) -> Seq<(int, int)> {
    if stands_for_selector(b, j) {
        match partner(a, b[j].selector) {
            Some(i) => seq![(i, j)],
            None => Seq::empty(),
        }
    } else {
        Seq::empty()
    }
}

pub open spec fn pairs_upto(a: Seq<ProbedView>, b: Seq<ProbedView>, n: int) -> Seq<(int, int)>
    decreases n,
{
    if n <= 0 {
        Seq::empty()
    } else {
        pairs_upto(a, b, n - 1) + pair_at(a, b, n - 1)
    }
}

pub open spec fn styles_upto(a: Seq<ProbedView>, b: Seq<ProbedView>, n: int) -> Seq<StyleChangeView>
    decreases n,
{
    if n <= 0 {
        Seq::empty()
    } else {
        styles_upto(a, b, n - 1) + (if stands_for_selector(b, n - 1) {
            match partner(a, b[n - 1].selector) {
                Some(i) => style_changes_of(a[i], b[n - 1]),
                None => Seq::empty(),
            }
        } else {
            Seq::empty()
        })
    }
}

/// The string side of the difference between two snapshots.
pub struct LayoutDiff {
    /// `(i, j)`: element `i` of the earlier snapshot is the partner of
    /// element `j` of the later one, in order of `j`.
    pub pairs: Vec<(usize, usize)>,
    pub style_changes: Vec<StyleChange>,
    pub appeared: Vec<String>,
    pub disappeared: Vec<String>,
}

pub open spec fn pair_views(v: Seq<(usize, usize)>) -> Seq<(int, int)> {
    v.map_values(|p: (usize, usize)| (p.0 as int, p.1 as int))
}

pub open spec fn style_views(v: Seq<StyleChange>) -> Seq<StyleChangeView> {
    v.map_values(|c: StyleChange| c@)
}

fn text_or(o: &Option<String>, d: &str) -> (s: String)
    ensures
        s@ == opt_or(opt_view(*o), d@),
{
    match o {
        Some(x) => x.clone(),
        None => String::from_str(d),
    }
}

fn push_style(out: &mut Vec<StyleChange>, c: StyleChange)
    ensures
        style_views(final(out)@) == style_views(old(out)@).push(c@),
{
    let ghost before = style_views(out@);
    out.push(c);
    proof {
        assert(style_views(out@) =~= before.push(c@));
    }
}

fn append_style_changes(out: &mut Vec<StyleChange>, ea: &ProbedElement, eb: &ProbedElement)
    ensures
        style_views(final(out)@) == style_views(old(out)@) + style_changes_of(ea@, eb@),
{
    proof {
        reveal_strlit("transform");
        reveal_strlit("none");
        reveal_strlit("background-color");
        reveal_strlit("color");
        reveal_strlit("display");
        reveal_strlit("");
        assert(""@ =~= Seq::<char>::empty());
    }
    let ghost start = style_views(out@);
    let ghost sel = eb@.selector;
    let t = !same_opt(&ea.transform, &eb.transform);
    if t {
        push_style(out, StyleChange {
            selector: eb.selector.clone(),
            property: String::from_str("transform"),
            from: text_or(&ea.transform, "none"),
            to: text_or(&eb.transform, "none"),
        });
    }
    let ghost s1 = style_views(out@);
    assert(s1 == start + change_if(t, StyleChangeView { selector: sel, property: "transform"@, from: opt_or(ea@.transform, "none"@), to: opt_or(eb@.transform, "none"@) }));
    let bg = !same_opt(&ea.background_color, &eb.background_color);
    if bg {
        push_style(out, StyleChange {
            selector: eb.selector.clone(),
            property: String::from_str("background-color"),
            from: text_or(&ea.background_color, ""),
            to: text_or(&eb.background_color, ""),
        });
    }
    let ghost s2 = style_views(out@);
    assert(s2 =~= s1 + change_if(bg, StyleChangeView { selector: sel, property: "background-color"@, from: opt_or(ea@.background_color, Seq::empty()), to: opt_or(eb@.background_color, Seq::empty()) }));
    let c = !same_opt(&ea.color, &eb.color);
    if c {
        push_style(out, StyleChange {
            selector: eb.selector.clone(),
            property: String::from_str("color"),
            from: text_or(&ea.color, ""),
            to: text_or(&eb.color, ""),
        });
    }
    let ghost s3 = style_views(out@);
    assert(s3 =~= s2 + change_if(c, StyleChangeView { selector: sel, property: "color"@, from: opt_or(ea@.color, Seq::empty()), to: opt_or(eb@.color, Seq::empty()) }));
    let d = ea.display != eb.display;
    if d {
        push_style(out, StyleChange {
            selector: eb.selector.clone(),
            property: String::from_str("display"),
            from: ea.display.clone(),
            to: eb.display.clone(),
        });
    }
    proof {
        let tc = change_if(t, StyleChangeView { selector: sel, property: "transform"@, from: opt_or(ea@.transform, "none"@), to: opt_or(eb@.transform, "none"@) });
        let bc = change_if(bg, StyleChangeView { selector: sel, property: "background-color"@, from: opt_or(ea@.background_color, Seq::empty()), to: opt_or(eb@.background_color, Seq::empty()) });
        let cc = change_if(c, StyleChangeView { selector: sel, property: "color"@, from: opt_or(ea@.color, Seq::empty()), to: opt_or(eb@.color, Seq::empty()) });
        let dc = change_if(d, StyleChangeView { selector: sel, property: "display"@, from: ea@.display, to: eb@.display });
        assert(s2 =~= s1 + bc);
        assert(s3 =~= s2 + cc);
        assert(style_views(out@) =~= s3 + dc);
        assert(style_changes_of(ea@, eb@) == tc + bc + cc + dc);
        assert(style_views(out@) =~= start + (tc + bc + cc + dc));
    }
}

/// The string side of the difference between snapshot `a` and snapshot
/// `b` (all empty unless both are present): the partner pairs, in the
/// order of `b`; the style changes of the paired elements, in the same
/// order; and the selectors that appeared or disappeared, each once, in
/// an order that carries no meaning.
pub fn layout_diff(a: Option<&LayoutKeys>, b: Option<&LayoutKeys>) -> (d: LayoutDiff)
    ensures
        string_views(d.appeared@).no_duplicates(),
        string_views(d.disappeared@).no_duplicates(),
        match (a, b) {
            (Some(la), Some(lb)) => {
                let av = probed_views(la.elements@);
                let bv = probed_views(lb.elements@);
                &&& pair_views(d.pairs@) == pairs_upto(av, bv, bv.len() as int)
                &&& style_views(d.style_changes@) == styles_upto(av, bv, bv.len() as int)
                &&& forall|s: Seq<char>| #[trigger] string_views(d.appeared@).contains(s) == newly_present(bv, av, Seq::empty(), s)
                &&& forall|s: Seq<char>| #[trigger] string_views(d.disappeared@).contains(s) == newly_present(av, bv, Seq::empty(), s)
            },
            _ => d.pairs@.len() == 0 && d.style_changes@.len() == 0 && d.appeared@.len() == 0 && d.disappeared@.len() == 0,
        },
{
    let (la, lb) = match (a, b) {
        (Some(x), Some(y)) => (x, y),
        _ => {
            return LayoutDiff { pairs: Vec::new(), style_changes: Vec::new(), appeared: Vec::new(), disappeared: Vec::new() };
        },
    };
    let ghost av = probed_views(la.elements@);
    let ghost bv = probed_views(lb.elements@);
    let mut pairs: Vec<(usize, usize)> = Vec::new();
    let mut styles: Vec<StyleChange> = Vec::new();
    let nb = lb.elements.len();
    let mut j: usize = 0;
    while j < nb
        invariant
            nb == lb.elements@.len(),
            av == probed_views(la.elements@),
            bv == probed_views(lb.elements@),
            j <= nb,
            pair_views(pairs@) == pairs_upto(av, bv, j as int),
            style_views(styles@) == styles_upto(av, bv, j as int),
        decreases nb - j,
    {
        let eb = &lb.elements[j];
        proof {
            assert(bv[j as int] == eb@);
        }
        let ghost p0 = pair_views(pairs@);
        let ghost s0 = style_views(styles@);
        if partner_index(&lb.elements, &eb.selector) == Some(j) {
            match partner_index(&la.elements, &eb.selector) {
                Some(i) => {
                    pairs.push((i, j));
                    proof {
                        assert(pair_views(pairs@) =~= p0 + seq![(i as int, j as int)]);
                        assert(av[i as int] == la.elements@[i as int]@);
                    }
                    append_style_changes(&mut styles, &la.elements[i], eb);
                },
                None => {
                    proof {
                        assert(pair_views(pairs@) =~= p0 + Seq::<(int, int)>::empty());
                        assert(style_views(styles@) =~= s0 + Seq::<StyleChangeView>::empty());
                    }
                },
            }
        } else {
            proof {
                assert(pair_views(pairs@) =~= p0 + Seq::<(int, int)>::empty());
                assert(style_views(styles@) =~= s0 + Seq::<StyleChangeView>::empty());
            }
        }
        j = j + 1;
    }
    let none: Vec<String> = Vec::new();
    proof {
        assert(string_views(none@) =~= Seq::<Seq<char>>::empty());
    }
    let appeared = fresh_selectors(&lb.elements, &la.elements, &none);
    let disappeared = fresh_selectors(&la.elements, &lb.elements, &none);
    LayoutDiff { pairs, style_changes: styles, appeared, disappeared }
}


proof fn lemma_self_diff_upto(a: Seq<ProbedView>, n: int)
    requires
        0 <= n <= a.len(),
    ensures
        styles_upto(a, a, n) == Seq::<StyleChangeView>::empty(),
        forall|k: int| 0 <= k < pairs_upto(a, a, n).len() ==> #[trigger] pairs_upto(a, a, n)[k].0 == pairs_upto(
            a,
            a,
            n,
        )[k].1,
    decreases n,
{
    if n > 0 {
        lemma_self_diff_upto(a, n - 1);
        let j = n - 1;
        let e = a[j];
        assert(style_changes_of(e, e) =~= Seq::<StyleChangeView>::empty());
        let prev = pairs_upto(a, a, n - 1);
        let step = pair_at(a, a, j);
        if stands_for_selector(a, j) {
            assert(step == seq![(j, j)]);
        }
        assert forall|k: int| 0 <= k < pairs_upto(a, a, n).len() implies #[trigger] pairs_upto(a, a, n)[k].0
            == pairs_upto(a, a, n)[k].1 by {
            assert(pairs_upto(a, a, n) == prev + step);
            if k < prev.len() {
                assert(pairs_upto(a, a, n)[k] == prev[k]);
            } else {
                assert(pairs_upto(a, a, n)[k] == step[k - prev.len()]);
            }
        }
        assert(styles_upto(a, a, n) =~= Seq::<StyleChangeView>::empty());
    }
}

/// Diffing a snapshot against itself finds no style change and nothing
/// that appeared or disappeared, and pairs every element that stands for
/// its selector with itself.
pub proof fn law_diff_against_itself(a: Seq<ProbedView>)
    ensures
        styles_upto(a, a, a.len() as int) == Seq::<StyleChangeView>::empty(),
        forall|k: int| 0 <= k < pairs_upto(a, a, a.len() as int).len() ==> #[trigger] pairs_upto(a, a, a.len() as int)[k].0
            == pairs_upto(a, a, a.len() as int)[k].1,
        forall|s: Seq<char>| !#[trigger] newly_present(a, a, Seq::empty(), s),
{
    lemma_self_diff_upto(a, a.len() as int);
}

proof fn lemma_partner_is_last(a: Seq<ProbedView>, i: int)
    requires
        0 <= i < a.len(),
        forall|k: int| i < k < a.len() ==> (#[trigger] a[k]).selector != a[i].selector,
    ensures
        partner(a, a[i].selector) == Some(i),
{
    let sels = selectors_of(a);
    sels.index_of_last_ensures(a[i].selector);
    assert(sels[i] == a[i].selector);
    match sels.index_of_last(a[i].selector) {
        Some(x) => {
            if x > i {
                assert(sels[x] == a[x].selector);
            }
        },
        None => {},
    }
}

/// An element of the later snapshot that is the last with its selector,
/// paired with the last element of the earlier snapshot carrying the same
/// selector, makes the transition show: a translation when its box moved,
/// or when its transform changed and the decomposed translation moved; a
/// scale when its box was resized, or when its transform changed and the
/// decomposed scale changed; a layout change when its box was resized; a
/// fade when its opacity changed; a rotation when its transform changed
/// and the decomposed rotation changed; a colour change when its colour
/// or background colour changed; a text change when its text preview
/// changed and one of the two is present.
pub proof fn law_paired_element_shows(
    a: Seq<ProbedView>,
    hidden_a: Seq<Seq<char>>,
    b: Seq<ProbedView>,
    hidden_b: Seq<Seq<char>>,
    motions: Seq<PairMotion>,
    i: int,
    j: int,
)
    requires
        0 <= i < a.len(),
        0 <= j < b.len(),
        a[i].selector == b[j].selector,
        forall|k: int| i < k < a.len() ==> (#[trigger] a[k]).selector != a[i].selector,
        forall|k: int| j < k < b.len() ==> (#[trigger] b[k]).selector != b[j].selector,
    ensures
        ({
            let (ea, eb, m) = (a[i], b[j], motions[j]);
            let tdiff = ea.transform != eb.transform;
            let shows = |c: MotionCategory| transition_shows(c, a, hidden_a, b, hidden_b, motions);
            &&& m.translated || (tdiff && m.shifted) ==> shows(MotionCategory::Translate)
            &&& m.resized || (tdiff && m.rescaled) ==> shows(MotionCategory::Scale)
            &&& m.resized ==> shows(MotionCategory::Layout)
            &&& m.faded ==> shows(MotionCategory::Fade)
            &&& tdiff && m.rotated ==> shows(MotionCategory::Rotate)
            &&& ea.color != eb.color || ea.background_color != eb.background_color ==> shows(MotionCategory::ColorChange)
            &&& ea.text_content_preview != eb.text_content_preview && (ea.text_content_preview is Some
                || eb.text_content_preview is Some) ==> shows(MotionCategory::TextChange)
        }),
{
    lemma_partner_is_last(a, i);
    lemma_partner_is_last(b, j);
    assert forall|c: MotionCategory| paired_shows(c, a[i], b[j], motions[j]) implies transition_shows(
        c,
        a,
        hidden_a,
        b,
        hidden_b,
        motions,
    ) by {
        assert(later_shows(c, a, hidden_a, b, motions, j));
    }
}

/// The measurement of an element that did not move at all.
pub open spec fn still() -> PairMotion {
    PairMotion {
        translated: false,
        resized: false,
        faded: false,
        rotated: false,
        rescaled: false,
        shifted: false,
        transforms_unparsed: false,
    }
}

/// Comparing a snapshot with itself, no element having moved, shows no
/// motion of any kind.
pub proof fn law_unchanged_snapshot_shows_nothing(a: Seq<ProbedView>, hidden: Seq<Seq<char>>, motions: Seq<PairMotion>, c: MotionCategory)
    requires
        motions.len() == a.len(),
        forall|j: int| 0 <= j < motions.len() ==> #[trigger] motions[j] == still(),
    ensures
        !transition_shows(c, a, hidden, a, hidden, motions),
{
    assert forall|j: int| 0 <= j < a.len() implies !#[trigger] later_shows(c, a, hidden, a, motions, j) by {
        selectors_of(a).index_of_last_ensures(a[j].selector);
        assert(selectors_of(a)[j] == a[j].selector);
        if stands_for_selector(a, j) {
            assert(partner(a, a[j].selector) == Some(j));
            assert(motions[j] == still());
        }
    }
    assert forall|i: int| 0 <= i < a.len() implies !#[trigger] earlier_shows(c, a, a, hidden, i) by {
        assert(selectors_of(a)[i] == a[i].selector);
    }
}

/// A selector reported as appeared makes the transition show an
/// appearance, and one reported as disappeared a disappearance: the two
/// reports never contradict the classification.
pub proof fn law_appearance_agrees(
    a: Seq<ProbedView>,
    hidden_a: Seq<Seq<char>>,
    b: Seq<ProbedView>,
    hidden_b: Seq<Seq<char>>,
    motions: Seq<PairMotion>,
    s: Seq<char>,
)
    ensures
        newly_present(b, a, hidden_a, s) ==> transition_shows(MotionCategory::Appearance, a, hidden_a, b, hidden_b, motions),
        newly_present(a, b, hidden_b, s) ==> transition_shows(MotionCategory::Disappearance, a, hidden_a, b, hidden_b, motions),
{
    selectors_of(a).index_of_last_ensures(s);
    selectors_of(b).index_of_last_ensures(s);
    if newly_present(b, a, hidden_a, s) {
        let j = partner(b, s)->0;
        assert(b[j].selector == selectors_of(b)[j]);
        assert(later_shows(MotionCategory::Appearance, a, hidden_a, b, motions, j));
    }
    if newly_present(a, b, hidden_b, s) {
        let k = choose|k: int| 0 <= k < selectors_of(a).len() && selectors_of(a)[k] == s;
        assert(a[k].selector == s);
        assert(earlier_shows(MotionCategory::Disappearance, a, b, hidden_b, k));
    }
}

/// An element that was filtered out as hidden in the earlier snapshot and
/// is visible in the later one fades in; it is never counted as an
/// appearance.
pub proof fn law_hidden_element_fades_in(
    a: Seq<ProbedView>,
    hidden_a: Seq<Seq<char>>,
    b: Seq<ProbedView>,
    hidden_b: Seq<Seq<char>>,
    motions: Seq<PairMotion>,
    j: int,
)
    requires
        0 <= j < b.len(),
        stands_for_selector(b, j),
        !selectors_of(a).contains(b[j].selector),
        hidden_a.contains(b[j].selector),
    ensures
        transition_shows(MotionCategory::Fade, a, hidden_a, b, hidden_b, motions),
        !later_shows(MotionCategory::Appearance, a, hidden_a, b, motions, j),
{
    selectors_of(a).index_of_last_ensures(b[j].selector);
    assert(later_shows(MotionCategory::Fade, a, hidden_a, b, motions, j));
}

proof fn lemma_later_entries_kept(a: Seq<ProbedView>, b: Seq<ProbedView>, motions: Seq<PairMotion>, n: int, j: int, x: Seq<char>)
    requires
        0 <= j < n,
        later_moved_entries(a, b, motions, j).contains(x),
    ensures
        moved_from_later(a, b, motions, n).contains(x),
    decreases n,
{
    let prev = moved_from_later(a, b, motions, n - 1);
    let last = later_moved_entries(a, b, motions, n - 1);
    if j < n - 1 {
        lemma_later_entries_kept(a, b, motions, n - 1, j, x);
        let k = choose|k: int| 0 <= k < prev.len() && prev[k] == x;
        assert((prev + last)[k] == x);
    } else {
        let k = choose|k: int| 0 <= k < last.len() && last[k] == x;
        assert((prev + last)[prev.len() + k] == x);
    }
}

proof fn lemma_vanished_entries_kept(a: Seq<ProbedView>, b: Seq<ProbedView>, n: int, i: int, x: Seq<char>)
    requires
        0 <= i < n,
        vanished_entries(b, a[i]).contains(x),
    ensures
        moved_from_earlier(a, b, n).contains(x),
    decreases n,
{
    let prev = moved_from_earlier(a, b, n - 1);
    let last = vanished_entries(b, a[n - 1]);
    if i < n - 1 {
        lemma_vanished_entries_kept(a, b, n - 1, i, x);
        let k = choose|k: int| 0 <= k < prev.len() && prev[k] == x;
        assert((prev + last)[k] == x);
    } else {
        let k = choose|k: int| 0 <= k < last.len() && last[k] == x;
        assert((prev + last)[prev.len() + k] == x);
    }
}

/// Every selector reported as appeared, and every one reported as
/// disappeared, is among the selectors that moved between the two
/// snapshots, so the intent grading never sees an appearance on a target
/// it counts as still.
pub proof fn law_appeared_counts_as_moved(
    a: Seq<ProbedView>,
    hidden_a: Seq<Seq<char>>,
    b: Seq<ProbedView>,
    hidden_b: Seq<Seq<char>>,
    motions: Seq<PairMotion>,
    s: Seq<char>,
)
    ensures
        newly_present(b, a, hidden_a, s) || newly_present(a, b, hidden_b, s) ==> (moved_from_later(
            a,
            b,
            motions,
            b.len() as int,
        ) + moved_from_earlier(a, b, a.len() as int)).contains(s),
{
    let later = moved_from_later(a, b, motions, b.len() as int);
    let earlier = moved_from_earlier(a, b, a.len() as int);
    if newly_present(b, a, hidden_a, s) {
        let j = choose|j: int| 0 <= j < selectors_of(b).len() && selectors_of(b)[j] == s;
        assert(b[j].selector == s);
        selectors_of(a).index_of_last_ensures(s);
        assert(partner(a, s) is None);
        assert(with_matches(b[j])[0] == s);
        assert(later_moved_entries(a, b, motions, j).contains(s));
        lemma_later_entries_kept(a, b, motions, b.len() as int, j, s);
        let k = choose|k: int| 0 <= k < later.len() && later[k] == s;
        assert((later + earlier)[k] == s);
    } else if newly_present(a, b, hidden_b, s) {
        let i = choose|i: int| 0 <= i < selectors_of(a).len() && selectors_of(a)[i] == s;
        assert(a[i].selector == s);
        assert(with_matches(a[i])[0] == s);
        assert(vanished_entries(b, a[i]).contains(s));
        lemma_vanished_entries_kept(a, b, a.len() as int, i, s);
        let k = choose|k: int| 0 <= k < earlier.len() && earlier[k] == s;
        assert((later + earlier)[later.len() + k] == s);
    }
}

} // verus!
