//! Motion sources active around the captured frames: merging the sources
//! active at the two ends of an unobserved interval, recognising ambient
//! loops that run through the whole sample window, and naming the element
//! a source runs on when the browser only reports a hashed target.
//!
//! A source's progress and duration are floating-point measurements: the
//! record carries them in `measures`, a type the application supplies, and
//! the one comparison the ambient rule needs arrives as a flag.

use vstd::prelude::*;
use crate::classify::opt_view;
use crate::intent::contains_text;
use crate::model::SourceKind;
use crate::text::{decimal, insert_sorted, join_seqs, join_strings, strictly_sorted, string_views, u64_decimal, usize_decimal};

verus! {

/// A motion source active at some virtual time.
#[derive(Debug, Clone)]
pub struct ActiveSource<P> {
    pub id: String,
    pub kind: SourceKind,
    pub target_selector: Option<String>,
    pub name: Option<String>,
    pub target_selector_hint: Option<String>,
    pub measures: P,
}

pub struct ActiveSourceView<P> {
    pub id: Seq<char>,
    pub kind: SourceKind,
    pub target_selector: Option<Seq<char>>,
    pub name: Option<Seq<char>>,
    pub target_selector_hint: Option<Seq<char>>,
    pub measures: P,
}

impl<P> View for ActiveSource<P> {
    type V = ActiveSourceView<P>;

    open spec fn view(&self) -> ActiveSourceView<P> {
        ActiveSourceView {
            id: self.id@,
            kind: self.kind,
            target_selector: opt_view(self.target_selector),
            name: opt_view(self.name),
            target_selector_hint: opt_view(self.target_selector_hint),
            measures: self.measures,
        }
    }
}

pub open spec fn source_views<P>(v: Seq<ActiveSource<P>>) -> Seq<ActiveSourceView<P>> {
    v.map_values(|s: ActiveSource<P>| s@)
}

pub open spec fn ids_of<P>(v: Seq<ActiveSourceView<P>>) -> Seq<Seq<char>> {
    v.map_values(|s: ActiveSourceView<P>| s.id)
}

/// The sources of `xs` whose id did not occur earlier, in order.
pub open spec fn first_by_id<P>(xs: Seq<ActiveSourceView<P>>) -> Seq<ActiveSourceView<P>>
    decreases xs.len(),
{
    if xs.len() == 0 {
        xs
    } else {
        let r = first_by_id(xs.drop_last());
        if ids_of(r).contains(xs.last().id) {
            r
        } else {
            r.push(xs.last())
        }
    }
}

fn has_id<P>(v: &Vec<ActiveSource<P>>, id: &String) -> (b: bool)
    ensures
        b == ids_of(source_views(v@)).contains(id@),
{
    let ghost iv = ids_of(source_views(v@));
    let n = v.len();
    let mut i: usize = 0;
    while i < n
        invariant
            n == v@.len(),
            iv == ids_of(source_views(v@)),
            i <= n,
            forall|j: int| 0 <= j < i ==> iv[j] != id@,
        decreases n - i,
    {
        if v[i].id == *id {
            assert(iv[i as int] == id@);
            return true;
        }
        i = i + 1;
    }
    assert(!iv.contains(id@)) by {
        if iv.contains(id@) {
            let j = choose|j: int| 0 <= j < iv.len() && iv[j] == id@;
            assert(iv[j] != id@);
        }
    }
    false
}

fn push_source<P>(out: &mut Vec<ActiveSource<P>>, s: ActiveSource<P>)
    ensures
        source_views(final(out)@) == source_views(old(out)@).push(s@),
{
    let ghost before = source_views(out@);
    out.push(s);
    proof {
        assert(source_views(out@) =~= before.push(s@));
    }
}

/// The sources active at either end of an interval, each id once: those
/// of `a`, then those of `b` whose id `a` does not have, in order.
pub fn union_active_sources<P>(a: Vec<ActiveSource<P>>, b: Vec<ActiveSource<P>>) -> (out: Vec<ActiveSource<P>>)
    ensures
        source_views(out@) == first_by_id(source_views(a@) + source_views(b@)),
{
    let ghost xs = source_views(a@) + source_views(b@);
    let mut rest = a;
    let mut tail = b;
    rest.append(&mut tail);
    proof {
        assert(source_views(rest@) =~= xs);
        assert(rest@.len() == xs.len());
    }
    let mut out: Vec<ActiveSource<P>> = Vec::new();
    let n = rest.len();
    let mut k: usize = 0;
    while k < n
        invariant
            n == xs.len(),
            k <= n,
            source_views(rest@) == xs.skip(k as int),
            rest@.len() == n - k,
            source_views(out@) == first_by_id(xs.take(k as int)),
        decreases n - k,
    {
        assert(source_views(rest@)[0] == rest@[0]@);
        let ghost old_rest = rest@;
        let s = rest.remove(0);
        proof {
            assert(s@ == xs[k as int]);
            assert forall|i: int| 0 <= i < source_views(rest@).len() implies source_views(rest@)[i] == xs.skip(k + 1)[i] by {
                assert(rest@[i] == old_rest[i + 1]);
                assert(source_views(old_rest)[i + 1] == xs.skip(k as int)[i + 1]);
            }
            assert(source_views(rest@) =~= xs.skip(k + 1));
            assert(xs.take(k + 1).drop_last() =~= xs.take(k as int));
            assert(xs.take(k + 1).last() == s@);
        }
        if !has_id(&out, &s.id) {
            push_source(&mut out, s);
        }
        k = k + 1;
    }
    assert(xs.take(n as int) =~= xs);
    out
}

/// One source seen in an unobserved interval, for the ambient rule: its
/// key (its animation name, else its id) and whether its duration exceeds
/// the sample window by more than five percent.
#[derive(Debug, Clone)]
pub struct AmbientSample {
    pub key: String,
    pub outlasts_window: bool,
}

pub struct AmbientSampleView {
    pub key: Seq<char>,
    pub outlasts_window: bool,
}

impl View for AmbientSample {
    type V = AmbientSampleView;

    open spec fn view(&self) -> AmbientSampleView {
        AmbientSampleView { key: self.key@, outlasts_window: self.outlasts_window }
    }
}

pub open spec fn interval_views(v: Seq<Vec<AmbientSample>>) -> Seq<Seq<AmbientSampleView>> {
    v.map_values(|iv: Vec<AmbientSample>| iv@.map_values(|s: AmbientSample| s@))
}

pub open spec fn key_in(iv: Seq<AmbientSampleView>, k: Seq<char>) -> bool {
    exists|j: int| 0 <= j < iv.len() && #[trigger] iv[j].key == k
}

/// A key is ambient when a source under it is active in every interval
/// and some source under it outlasts the whole sample window.
pub open spec fn is_ambient(ivs: Seq<Seq<AmbientSampleView>>, k: Seq<char>) -> bool {
    &&& forall|i: int| 0 <= i < ivs.len() ==> key_in(#[trigger] ivs[i], k)
    &&& exists|i: int, j: int| 0 <= i < ivs.len() && 0 <= j < ivs[i].len() && #[trigger] ivs[i][j].key == k
        && ivs[i][j].outlasts_window
}

fn key_in_interval(iv: &Vec<AmbientSample>, k: &String) -> (r: (bool, bool))
    ensures
        r.0 == key_in(iv@.map_values(|s: AmbientSample| s@), k@),
        r.1 == exists|j: int| 0 <= j < iv@.len() && #[trigger] iv@[j]@.key == k@ && iv@[j].outlasts_window,
{
    let ghost v = iv@.map_values(|s: AmbientSample| s@);
    let n = iv.len();
    let mut found = false;
    let mut outlasts = false;
    let mut j: usize = 0;
    while j < n
        invariant
            n == iv@.len(),
            v == iv@.map_values(|s: AmbientSample| s@),
            j <= n,
            found == exists|q: int| 0 <= q < j && #[trigger] v[q].key == k@,
            outlasts == exists|q: int| 0 <= q < j && #[trigger] iv@[q]@.key == k@ && iv@[q].outlasts_window,
        decreases n - j,
    {
        if iv[j].key == *k {
            assert(v[j as int].key == k@);
            found = true;
            if iv[j].outlasts_window {
                outlasts = true;
            }
        }
        j = j + 1;
    }
    (found, outlasts)
}

fn ambient_key(ivs: &Vec<Vec<AmbientSample>>, k: &String) -> (b: bool)
    ensures
        b == is_ambient(interval_views(ivs@), k@),
{
    let ghost v = interval_views(ivs@);
    let n = ivs.len();
    let mut everywhere = true;
    let mut outlasts = false;
    let mut i: usize = 0;
    while i < n
        invariant
            n == ivs@.len(),
            v == interval_views(ivs@),
            v.len() == n,
            i <= n,
            everywhere == forall|q: int| 0 <= q < i ==> key_in(#[trigger] v[q], k@),
            outlasts == exists|q: int, j: int| 0 <= q < i && 0 <= j < v[q].len() && #[trigger] v[q][j].key == k@
                && v[q][j].outlasts_window,
        decreases n - i,
    {
        let (present, long) = key_in_interval(&ivs[i], k);
        proof {
            assert(v[i as int] == ivs@[i as int]@.map_values(|s: AmbientSample| s@));
            if long {
                let j = choose|j: int| 0 <= j < ivs@[i as int]@.len() && #[trigger] ivs@[i as int]@[j]@.key == k@
                    && ivs@[i as int]@[j].outlasts_window;
                assert(v[i as int][j].key == k@ && v[i as int][j].outlasts_window);
            }
            assert forall|q: int, j: int| 0 <= q < i + 1 && 0 <= j < v[q].len() && #[trigger] v[q][j].key == k@
                && v[q][j].outlasts_window && q == i implies long by {
                assert(ivs@[i as int]@[j]@.key == k@);
            }
        }
        if !present {
            everywhere = false;
        }
        if long {
            outlasts = true;
        }
        i = i + 1;
    }
    everywhere && outlasts
}

/// The ambient source keys of a run, sorted and each once: keys active in
/// every unobserved interval whose source outlasts the sample window.
/// Empty when the caller keeps full detail or there are fewer than two
/// intervals.
pub fn ambient_source_names(intervals: &Vec<Vec<AmbientSample>>, keep_full_detail: bool) -> (out: Vec<String>)
    ensures
        strictly_sorted(string_views(out@)),
        keep_full_detail || intervals@.len() < 2 ==> out@.len() == 0,
        !keep_full_detail && intervals@.len() >= 2 ==> forall|k: Seq<char>| #[trigger] string_views(out@).contains(k)
            == is_ambient(interval_views(intervals@), k),
{
    let mut out: Vec<String> = Vec::new();
    if keep_full_detail || intervals.len() < 2 {
        return out;
    }
    let ghost v = interval_views(intervals@);
    let first = &intervals[0];
    let ghost v0 = v[0];
    proof {
        assert(v0 == first@.map_values(|s: AmbientSample| s@));
    }
    let n = first.len();
    let mut j: usize = 0;
    while j < n
        invariant
            n == first@.len(),
            v == interval_views(intervals@),
            v.len() >= 2,
            v0 == v[0],
            v0 == first@.map_values(|s: AmbientSample| s@),
            j <= n,
            strictly_sorted(string_views(out@)),
            forall|k: Seq<char>| #[trigger] string_views(out@).contains(k) == (is_ambient(v, k) && exists|q: int| 0 <= q < j
                && #[trigger] v0[q].key == k),
        decreases n - j,
    {
        let k = &first[j];
        let key = &k.key;
        proof {
            assert(v0[j as int].key == key@);
        }
        if ambient_key(intervals, key) && !contains_text(&out, key) {
            insert_sorted(&mut out, key.clone());
        }
        proof {
            assert forall|t: Seq<char>| #[trigger] string_views(out@).contains(t) == (is_ambient(v, t) && exists|q: int| 0 <= q < j + 1
                && #[trigger] v0[q].key == t) by {
                if exists|q: int| 0 <= q < j + 1 && #[trigger] v0[q].key == t {
                    let q = choose|q: int| 0 <= q < j + 1 && #[trigger] v0[q].key == t;
                    if q < j {
                        assert(exists|q: int| 0 <= q < j && #[trigger] v0[q].key == t);
                    }
                }
            }
        }
        j = j + 1;
    }
    proof {
        assert forall|k: Seq<char>| #[trigger] string_views(out@).contains(k) == is_ambient(v, k) by {
            if is_ambient(v, k) {
                assert(key_in(v[0], k));
            }
        }
    }
    out
}

/// The key a source is grouped under: its animation name, else its id.
pub open spec fn source_key<P>(s: ActiveSourceView<P>) -> Seq<char> {
    match s.name {
        Some(n) => n,
        None => s.id,
    }
}

/// `sources` without those whose key is among `ambient`, in order.
pub open spec fn without_keys<P>(sources: Seq<ActiveSourceView<P>>, ambient: Seq<Seq<char>>) -> Seq<ActiveSourceView<P>> {
    sources.filter(|s: ActiveSourceView<P>| !ambient.contains(source_key(s)))
}

/// Removes the ambient sources from an interval's active sources.
pub fn strip_ambient<P>(sources: Vec<ActiveSource<P>>, ambient: &Vec<String>) -> (out: Vec<ActiveSource<P>>)
    ensures
        source_views(out@) == without_keys(source_views(sources@), string_views(ambient@)),
{
    let ghost xs = source_views(sources@);
    let mut rest = sources;
    let mut out: Vec<ActiveSource<P>> = Vec::new();
    let n = rest.len();
    let mut k: usize = 0;
    while k < n
        invariant
            n == xs.len(),
            k <= n,
            source_views(rest@) == xs.skip(k as int),
            rest@.len() == n - k,
            source_views(out@) == without_keys(xs.take(k as int), string_views(ambient@)),
        decreases n - k,
    {
        assert(source_views(rest@)[0] == rest@[0]@);
        let ghost old_rest = rest@;
        let s = rest.remove(0);
        proof {
            assert(s@ == xs[k as int]);
            assert forall|i: int| 0 <= i < source_views(rest@).len() implies source_views(rest@)[i] == xs.skip(k + 1)[i] by {
                assert(rest@[i] == old_rest[i + 1]);
                assert(source_views(old_rest)[i + 1] == xs.skip(k as int)[i + 1]);
            }
            assert(source_views(rest@) =~= xs.skip(k + 1));
            assert(xs.take(k + 1).drop_last() =~= xs.take(k as int));
            assert(xs.take(k + 1).last() == s@);
            reveal(Seq::filter);
        }
        let keep = match &s.name {
            Some(nm) => !contains_text(ambient, nm),
            None => !contains_text(ambient, &s.id),
        };
        if keep {
            push_source(&mut out, s);
        }
        k = k + 1;
    }
    assert(xs.take(n as int) =~= xs);
    out
}

/// An element of a layout snapshot with the animations running on it.
#[derive(Debug, Clone)]
pub struct RunningElement {
    pub selector: String,
    pub running_animations: Vec<String>,
}

pub struct RunningElementView {
    pub selector: Seq<char>,
    pub running_animations: Seq<Seq<char>>,
}

impl View for RunningElement {
    type V = RunningElementView;

    open spec fn view(&self) -> RunningElementView {
        RunningElementView { selector: self.selector@, running_animations: string_views(self.running_animations@) }
    }
}

pub open spec fn frame_views(v: Seq<Vec<RunningElement>>) -> Seq<Seq<RunningElementView>> {
    v.map_values(|f: Vec<RunningElement>| f@.map_values(|e: RunningElement| e@))
}

/// In some captured frame, the element under `sel` runs `name`.
pub open spec fn runs(frames: Seq<Seq<RunningElementView>>, sel: Seq<char>, name: Seq<char>) -> bool {
    exists|f: int, e: int| 0 <= f < frames.len() && 0 <= e < frames[f].len() && #[trigger] frames[f][e].selector == sel
        && frames[f][e].running_animations.contains(name)
}

/// The one selector running `name` across the captured frames, if exactly
/// one does.
pub open spec fn unique_runner(frames: Seq<Seq<RunningElementView>>, name: Seq<char>) -> Option<Seq<char>> {
    if exists|s: Seq<char>| runs(frames, s, name) && forall|t: Seq<char>| #[trigger] runs(frames, t, name) ==> t == s {
        Some(choose|s: Seq<char>| runs(frames, s, name) && forall|t: Seq<char>| #[trigger] runs(frames, t, name) ==> t == s)
    } else {
        None
    }
}

/// The element `(f, e)` comes before position `(fi, ei)` in frame order.
pub open spec fn before(f: int, e: int, fi: int, ei: int) -> bool {
    f < fi || (f == fi && e < ei)
}

pub open spec fn runs_before(frames: Seq<Seq<RunningElementView>>, sel: Seq<char>, name: Seq<char>, fi: int, ei: int) -> bool {
    exists|f: int, e: int| 0 <= f < frames.len() && 0 <= e < frames[f].len() && before(f, e, fi, ei)
        && #[trigger] frames[f][e].selector == sel && frames[f][e].running_animations.contains(name)
}

/// Whether `name` is among the strings of `v`.
fn runs_name(el: &RunningElement, name: &String) -> (b: bool)
    ensures
        b == el@.running_animations.contains(name@),
{
    contains_text(&el.running_animations, name)
}

/// The selector hint for a source running `name`: the one selector that
/// runs it in the captured frames, when exactly one does.
pub fn selector_hint(frames: &Vec<Vec<RunningElement>>, name: &String) -> (r: Option<String>)
    ensures
        opt_view(r) == unique_runner(frame_views(frames@), name@),
{
    let ghost fv = frame_views(frames@);
    let mut found: Option<String> = None;
    let mut ambiguous = false;
    let nf = frames.len();
    let mut f: usize = 0;
    while f < nf
        invariant
            nf == frames@.len(),
            fv == frame_views(frames@),
            fv.len() == nf,
            f <= nf,
            found is None ==> !ambiguous && forall|s: Seq<char>| !#[trigger] runs_before(fv, s, name@, f as int, 0),
            found is Some ==> runs_before(fv, found->0@, name@, f as int, 0) && (ambiguous == exists|t: Seq<char>| #[trigger] runs_before(fv, t, name@, f as int, 0) && t != found->0@),
        decreases nf - f,
    {
        let frame = &frames[f];
        let ne = frame.len();
        let mut e: usize = 0;
        proof {
            assert(fv[f as int] == frame@.map_values(|x: RunningElement| x@));
        }
        while e < ne
            invariant
                nf == frames@.len(),
                fv == frame_views(frames@),
                fv.len() == nf,
                f < nf,
                ne == frame@.len(),
                fv[f as int] == frame@.map_values(|x: RunningElement| x@),
                e <= ne,
                found is None ==> !ambiguous && forall|s: Seq<char>| !#[trigger] runs_before(fv, s, name@, f as int, e as int),
                found is Some ==> runs_before(fv, found->0@, name@, f as int, e as int) && (ambiguous == exists|t: Seq<char>| #[trigger] runs_before(fv, t, name@, f as int, e as int) && t != found->0@),
            decreases ne - e,
        {
            let el = &frame[e];
            let ghost ghost_found = found;
            proof {
                assert(fv[f as int][e as int] == el@);
            }
            let r = runs_name(el, name);
            if r {
                match &found {
                    None => {
                        found = Some(el.selector.clone());
                    },
                    Some(s0) => {
                        if *s0 != el.selector {
                            ambiguous = true;
                        }
                    },
                }
            }
            proof {
                assert forall|s: Seq<char>| #![trigger runs_before(fv, s, name@, f as int, e + 1)] #![trigger runs_before(fv, s, name@, f as int, e as int)] runs_before(fv, s, name@, f as int, e + 1) == (runs_before(fv, s, name@, f as int, e as int)
                    || (s == el@.selector && el@.running_animations.contains(name@))) by {
                    if runs_before(fv, s, name@, f as int, e + 1) {
                        let (ff, ee) = choose|ff: int, ee: int| 0 <= ff < fv.len() && 0 <= ee < fv[ff].len() && before(ff, ee, f as int, e + 1)
                            && #[trigger] fv[ff][ee].selector == s && fv[ff][ee].running_animations.contains(name@);
                        if !(ff == f && ee == e) {
                            assert(before(ff, ee, f as int, e as int));
                        }
                    }
                    if runs_before(fv, s, name@, f as int, e as int) {
                        let (ff, ee) = choose|ff: int, ee: int| 0 <= ff < fv.len() && 0 <= ee < fv[ff].len() && before(ff, ee, f as int, e as int)
                            && #[trigger] fv[ff][ee].selector == s && fv[ff][ee].running_animations.contains(name@);
                        assert(before(ff, ee, f as int, e + 1));
                    }
                    if s == el@.selector && el@.running_animations.contains(name@) {
                        assert(fv[f as int][e as int].selector == s);
                    }
                }
                if r && ghost_found is None {
                    assert(found->0@ == el@.selector);
                    assert(runs_before(fv, found->0@, name@, f as int, e + 1));
                    assert(!ambiguous);
                    assert(!exists|t: Seq<char>| #[trigger] runs_before(fv, t, name@, f as int, e + 1) && t != found->0@);
                }
                if r {
                    assert(runs_before(fv, el@.selector, name@, f as int, e + 1));
                    match ghost_found {
                        Some(s0) => {
                            if runs_before(fv, s0@, name@, f as int, e as int) {
                                assert(runs_before(fv, s0@, name@, f as int, e + 1));
                            }
                            if exists|t: Seq<char>| #[trigger] runs_before(fv, t, name@, f as int, e as int) && t != s0@ {
                                let t = choose|t: Seq<char>| #[trigger] runs_before(fv, t, name@, f as int, e as int) && t != s0@;
                                assert(runs_before(fv, t, name@, f as int, e + 1));
                            }
                        },
                        None => {},
                    }
                }
            }
            e = e + 1;
        }
        proof {
            assert forall|s: Seq<char>| #![trigger runs_before(fv, s, name@, f + 1, 0)] #![trigger runs_before(fv, s, name@, f as int, ne as int)] runs_before(fv, s, name@, f + 1, 0) == runs_before(fv, s, name@, f as int, ne as int) by {
                if runs_before(fv, s, name@, f + 1, 0) {
                    let (ff, ee) = choose|ff: int, ee: int| 0 <= ff < fv.len() && 0 <= ee < fv[ff].len() && before(ff, ee, f + 1, 0)
                        && #[trigger] fv[ff][ee].selector == s && fv[ff][ee].running_animations.contains(name@);
                    assert(before(ff, ee, f as int, ne as int));
                }
                if runs_before(fv, s, name@, f as int, ne as int) {
                    let (ff, ee) = choose|ff: int, ee: int| 0 <= ff < fv.len() && 0 <= ee < fv[ff].len() && before(ff, ee, f as int, ne as int)
                        && #[trigger] fv[ff][ee].selector == s && fv[ff][ee].running_animations.contains(name@);
                    assert(before(ff, ee, f + 1, 0));
                }
            }
        }
        f = f + 1;
    }
    proof {
        assert forall|s: Seq<char>| #[trigger] runs(fv, s, name@) == runs_before(fv, s, name@, nf as int, 0) by {
            if runs(fv, s, name@) {
                let (ff, ee) = choose|ff: int, ee: int| 0 <= ff < fv.len() && 0 <= ee < fv[ff].len() && #[trigger] fv[ff][ee].selector == s
                    && fv[ff][ee].running_animations.contains(name@);
                assert(before(ff, ee, nf as int, 0));
            }
        }
    }
    if ambiguous {
        proof {
            let s0 = found->0@;
            let t = choose|t: Seq<char>| #[trigger] runs_before(fv, t, name@, nf as int, 0) && t != s0;
            assert(!(exists|s: Seq<char>| runs(fv, s, name@) && forall|t: Seq<char>| #[trigger] runs(fv, t, name@) ==> t == s)) by {
                if exists|s: Seq<char>| runs(fv, s, name@) && forall|t: Seq<char>| #[trigger] runs(fv, t, name@) ==> t == s {
                    let s = choose|s: Seq<char>| runs(fv, s, name@) && forall|t: Seq<char>| #[trigger] runs(fv, t, name@) ==> t == s;
                    assert(runs(fv, s0, name@));
                    assert(runs(fv, t, name@));
                }
            }
        }
        None
    } else {
        proof {
            match found {
                Some(ref s0) => {
                    assert(runs(fv, s0@, name@));
                    assert forall|t: Seq<char>| #[trigger] runs(fv, t, name@) implies t == s0@ by {
                        assert(runs_before(fv, t, name@, nf as int, 0));
                    }
                    let c = choose|s: Seq<char>| runs(fv, s, name@) && forall|t: Seq<char>| #[trigger] runs(fv, t, name@) ==> t == s;
                    assert(c == s0@);
                },
                None => {
                    assert(!(exists|s: Seq<char>| runs(fv, s, name@) && forall|t: Seq<char>| #[trigger] runs(fv, t, name@) ==> t == s)) by {
                        if exists|s: Seq<char>| runs(fv, s, name@) && forall|t: Seq<char>| #[trigger] runs(fv, t, name@) ==> t == s {
                            let s = choose|s: Seq<char>| runs(fv, s, name@) && forall|t: Seq<char>| #[trigger] runs(fv, t, name@) ==> t == s;
                            assert(runs_before(fv, s, name@, nf as int, 0));
                        }
                    }
                },
            }
        }
        found
    }
}


/// The hint a source gets: the one it has, else, for a named source, the
/// one selector that runs its animation.
pub open spec fn hint_for<P>(s: ActiveSourceView<P>, frames: Seq<Seq<RunningElementView>>) -> Option<Seq<char>> {
    match s.target_selector_hint {
        Some(h) => Some(h),
        None => match s.name {
            Some(n) => unique_runner(frames, n),
            None => None,
        },
    }
}

/// Fills in the selector hint of every source that lacks one.
pub fn with_selector_hints<P>(sources: Vec<ActiveSource<P>>, frames: &Vec<Vec<RunningElement>>) -> (out: Vec<ActiveSource<P>>)
    ensures
        source_views(out@).len() == source_views(sources@).len(),
        forall|i: int| 0 <= i < sources@.len() ==> #[trigger] source_views(out@)[i] == (ActiveSourceView {
            target_selector_hint: hint_for(source_views(sources@)[i], frame_views(frames@)),
            ..source_views(sources@)[i]
        }),
{
    let ghost xs = source_views(sources@);
    let mut rest = sources;
    let mut out: Vec<ActiveSource<P>> = Vec::new();
    let n = rest.len();
    let mut k: usize = 0;
    while k < n
        invariant
            n == xs.len(),
            k <= n,
            source_views(rest@) == xs.skip(k as int),
            rest@.len() == n - k,
            out@.len() == k,
            source_views(out@).len() == k,
            forall|i: int| 0 <= i < k ==> #[trigger] source_views(out@)[i] == (ActiveSourceView {
                target_selector_hint: hint_for(xs[i], frame_views(frames@)),
                ..xs[i]
            }),
        decreases n - k,
    {
        assert(source_views(rest@)[0] == rest@[0]@);
        let ghost old_rest = rest@;
        let mut s = rest.remove(0);
        proof {
            assert(s@ == xs[k as int]);
            assert forall|i: int| 0 <= i < source_views(rest@).len() implies source_views(rest@)[i] == xs.skip(k + 1)[i] by {
                assert(rest@[i] == old_rest[i + 1]);
                assert(source_views(old_rest)[i + 1] == xs.skip(k as int)[i + 1]);
            }
            assert(source_views(rest@) =~= xs.skip(k + 1));
        }
        if s.target_selector_hint.is_none() {
            let h = match &s.name {
                Some(nm) => selector_hint(frames, nm),
                None => None,
            };
            s.target_selector_hint = h;
        }
        let ghost before = source_views(out@);
        push_source(&mut out, s);
        proof {
            assert forall|i: int| 0 <= i < k + 1 implies #[trigger] source_views(out@)[i] == (ActiveSourceView {
                target_selector_hint: hint_for(xs[i], frame_views(frames@)),
                ..xs[i]
            }) by {
                if i < k {
                    assert(source_views(out@)[i] == before[i]);
                }
            }
            assert(source_views(out@).len() == out@.len());
        }
        k = k + 1;
    }
    out
}

/// Merging the sources of an interval's two ends keeps one source per id,
/// the first one met, and loses no id.
pub proof fn law_union_one_per_id<P>(xs: Seq<ActiveSourceView<P>>)
    ensures
        ids_of(first_by_id(xs)).no_duplicates(),
        forall|id: Seq<char>| #[trigger] ids_of(first_by_id(xs)).contains(id) == ids_of(xs).contains(id),
    decreases xs.len(),
{
    if xs.len() > 0 {
        let d = xs.drop_last();
        law_union_one_per_id(d);
        let r = first_by_id(d);
        let x = xs.last();
        assert(ids_of(xs) =~= ids_of(d).push(x.id));
        assert forall|id: Seq<char>| #[trigger] ids_of(xs).contains(id) == (ids_of(d).contains(id) || id == x.id) by {
            crate::classify::lemma_push_contains(ids_of(d), x.id, id);
        }
        if !ids_of(r).contains(x.id) {
            assert(ids_of(r.push(x)) =~= ids_of(r).push(x.id));
            assert forall|id: Seq<char>| #[trigger] ids_of(r.push(x)).contains(id) == (ids_of(r).contains(id) || id == x.id) by {
                crate::classify::lemma_push_contains(ids_of(r), x.id, id);
            }
            let ir = ids_of(r);
            assert forall|i: int, j: int| 0 <= i < j < ir.len() + 1 implies ir.push(x.id)[i] != ir.push(x.id)[j] by {
                if j == ir.len() {
                    assert(ir.contains(ir[i]));
                }
            }
        }
    }
}


/// Motion of any kind is registered: CSS or web animations, scroll-driven
/// animations, an active rAF loop, or media elements.
pub open spec fn motion_detected(css: usize, scroll: usize, raf_active: bool, media: usize) -> bool {
    css > 0 || scroll > 0 || raf_active || media > 0
}

pub open spec fn part_if(present: bool, p: Seq<char>) -> Seq<Seq<char>> {
    if present {
        seq![p]
    } else {
        Seq::empty()
    }
}

/// Why an audit found motion, or that it found none.
pub open spec fn spec_audit_reason(css: usize, scroll: usize, raf_active: bool, raf_total: u32, media: usize) -> Seq<char> {
    if !motion_detected(css, scroll, raf_active, media) {
        "No CSS animations / transitions / WAAPI / rAF / scroll-driven / media elements detected."@
    } else {
        "Motion detected: "@ + join_seqs(
            part_if(css > 0, decimal(css as nat) + " CSS / WAAPI animations"@) + part_if(
                scroll > 0,
                decimal(scroll as nat) + " scroll-driven animations"@,
            ) + part_if(raf_active, "rAF active ("@ + decimal(raf_total as nat) + " registrations)"@) + part_if(
                media > 0,
                decimal(media as nat) + " <video>/<audio> elements"@,
            ),
            ", "@,
        ) + "."@
    }
}

/// The audit detects motion exactly when some source of any kind is
/// registered (a CSS or web animation, a scroll-driven animation, an
/// active rAF loop or a media element), and its reason then opens with
/// `Motion detected: `; with nothing registered it reports none.
pub proof fn law_audit_detects_any_source(css: usize, scroll: usize, raf_active: bool, raf_total: u32, media: usize)
    ensures
        motion_detected(css, scroll, raf_active, media) <==> !(css == 0 && scroll == 0 && !raf_active && media == 0),
        crate::text::has_prefix(spec_audit_reason(css, scroll, raf_active, raf_total, media), "Motion detected: "@)
            <==> !(css == 0 && scroll == 0 && !raf_active && media == 0),
{
    reveal_strlit("Motion detected: ");
    reveal_strlit("No CSS animations / transitions / WAAPI / rAF / scroll-driven / media elements detected.");
    let r = spec_audit_reason(css, scroll, raf_active, raf_total, media);
    let pre = "Motion detected: "@;
    if css == 0 && scroll == 0 && !raf_active && media == 0 {
        assert(r[0] != pre[0]);
        assert(r.subrange(0, pre.len() as int)[0] == r[0]);
    } else {
        assert(r.subrange(0, pre.len() as int) =~= pre);
    }
}

fn push_part(parts: &mut Vec<String>, p: String)
    ensures
        string_views(final(parts)@) == string_views(old(parts)@).push(p@),
{
    let ghost before = string_views(parts@);
    parts.push(p);
    proof {
        assert(string_views(parts@) =~= before.push(p@));
    }
}

fn counted(n: usize, what: &str) -> (s: String)
    ensures
        s@ == decimal(n as nat) + what@,
{
    let mut s = usize_decimal(n);
    s.append(what);
    s
}

/// Whether the audit found any motion source, from the counts of
/// registered sources; such a page requires verification.
pub fn audit_motion_detected(css: usize, scroll: usize, raf_active: bool, media: usize) -> (b: bool)
    ensures
        b == motion_detected(css, scroll, raf_active, media),
{
    css > 0 || scroll > 0 || raf_active || media > 0
}

/// The audit's one-line reason, from the counts of registered sources.
pub fn audit_reason(css: usize, scroll: usize, raf_active: bool, raf_total: u32, media: usize) -> (s: String)
    ensures
        s@ == spec_audit_reason(css, scroll, raf_active, raf_total, media),
{
    if !(css > 0 || scroll > 0 || raf_active || media > 0) {
        return String::from_str("No CSS animations / transitions / WAAPI / rAF / scroll-driven / media elements detected.");
    }
    let mut parts: Vec<String> = Vec::new();
    let ghost p0 = string_views(parts@);
    if css > 0 {
        push_part(&mut parts, counted(css, " CSS / WAAPI animations"));
    }
    let ghost p1 = string_views(parts@);
    assert(p1 =~= p0 + part_if(css > 0, decimal(css as nat) + " CSS / WAAPI animations"@));
    if scroll > 0 {
        push_part(&mut parts, counted(scroll, " scroll-driven animations"));
    }
    let ghost p2 = string_views(parts@);
    assert(p2 =~= p1 + part_if(scroll > 0, decimal(scroll as nat) + " scroll-driven animations"@));
    if raf_active {
        let mut r = String::from_str("rAF active (");
        let t = u64_decimal(raf_total as u64);
        r.append(t.as_str());
        r.append(" registrations)");
        push_part(&mut parts, r);
    }
    let ghost p3 = string_views(parts@);
    assert(p3 =~= p2 + part_if(raf_active, "rAF active ("@ + decimal(raf_total as nat) + " registrations)"@));
    if media > 0 {
        push_part(&mut parts, counted(media, " <video>/<audio> elements"));
    }
    assert(string_views(parts@) =~= p3 + part_if(media > 0, decimal(media as nat) + " <video>/<audio> elements"@));
    let joined = join_strings(&parts, ", ");
    let mut s = String::from_str("Motion detected: ");
    s.append(joined.as_str());
    s.append(".");
    s
}


/// An animation's name as the browser reports it, the empty name (web
/// animations and transitions have none) read as no name.
pub fn cdp_name_opt(name: &str) -> (r: Option<String>)
    ensures
        match r {
            Some(n) => name@.len() > 0 && n@ == name@,
            None => name@.len() == 0,
        },
{
    if name.unicode_len() == 0 {
        None
    } else {
        Some(String::from_str(name))
    }
}

} // verus!
