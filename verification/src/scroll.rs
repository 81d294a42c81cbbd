//! The scroll-range comparison of the scroll-animation recipe: how the
//! sampled scroll progress range relates to the declared one, and the
//! advisory gate a mismatch raises.

use vstd::prelude::*;
use crate::model::{FailedGate, GateReliability};
use crate::gate::FailedGateView;

verus! {

/// How the sampled scroll progress range relates to the declared one.
#[derive(Debug, Clone, Copy, PartialEq, Eq, Structural)]
pub enum ScrollRangeVerdict {
    Match,
    OutsideExpected,
    NarrowerThanExpected,
    WiderThanExpected,
}

pub open spec fn spec_scroll_range_label(v: ScrollRangeVerdict) -> Seq<char> {
    match v {
        ScrollRangeVerdict::Match => "match"@,
        ScrollRangeVerdict::OutsideExpected => "outside-expected"@,
        ScrollRangeVerdict::NarrowerThanExpected => "narrower-than-expected"@,
        ScrollRangeVerdict::WiderThanExpected => "wider-than-expected"@,
    }
}

impl ScrollRangeVerdict {
    /// The verdict as reports print it.
    pub fn label(&self) -> (s: &'static str)
        ensures
            s@ == spec_scroll_range_label(*self),
    {
        match self {
            ScrollRangeVerdict::Match => "match",
            ScrollRangeVerdict::OutsideExpected => "outside-expected",
            ScrollRangeVerdict::NarrowerThanExpected => "narrower-than-expected",
            ScrollRangeVerdict::WiderThanExpected => "wider-than-expected",
        }
    }
}

/// The verdict from the measured comparisons of the two ranges, each
/// taken with a tolerance of 0.05: `disjoint` (the observed range ends
/// before the declared one starts, or starts after it ends), `inside`
/// (the observed range lies strictly within the declared one) and
/// `overhangs` (it extends past either end of the declared one).  Being
/// disjoint is decided first, then lying inside, then overhanging.
pub open spec fn spec_scroll_range_verdict(disjoint: bool, inside: bool, overhangs: bool) -> ScrollRangeVerdict {
    if disjoint {
        ScrollRangeVerdict::OutsideExpected
    } else if inside {
        ScrollRangeVerdict::NarrowerThanExpected
    } else if overhangs {
        ScrollRangeVerdict::WiderThanExpected
    } else {
        ScrollRangeVerdict::Match
    }
}

pub fn scroll_range_verdict(disjoint: bool, inside: bool, overhangs: bool) -> (v: ScrollRangeVerdict)
    ensures
        v == spec_scroll_range_verdict(disjoint, inside, overhangs),
{
    if disjoint {
        ScrollRangeVerdict::OutsideExpected
    } else if inside {
        ScrollRangeVerdict::NarrowerThanExpected
    } else if overhangs {
        ScrollRangeVerdict::WiderThanExpected
    } else {
        ScrollRangeVerdict::Match
    }
}

/// The advisory `scroll-range-match` gate a mismatched range raises in
/// the scroll recipe's report; `detail` quotes the two ranges.  The
/// mismatch also fails the grading of the intent (see
/// `crate::intent::fold_scroll_range`).
pub fn scroll_range_gate(v: ScrollRangeVerdict, detail: String) -> (g: Option<FailedGate>)
    ensures
        match g {
            Some(fg) => v != ScrollRangeVerdict::Match && fg@ == (FailedGateView {
                gate: "scroll-range-match"@,
                reliability: GateReliability::Advisory,
                detail: detail@,
            }),
            None => v == ScrollRangeVerdict::Match,
        },
{
    match v {
        ScrollRangeVerdict::Match => None,
        _ => {
            proof {
                reveal_strlit("scroll-range-match");
            }
            Some(FailedGate { gate: String::from_str("scroll-range-match"), reliability: GateReliability::Advisory, detail })
        },
    }
}

} // verus!
