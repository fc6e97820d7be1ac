//! Translation of a parsed HTTP `Range` header into the object store's
//! native range-read parameters.

use vstd::prelude::*;

verus! {

/// One bound of a byte-range set, as the HTTP header parser reports it.
/// The HTTP range grammar only produces inclusive or unbounded bounds; an
/// exclusive bound would be a programming-invariant violation upstream.
#[derive(Clone, Copy, PartialEq, Eq, Debug)]
pub enum RangeBound {
    Included(u64),
    Excluded(u64),
    Unbounded,
}

/// An inclusive byte range; an absent `end` means "to the end of the
/// object".
#[derive(Clone, Copy, PartialEq, Eq, Debug)]
pub struct RangeSpec {
    pub start: u64,
    pub end: Option<u64>,
}

/// No bound in the parsed header is exclusive: what the HTTP range grammar
/// guarantees of its output.
pub open spec fn no_excluded_bounds(ranges: Seq<(RangeBound, RangeBound)>) -> bool {
    forall|i: int|
        0 <= i < ranges.len() ==> !((#[trigger] ranges[i]).0 is Excluded) && !(
        ranges[i].1 is Excluded)
}

/// Where a range read starts: an unbounded start means byte zero.
pub open spec fn start_from_bound(b: RangeBound) -> u64 {
    match b {
        RangeBound::Included(n) => n,
        RangeBound::Unbounded => 0,
        RangeBound::Excluded(_) => vstd::pervasive::arbitrary(),
    }
}

/// Where a range read ends: an unbounded end means the end of the object.
pub open spec fn end_from_bound(b: RangeBound) -> Option<u64> {
    match b {
        RangeBound::Included(n) => Some(n),
        RangeBound::Unbounded => None,
        RangeBound::Excluded(_) => vstd::pervasive::arbitrary(),
    }
}

/// What translation returns: the single range's bounds mapped to a
/// `RangeSpec`, or nothing unless the header carries exactly one range.
pub open spec fn translate_spec(ranges: Seq<(RangeBound, RangeBound)>) -> Option<RangeSpec> {
    if ranges.len() == 1 {
        Some(RangeSpec { start: start_from_bound(ranges[0].0), end: end_from_bound(ranges[0].1) })
    } else {
        None
    }
}

/// Translates the byte-range sets of a parsed `Range` header into the
/// backend's `(start, optional end)` shape. The backend supports one range
/// per request, so a header with zero ranges, or with more than one, yields
/// nothing — the caller falls back to a full read, never to an error.
pub fn s3_range_for_header(ranges: &Vec<(RangeBound, RangeBound)>) -> (r: Option<RangeSpec>)
    requires
        no_excluded_bounds(ranges@),
    ensures
        r == translate_spec(ranges@),
        ranges@.len() != 1 ==> r is None,
{
    if ranges.len() != 1 {
        None
    } else {
        let (start_bound, end_bound) = ranges[0];
        let start = match start_bound {
            RangeBound::Unbounded => 0,
            RangeBound::Included(n) => n,
            RangeBound::Excluded(_) => {
                proof {
                    assert(false);
                }
                0
            },
        };
        let end = match end_bound {
            RangeBound::Unbounded => None,
            RangeBound::Included(n) => Some(n),
            RangeBound::Excluded(_) => {
                proof {
                    assert(false);
                }
                None
            },
        };
        Some(RangeSpec { start, end })
    }
}

} // verus!
