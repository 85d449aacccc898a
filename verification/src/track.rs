//! The sampling domain of a composite track: a global parameter's integer
//! part selects a segment, the pair of adjacent control points it indexes.

use vstd::prelude::*;

verus! {

/// Maps the integer part `whole` of a global parameter to the segment it
/// selects over `len` control points. The segment's control points are at
/// `base` and `base + 1`, so a sample exists exactly when both indices are
/// in range: `0 <= whole` and `whole + 1 < len`.
pub fn segment_base(whole: i64, len: usize) -> (r: Option<usize>)
    ensures
        r is Some <==> 0 <= whole && whole + 1 < len as int,
        r is Some ==> r->0 == whole,
{
    if whole < 0 {
        return None;
    }
    let w = whole as u64;
    if w < usize::MAX as u64 && (w as usize) + 1 < len {
        Some(w as usize)
    } else {
        None
    }
}

} // verus!
