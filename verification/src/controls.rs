//! Input sources for steering along the track.
//!
//! Reading real devices yields two floating-point axes, which the verified
//! core cannot hold; those backends live with the unverified glue. Only the
//! neutral source, which carries no state at all, is defined here.

use vstd::prelude::*;

verus! {

/// The neutral input source: it always reads centred axes, so it needs no
/// device and holds no state.
pub struct Dummy;

} // verus!
