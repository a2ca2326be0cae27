//! Host-side logic for a GPU compute pipeline that runs two embarrassingly
//! parallel geometric computations: an axis-aligned bounding-box spatial join
//! and a pairwise great-circle distance kernel.
//!
//! The kernels themselves, and the device they run on, are external
//! collaborators.  What this crate verifies is everything the host decides:
//! how a problem is sized into workgroups, how buffers and binding slots are
//! laid out, how the two-phase readback of a variable-length result is
//! driven, how raw device bytes are decoded into match records, and how the
//! match stream is reduced to the caller-facing result.

pub mod dispatch;
pub mod layout;
pub mod pipeline;
pub mod readback;
pub mod reduce;

use vstd::prelude::*;

verus! {

/// Error produced when no GPU backend can be acquired.  It carries a single
/// diagnostic message and nothing else; construction of a device context is
/// the only operation that can fail this way.
#[derive(Debug)]
pub struct GpuContextError {
    pub message: String,
}

impl GpuContextError {
    /// Wrap a diagnostic message.
    pub fn new(message: String) -> (e: GpuContextError)
        ensures
            e.message@ == message@,
    {
        GpuContextError { message }
    }
}

} // verus!
