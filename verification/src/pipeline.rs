//! Binding-slot declarations for the two compute pipelines.
//!
//! A pipeline is linked against an ordered list of storage binding slots in
//! group 0, each either read-only or read-write.  The kernels are bound by
//! contract to read their resources in exactly this slot order, so the lists
//! here are the single point of truth the unverified device driver mirrors
//! into its bind-group and layout descriptors.

use vstd::prelude::*;

verus! {

/// One storage binding slot of a compute pipeline, in bind group 0.
#[derive(Clone, Copy, PartialEq, Eq, Structural, Debug)]
pub struct BindingSlot {
    /// Position of the slot in the bind group.
    pub index: u32,
    /// Whether the kernel may write through the slot; read-only otherwise.
    pub writable: bool,
}

/// Binding order of the spatial-join kernel: the two input arrays are
/// read-only, the match output stream and the atomic counter read-write.
pub fn join_bindings() -> (slots: Vec<BindingSlot>)
    ensures
        slots@.len() == 4,
        forall|k: int| 0 <= k < slots@.len() ==> slots@[k].index == k,
        forall|k: int| 0 <= k < slots@.len() ==> (slots@[k].writable <==> k >= 2),
{
    let mut slots: Vec<BindingSlot> = Vec::new();
    slots.push(BindingSlot { index: 0, writable: false });
    slots.push(BindingSlot { index: 1, writable: false });
    slots.push(BindingSlot { index: 2, writable: true });
    slots.push(BindingSlot { index: 3, writable: true });
    slots
}

/// Binding order of the distance kernel: the two operand arrays are
/// read-only, the output array read-write.
pub fn distance_bindings() -> (slots: Vec<BindingSlot>)
    ensures
        slots@.len() == 3,
        forall|k: int| 0 <= k < slots@.len() ==> slots@[k].index == k,
        forall|k: int| 0 <= k < slots@.len() ==> (slots@[k].writable <==> k == 2),
{
    let mut slots: Vec<BindingSlot> = Vec::new();
    slots.push(BindingSlot { index: 0, writable: false });
    slots.push(BindingSlot { index: 1, writable: false });
    slots.push(BindingSlot { index: 2, writable: true });
    slots
}

} // verus!
