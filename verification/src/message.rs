//! The control protocol: what consumers may ask of the multiplexer.

use vstd::prelude::*;

verus! {

/// One control message from a consumer to the multiplexer.  Messages are
/// carried by an ordered multi-producer single-consumer queue and applied
/// strictly in arrival order.
#[derive(Clone, Copy, PartialEq, Eq, Structural, Debug)]
pub enum UpdateMessage {
    /// `Destroy(id, index)`: detach consumer `id` from source `index`.
    Destroy(usize, usize),
    /// `ChangeMapping(id, old_index, new_index)`: retarget consumer `id`
    /// from `old_index` to `new_index` — attach first, then detach, so the
    /// consumer is never left without a live attachment in between.
    ChangeMapping(usize, usize, usize),
    /// `Add(id, index)`: attach consumer `id` to source `index`.
    Add(usize, usize),
}

} // verus!
