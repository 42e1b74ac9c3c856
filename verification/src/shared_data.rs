//! A shared continue flag: the foreground contexts tell the driver loop to
//! stop, and the driver loop tells the foreground that it has died.

use vstd::prelude::*;

use core::sync::atomic::{AtomicBool, Ordering};

verus! {

/// A boolean flag meant to be shared between the driver thread and the
/// foreground contexts (behind a reference-counted pointer).  Reads and
/// writes are sequentially consistent.  Because any holder may change the
/// flag at any time, nothing is promised about the value a read returns.
pub struct ContinueState {
    inner: AtomicBool,
}

impl ContinueState {
    /// A fresh flag, initially `b`.
    pub fn new(b: bool) -> ContinueState {
        ContinueState { inner: AtomicBool::new(b) }
    }

    /// The value most recently stored by some holder of the flag.
    pub fn get(&self) -> bool {
        self.inner.load(Ordering::SeqCst)
    }

    /// Store `b` for every holder of the flag to see.
    pub fn set(&self, b: bool) {
        self.inner.store(b, Ordering::SeqCst);
    }
}

} // verus!
