use vstd::prelude::*;

use crate::error::ErrorKind;
use std::sync::atomic::{AtomicUsize, Ordering};
use std::sync::Arc;

verus! {

/// A handle, shareable across threads, that interrupts whatever operation of its store is
/// running. Each interrupt moves the store's generation counter on.
pub struct InterruptHandle {
    counter: Arc<AtomicUsize>,
}

impl InterruptHandle {
    pub fn new(counter: Arc<AtomicUsize>) -> InterruptHandle {
        InterruptHandle { counter }
    }

    /// Asks the running operation to stop at its next check.
    pub fn interrupt(&self) {
        self.counter.fetch_add(1, Ordering::SeqCst);
    }
}

/// The interrupt state of one operation: it counts as interrupted once the generation
/// counter has moved past the value it had when the scope began, so an interrupt meant
/// for an earlier operation never stops a later one.
pub struct InterruptScope {
    start: usize,
    counter: Arc<AtomicUsize>,
}

impl InterruptScope {
    pub fn new(counter: Arc<AtomicUsize>) -> InterruptScope {
        let start = counter.load(Ordering::SeqCst);
        InterruptScope { start, counter }
    }

    /// Whether an interrupt came after the scope began.
    pub fn was_interrupted(&self) -> bool {
        self.counter.load(Ordering::SeqCst) != self.start
    }

    /// `Err(Interrupted)` once an interrupt came after the scope began.
    pub fn err_if_interrupted(&self) -> (r: Result<(), ErrorKind>)
        ensures
            r is Ok || r == Err::<(), ErrorKind>(ErrorKind::Interrupted),
    {
        if self.was_interrupted() {
            Err(ErrorKind::Interrupted)
        } else {
            Ok(())
        }
    }
}

} // verus!
