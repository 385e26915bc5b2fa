//! The switch that keeps the live stream running.
use std::sync::atomic::{AtomicBool, Ordering};
use std::sync::Arc;
use vstd::prelude::*;

verus! {

/// Held by whoever started the live stream; the stream keeps reading while its flag is set.
pub struct LiveStreamHandle {
    running: Arc<AtomicBool>,
}

impl LiveStreamHandle {
    /// The flag this handle controls.
    pub closed spec fn shared_flag(&self) -> Arc<AtomicBool> {
        self.running
    }

    /// A handle whose flag is set.
    pub fn new() -> Self {
        LiveStreamHandle { running: Arc::new(AtomicBool::new(true)) }
    }

    /// The flag the reading side polls: the very flag that `stop` clears.
    pub fn flag(&self) -> (res: Arc<AtomicBool>)
        ensures
            res == self.shared_flag(),
    {
        Arc::clone(&self.running)
    }

    /// Clears the flag: the stream stops at its next line.
    pub fn stop(&self) {
        self.running.store(false, Ordering::Release);
    }

    /// Whether the flag is still set.
    pub fn is_running(&self) -> bool {
        self.running.load(Ordering::Acquire)
    }
}

} // verus!
