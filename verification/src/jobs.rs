//! Job states and cooperative cancellation.
use vstd::prelude::*;
use std::sync::Arc;
use std::sync::atomic::AtomicBool;
use std::sync::atomic::Ordering;

verus! {

#[derive(Clone, Copy, Debug, Eq, PartialEq, Structural)]
pub enum JobState {
    Queued,
    Running,
    Succeeded,
    Failed,
    Cancelled,
}

/// A flag shared by a job and whoever may cancel it. Other holders can set
/// it at any time, so no call can promise what a later read returns.
#[derive(Clone, Default)]
pub struct CancellationToken(Arc<AtomicBool>);

impl CancellationToken {
    /// A token that is not cancelled.
    pub fn new() -> (r: CancellationToken) {
        CancellationToken(Arc::new(AtomicBool::new(false)))
    }

    /// Requests cancellation of every holder of this token.
    pub fn cancel(&self) {
        self.0.store(true, Ordering::Release);
    }

    /// Whether cancellation was requested.
    pub fn is_cancelled(&self) -> (r: bool) {
        self.0.load(Ordering::Acquire)
    }
}

} // verus!
