//! Cancelling a request from another thread.
use std::sync::atomic::{AtomicBool, Ordering};
use std::sync::Arc;
use vstd::prelude::*;

use crate::error::{EngineError, Result};

verus! {

/// A flag shared between a request and whoever may cancel it.
#[derive(Clone)]
pub struct CancellationToken {
    cancelled: Arc<AtomicBool>,
}

/// What `check` answers for a flag read as `cancelled`.
pub open spec fn cancellation_outcome(cancelled: bool) -> Result<()> {
    if cancelled { Err(EngineError::Cancelled) } else { Ok(()) }
}

/// Turns one observation of the flag into the result of `check`.
pub fn check_observation(cancelled: bool) -> (r: Result<()>)
    ensures
        r == cancellation_outcome(cancelled),
{
    if cancelled {
        Err(EngineError::Cancelled)
    } else {
        Ok(())
    }
}

impl CancellationToken {
    /// A token that has not been cancelled.
    pub fn new() -> (t: Self) {
        CancellationToken { cancelled: Arc::new(AtomicBool::new(false)) }
    }

    /// Marks the token, and every clone of it, as cancelled.
    pub fn cancel(&self) {
        self.cancelled.store(true, Ordering::Release);
    }

    /// Reads the shared flag; another thread may set it at any time.
    pub fn is_cancelled(&self) -> (b: bool) {
        self.cancelled.load(Ordering::Acquire)
    }

    /// `Err(Cancelled)` exactly when the flag was read as set.
    pub fn check(&self) -> (r: Result<()>)
        ensures
            r is Ok || r == Err::<(), EngineError>(EngineError::Cancelled),
    {
        let cancelled = self.is_cancelled();
        check_observation(cancelled)
    }
}

} // verus!
