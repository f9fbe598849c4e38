//! The guard of the blocking bridge: an operation that completes
//! asynchronously is waited for by blocking, and must not be waited for from
//! within another such wait.

use crate::errors::BuiltinExecutionError;
use vstd::prelude::*;

verus! {

/// Whether a wait of the blocking bridge is under way.
#[derive(Debug, PartialEq, Eq, Structural, Clone, Copy)]
pub struct Bridge {
    pub active: bool,
}

impl Bridge {
    /// A bridge on which nothing waits.
    pub fn new() -> (bridge: Bridge)
        ensures
            !bridge.active,
    {
        Bridge { active: false }
    }

    /// Starts a wait. A wait from within another wait is refused, and leaves
    /// the bridge as it was.
    pub fn enter(&mut self) -> (entered: Result<(), BuiltinExecutionError>)
        ensures
            old(self).active ==> entered == Err::<(), BuiltinExecutionError>(
                BuiltinExecutionError::NestedBridge,
            ) && *final(self) == *old(self),
            !old(self).active ==> entered is Ok && final(self).active,
    {
        if self.active {
            Err(BuiltinExecutionError::NestedBridge)
        } else {
            self.active = true;
            Ok(())
        }
    }

    /// Ends the wait.
    pub fn leave(&mut self)
        ensures
            !final(self).active,
    {
        self.active = false;
    }
}

} // verus!
