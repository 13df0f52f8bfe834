//! The call boundary: each call into the component runs, returns, and is then
//! cleaned up exactly once before the next call may start.
//!
//! Endpoint handles passed as arguments or results move with the call: they
//! cannot be copied, so the side that sent one no longer holds it.
use vstd::prelude::*;
use crate::error::Violation;

verus! {

/// Where the boundary stands between calls.
#[derive(PartialEq, Eq, Structural, Clone, Copy, Debug)]
pub enum CallPhase {
    /// No call is running and no cleanup is owed.
    Idle,
    /// A call is running (it may be suspended inside).
    Running,
    /// The call returned; its cleanup step is still owed.
    Returned,
}

/// The phase after starting a call, or the violation that refuses it.
pub open spec fn begin_outcome(p: CallPhase) -> Result<CallPhase, Violation> {
    match p {
        CallPhase::Idle => Ok(CallPhase::Running),
        CallPhase::Running => Err(Violation::CallInProgress),
        CallPhase::Returned => Err(Violation::CleanupPending),
    }
}

/// The phase after the running call returns, or the violation.
pub open spec fn finish_outcome(p: CallPhase) -> Result<CallPhase, Violation> {
    match p {
        CallPhase::Running => Ok(CallPhase::Returned),
        _ => Err(Violation::NoSuchCall),
    }
}

/// The phase after the cleanup step, or the violation.
pub open spec fn cleanup_outcome(p: CallPhase) -> Result<CallPhase, Violation> {
    match p {
        CallPhase::Returned => Ok(CallPhase::Idle),
        _ => Err(Violation::NoSuchCall),
    }
}

/// Tracks the calls made across one component boundary.
pub struct CallBoundary {
    phase: CallPhase,
}

impl View for CallBoundary {
    type V = CallPhase;

    closed spec fn view(&self) -> CallPhase {
        self.phase
    }
}

impl CallBoundary {
    pub fn new() -> (b: Self)
        ensures
            b@ == CallPhase::Idle,
    {
        CallBoundary { phase: CallPhase::Idle }
    }

    pub fn phase(&self) -> (p: CallPhase)
        ensures
            p == self@,
    {
        self.phase
    }

    /// Starts a call. Refused while a call runs or a cleanup is owed.
    pub fn begin(&mut self) -> (r: Result<(), Violation>)
        ensures
            begin_outcome(old(self)@) matches Ok(p) ==> r is Ok && final(self)@ == p,
            begin_outcome(old(self)@) matches Err(e) ==> r == Err::<(), Violation>(e)
                && final(self)@ == old(self)@,
    {
        match self.phase {
            CallPhase::Idle => {
                self.phase = CallPhase::Running;
                Ok(())
            },
            CallPhase::Running => Err(Violation::CallInProgress),
            CallPhase::Returned => Err(Violation::CleanupPending),
        }
    }

    /// Records that the running call returned its results.
    pub fn finish(&mut self) -> (r: Result<(), Violation>)
        ensures
            finish_outcome(old(self)@) matches Ok(p) ==> r is Ok && final(self)@ == p,
            finish_outcome(old(self)@) matches Err(e) ==> r == Err::<(), Violation>(e)
                && final(self)@ == old(self)@,
    {
        if self.phase == CallPhase::Running {
            self.phase = CallPhase::Returned;
            Ok(())
        } else {
            Err(Violation::NoSuchCall)
        }
    }

    /// The cleanup step owed once after each call: releases what the call
    /// pinned. Calling it twice, or with no call returned, is refused.
    pub fn post_return(&mut self) -> (r: Result<(), Violation>)
        ensures
            cleanup_outcome(old(self)@) matches Ok(p) ==> r is Ok && final(self)@ == p,
            cleanup_outcome(old(self)@) matches Err(e) ==> r == Err::<(), Violation>(e)
                && final(self)@ == old(self)@,
    {
        if self.phase == CallPhase::Returned {
            self.phase = CallPhase::Idle;
            Ok(())
        } else {
            Err(Violation::NoSuchCall)
        }
    }
}

} // verus!
