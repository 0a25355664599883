//! The build orchestrator's decisions, as a state machine the shell
//! drives: verify the configuration exists, take the advisory lock,
//! run the pre-build hooks in declared order, render, run the
//! post-build hooks, release the lock.  The first failure skips
//! straight to releasing the lock — later hooks and the render never
//! run — and the lock is released on every path that acquired it.

use vstd::prelude::*;

use crate::config::HookLine;
use crate::error::StapleError;

verus! {

/// Where the orchestrator stands.
#[derive(Debug)]
pub enum Phase {
    CheckConfig,
    AcquireLock,
    PreHook(usize),
    Render,
    PostHook(usize),
    ReleaseLock,
    Done,
}

/// What the shell must do next.
#[derive(Debug)]
pub enum BuildAction {
    CheckConfig,
    AcquireLock,
    RunHook { dir: String, command: String },
    Render,
    ReleaseLock,
    Finished,
}

/// The orchestrator: the declared hooks, the current phase, and the
/// first failure met, if any.
#[derive(Debug)]
pub struct BuildMachine {
    pub before: Vec<HookLine>,
    pub after: Vec<HookLine>,
    pub phase: Phase,
    pub failure: Option<StapleError>,
}

impl BuildMachine {
    /// Hook indices stay inside their lists.
    pub open spec fn wf(self) -> bool {
        &&& self.phase matches Phase::PreHook(i) ==> i < self.before@.len()
        &&& self.phase matches Phase::PostHook(i) ==> i < self.after@.len()
    }

    /// A build starts by checking that the project is initialized.
    pub fn new(before: Vec<HookLine>, after: Vec<HookLine>) -> (r: BuildMachine)
        ensures
            r.wf(),
            r.phase is CheckConfig,
            r.failure is None,
            r.before == before,
            r.after == after,
    {
        BuildMachine { before, after, phase: Phase::CheckConfig, failure: None }
    }

    /// The action the current phase calls for.
    pub fn next_action(&self) -> (r: BuildAction)
        requires
            self.wf(),
        ensures
            match self.phase {
                Phase::CheckConfig => r is CheckConfig,
                Phase::AcquireLock => r is AcquireLock,
                Phase::PreHook(i) => r matches BuildAction::RunHook { dir, command }
                    && dir@ == crate::config::to_dir_spec(self.before@[i as int]) && command@
                    == crate::config::to_cmd_spec(self.before@[i as int]),
                Phase::Render => r is Render,
                Phase::PostHook(i) => r matches BuildAction::RunHook { dir, command }
                    && dir@ == crate::config::to_dir_spec(self.after@[i as int]) && command@
                    == crate::config::to_cmd_spec(self.after@[i as int]),
                Phase::ReleaseLock => r is ReleaseLock,
                Phase::Done => r is Finished,
            },
    {
        match self.phase {
            Phase::CheckConfig => BuildAction::CheckConfig,
            Phase::AcquireLock => BuildAction::AcquireLock,
            Phase::PreHook(i) => {
                let h = &self.before[i];
                BuildAction::RunHook { dir: h.to_dir(), command: h.to_cmd() }
            },
            Phase::Render => BuildAction::Render,
            Phase::PostHook(i) => {
                let h = &self.after[i];
                BuildAction::RunHook { dir: h.to_dir(), command: h.to_cmd() }
            },
            Phase::ReleaseLock => BuildAction::ReleaseLock,
            Phase::Done => BuildAction::Finished,
        }
    }

    /// Feeds back what the action did.  A failure before the lock is
    /// held ends the build at once; one after it skips every further
    /// hook and the render, and goes to releasing the lock.  Hooks
    /// advance strictly in declared order, the pre-build hooks all
    /// before the render, the post-build hooks all after it.
    pub fn report(&mut self, outcome: Result<(), StapleError>)
        requires
            old(self).wf(),
            !(old(self).phase is Done),
        ensures
            final (self).wf(),
            final (self).before == old(self).before,
            final (self).after == old(self).after,
            match old(self).phase {
                Phase::CheckConfig => match outcome {
                    Ok(()) => final (self).phase is AcquireLock && final (self).failure == old(
                        self,
                    ).failure,
                    Err(e) => final (self).phase is Done && final (self).failure == Some(e),
                },
                Phase::AcquireLock => match outcome {
                    Ok(()) => {
                        &&& if old(self).before@.len() > 0 {
                            final (self).phase matches Phase::PreHook(i) && i == 0
                        } else {
                            final (self).phase is Render
                        }
                        &&& final (self).failure == old(self).failure
                    },
                    Err(e) => final (self).phase is Done && final (self).failure == Some(e),
                },
                Phase::PreHook(i) => match outcome {
                    Ok(()) => {
                        &&& if i + 1 < old(self).before@.len() {
                            final (self).phase matches Phase::PreHook(j) && j == i + 1
                        } else {
                            final (self).phase is Render
                        }
                        &&& final (self).failure == old(self).failure
                    },
                    Err(e) => final (self).phase is ReleaseLock && final (self).failure == Some(
                        e,
                    ),
                },
                Phase::Render => match outcome {
                    Ok(()) => {
                        &&& if old(self).after@.len() > 0 {
                            final (self).phase matches Phase::PostHook(i) && i == 0
                        } else {
                            final (self).phase is ReleaseLock
                        }
                        &&& final (self).failure == old(self).failure
                    },
                    Err(e) => final (self).phase is ReleaseLock && final (self).failure == Some(
                        e,
                    ),
                },
                Phase::PostHook(i) => match outcome {
                    Ok(()) => {
                        &&& if i + 1 < old(self).after@.len() {
                            final (self).phase matches Phase::PostHook(j) && j == i + 1
                        } else {
                            final (self).phase is ReleaseLock
                        }
                        &&& final (self).failure == old(self).failure
                    },
                    Err(e) => final (self).phase is ReleaseLock && final (self).failure == Some(
                        e,
                    ),
                },
                Phase::ReleaseLock => final (self).phase is Done && final (self).failure == (
                match outcome {
                    Ok(()) => old(self).failure,
                    Err(e) => match old(self).failure {
                        Some(first) => Some(first),
                        None => Some(e),
                    },
                }),
                Phase::Done => false,
            },
    {
        match (&self.phase, outcome) {
            (Phase::CheckConfig, Ok(())) => {
                self.phase = Phase::AcquireLock;
            },
            (Phase::CheckConfig, Err(e)) => {
                self.phase = Phase::Done;
                self.failure = Some(e);
            },
            (Phase::AcquireLock, Ok(())) => {
                if self.before.len() > 0 {
                    self.phase = Phase::PreHook(0);
                } else {
                    self.phase = Phase::Render;
                }
            },
            (Phase::AcquireLock, Err(e)) => {
                self.phase = Phase::Done;
                self.failure = Some(e);
            },
            (Phase::PreHook(i), Ok(())) => {
                let i = *i;
                let n = self.before.len();
                if i + 1 < n {
                    self.phase = Phase::PreHook(i + 1);
                } else {
                    self.phase = Phase::Render;
                }
            },
            (Phase::PreHook(_), Err(e)) => {
                self.phase = Phase::ReleaseLock;
                self.failure = Some(e);
            },
            (Phase::Render, Ok(())) => {
                if self.after.len() > 0 {
                    self.phase = Phase::PostHook(0);
                } else {
                    self.phase = Phase::ReleaseLock;
                }
            },
            (Phase::Render, Err(e)) => {
                self.phase = Phase::ReleaseLock;
                self.failure = Some(e);
            },
            (Phase::PostHook(i), Ok(())) => {
                let i = *i;
                let n = self.after.len();
                if i + 1 < n {
                    self.phase = Phase::PostHook(i + 1);
                } else {
                    self.phase = Phase::ReleaseLock;
                }
            },
            (Phase::PostHook(_), Err(e)) => {
                self.phase = Phase::ReleaseLock;
                self.failure = Some(e);
            },
            (Phase::ReleaseLock, outcome) => {
                self.phase = Phase::Done;
                match (&self.failure, outcome) {
                    (None, Err(e)) => {
                        self.failure = Some(e);
                    },
                    _ => {},
                }
            },
            (Phase::Done, _) => {},
        }
    }

    /// Whether the build is over.
    pub fn is_done(&self) -> (r: bool)
        ensures
            r == (self.phase is Done),
    {
        match self.phase {
            Phase::Done => true,
            _ => false,
        }
    }

    /// The build's outcome, once it is over: the first failure met, or
    /// success.
    pub fn result(self) -> (r: Result<(), StapleError>)
        requires
            self.phase is Done,
        ensures
            match self.failure {
                Some(e) => r matches Err(f) && f == e,
                None => r is Ok,
            },
    {
        match self.failure {
            Some(e) => Err(e),
            None => Ok(()),
        }
    }
}

/// The advisory build lock, modeled: one holder at a time, and a
/// second acquisition fails at once instead of waiting.  The shell
/// holds the real cross-process lock on a well-known file.
#[derive(Debug)]
pub struct BuildLock {
    pub held: bool,
}

impl BuildLock {
    /// A fresh lock is free.
    pub fn new() -> (r: Self)
        ensures
            !r.held,
    {
        BuildLock { held: false }
    }

    /// Tries to take the lock: succeeds exactly when nobody holds it,
    /// and never blocks.  After the call the lock is held either way —
    /// by the new holder on success, by the old one on failure.
    pub fn try_acquire(&mut self) -> (r: bool)
        ensures
            r == !old(self).held,
            final (self).held,
    {
        if self.held {
            false
        } else {
            self.held = true;
            true
        }
    }

    /// Releases the lock.
    pub fn release(&mut self)
        ensures
            !final (self).held,
    {
        self.held = false;
    }
}

} // verus!
