//! The stages one invocation passes through.

use vstd::prelude::*;

verus! {

/// Where an invocation stands. It starts `Open`; `Closed` and `Failed` end it.
#[derive(Clone, Copy, Debug, PartialEq, Eq, Structural)]
pub enum Stage {
    /// Nothing has been checked yet.
    Open,
    /// The signer was found to own the account.
    Validated,
    /// The account was closed and its reserve paid out.
    Closed,
    /// A step failed; nothing was changed.
    Failed,
}

impl Stage {
    /// No step follows this stage.
    pub open spec fn is_terminal(self) -> bool {
        self == Stage::Closed || self == Stage::Failed
    }

    /// The stage that follows `self` when the step due in it passed or failed.
    /// A terminal stage stays what it is.
    pub open spec fn after(self, passed: bool) -> Stage {
        match self {
            Stage::Open => if passed {
                Stage::Validated
            } else {
                Stage::Failed
            },
            Stage::Validated => if passed {
                Stage::Closed
            } else {
                Stage::Failed
            },
            Stage::Closed => Stage::Closed,
            Stage::Failed => Stage::Failed,
        }
    }

    /// Whether no step follows this stage.
    pub fn terminal(self) -> (terminal: bool)
        ensures
            terminal == self.is_terminal(),
    {
        match self {
            Stage::Open => false,
            Stage::Validated => false,
            Stage::Closed => true,
            Stage::Failed => true,
        }
    }

    /// Moves on from `self`, given whether the step due in it passed.
    pub fn advance(self, passed: bool) -> (next: Stage)
        ensures
            next == self.after(passed),
    {
        match self {
            Stage::Open => if passed {
                Stage::Validated
            } else {
                Stage::Failed
            },
            Stage::Validated => if passed {
                Stage::Closed
            } else {
                Stage::Failed
            },
            Stage::Closed => Stage::Closed,
            Stage::Failed => Stage::Failed,
        }
    }
}

} // verus!
