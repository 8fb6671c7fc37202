//! Errors of RCU operations.

use vstd::prelude::*;

verus! {

/// Errors of RCU operations.
#[derive(Clone, Copy, Debug, PartialEq, Eq, Structural)]
pub enum RcuError {
    /// The cell is being updated already.
    AlreadyUpdating,
}

impl RcuError {
    /// The error in words.
    pub fn message(&self) -> (text: String)
        ensures
            text@ == match *self {
                RcuError::AlreadyUpdating => "RCU is already being updated"@,
            },
    {
        match self {
            RcuError::AlreadyUpdating => "RCU is already being updated".to_string(),
        }
    }
}

} // verus!
