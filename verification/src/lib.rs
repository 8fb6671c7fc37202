//! Read-copy-update: one value, many readers, one writer at a time.
//!
//! [`Rcu`] is a handle of a cell that threads share. Readers get the newest version
//! of its value; a writer changes a copy, behind an [`RcuGuard`], and the copy
//! becomes the newest version when the guard goes. Old versions are retained until
//! a cleanup, which takes that one handle is left.
//!
//! [`RcuBody`] is what the handles of a cell share. Each of its operations is
//! specified by one transition of [`RcuState`]. [`contents`] says what it takes to
//! make one in a cell, and [`laws`] what follows for the cell as a whole.

pub mod backoff;
pub mod body;
pub mod contents;
pub mod error;
pub mod laws;
pub mod rcu;
pub mod state;

pub use crate::backoff::{retry, Backoff, Pause};
pub use crate::body::{RcuBody, Value};
pub use crate::error::RcuError;
pub use crate::rcu::{Rcu, RcuGuard};
pub use crate::state::{Cleanup, RcuState};
