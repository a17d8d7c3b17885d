//! The modal state machine.
//!
//! `Insert` passes keystrokes through untouched; `Normal` makes the window
//! manager's commands active; `InsertNormal` is the transient variant entered
//! while the modifier chord is held, reverting to `Insert` when it is
//! released.

use vstd::prelude::*;

verus! {

/// The three modes gating which actions are recognised.
#[derive(Clone, Copy, Debug, PartialEq, Eq, Structural)]
pub enum Mode {
    Insert,
    Normal,
    InsertNormal,
}

} // verus!
