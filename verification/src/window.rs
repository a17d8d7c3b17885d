//! The model of a window owned by another application.
//!
//! The platform layer keeps the live handles; the core works on a snapshot of
//! what it reads through them: the owning process id, an equality-preserving
//! key for the title, the frame, the display the window sits on, and whether
//! the window is currently frontmost and main. `id` identifies the handle
//! itself and is chosen fresh by the platform layer for every handle it
//! creates; two handles for the same underlying window are matched up by
//! `is_same_window` instead, comparing process id, title and frame.

use vstd::prelude::*;

use crate::geometry::Rect;

verus! {

/// A snapshot of one window of some other application.
#[derive(Clone, Copy, Debug, PartialEq, Eq, Structural)]
pub struct WindowHandle {
    /// Identifies this handle; fresh for every handle the platform layer makes.
    pub id: u64,
    /// Process id of the owning application.
    pub pid: i64,
    /// Equality-preserving key for the window title: two snapshots carry the
    /// same key exactly when their titles are equal strings.
    pub title_key: u64,
    /// The window's frame, as last observed or as last set by the core.
    pub frame: Rect,
    /// Identifier of the display the frame sits on.
    pub display_id: u32,
    /// Whether the owning application was frontmost and this window its main
    /// window when the snapshot was taken.
    pub frontmost_main: bool,
}

impl WindowHandle {
    /// The de-duplication identity: process id, title and frame. Two handles
    /// with equal identity are taken to refer to the same underlying window.
    pub open spec fn same_ident(self, other: WindowHandle) -> bool {
        &&& self.pid == other.pid
        &&& self.title_key == other.title_key
        &&& self.frame == other.frame
    }

    /// Returns true if the other window has the same process id, title and
    /// frame.
    pub fn is_same_window(&self, other: &WindowHandle) -> (r: bool)
        ensures
            r == self.same_ident(*other),
    {
        self.pid == other.pid && self.title_key == other.title_key
            && self.frame.x == other.frame.x && self.frame.y == other.frame.y
            && self.frame.w == other.frame.w && self.frame.h == other.frame.h
    }
}

} // verus!
