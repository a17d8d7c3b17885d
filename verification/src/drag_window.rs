//! Dragging a window with the pointer: the window under the cursor and the
//! cursor's offset into it. The platform layer constructs this from a hit
//! test and feeds pointer positions through `set_position_around`.

use vstd::prelude::*;

use crate::command::Command;
use crate::geometry::MAX_FRAME_COORD;

verus! {

/// A window being dragged, with the pointer's offset from its origin.
#[derive(Clone, Copy, Debug, PartialEq, Eq, Structural)]
pub struct DragWindow {
    pub window_id: u64,
    pub offset_x: i64,
    pub offset_y: i64,
}

impl DragWindow {
    pub fn new(window_id: u64, offset_x: i64, offset_y: i64) -> (r: Self)
        ensures
            r == (DragWindow { window_id, offset_x, offset_y }),
    {
        Self { window_id, offset_x, offset_y }
    }

    /// The command that keeps the window under the pointer at `(x, y)`,
    /// preserving the grab offset.
    pub fn set_position_around(&self, x: i64, y: i64) -> (c: Command)
        requires
            -MAX_FRAME_COORD <= x <= MAX_FRAME_COORD,
            -MAX_FRAME_COORD <= y <= MAX_FRAME_COORD,
            -MAX_FRAME_COORD <= self.offset_x <= MAX_FRAME_COORD,
            -MAX_FRAME_COORD <= self.offset_y <= MAX_FRAME_COORD,
        ensures
            c == (Command::SetPosition {
                window_id: self.window_id,
                x: (x - self.offset_x) as i64,
                y: (y - self.offset_y) as i64,
            }),
    {
        Command::SetPosition { window_id: self.window_id, x: x - self.offset_x, y: y - self.offset_y }
    }

    /// The command that brings the dragged window to the front.
    pub fn activate_window(&self) -> (c: Command)
        ensures
            c == (Command::Activate { window_id: self.window_id }),
    {
        Command::Activate { window_id: self.window_id }
    }
}

} // verus!
