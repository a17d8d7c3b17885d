//! What the core asks of the platform layer, and what it is given.
//!
//! Every mutation of the model returns a sequence of [`Command`]s; the
//! platform layer performs them, in order, against the real windows and the
//! on-screen decorations. A full window scan is handed in the other direction
//! as a [`WindowScan`].

use vstd::prelude::*;

use crate::geometry::Rect;
use crate::window::WindowHandle;

verus! {

/// One display as the enumeration collaborator reports it.
#[derive(Clone, Copy, Debug, PartialEq, Eq, Structural)]
pub struct DisplayInfo {
    pub id: u32,
    pub bounds: Rect,
}

/// An instruction to the platform layer.
#[derive(Clone, Copy, Debug, PartialEq, Eq, Structural)]
pub enum Command {
    /// Set the window's frame to `frame`.
    SetFrame { window_id: u64, frame: Rect },
    /// Move the window's origin to `(x, y)`, keeping its size.
    SetPosition { window_id: u64, x: i64, y: i64 },
    /// Bring the owning application frontmost and make this window main.
    Activate { window_id: u64 },
    /// Minimize or restore the window.
    SetMinimized { window_id: u64, minimized: bool },
    /// Close the window.
    Close { window_id: u64 },
    /// Show (or move) the selection highlight around `frame`.
    ShowHighlight { frame: Rect },
    /// Hide the selection highlight.
    HideHighlight,
    /// Open the status window.
    OpenStatus,
    /// Close the status window.
    CloseStatus,
    /// Bring the status window back to the front.
    BringStatusFront,
}

/// The result of a full window scan, gathered by the platform layer.
#[derive(Debug)]
pub struct WindowScan {
    /// The active displays, in the enumeration collaborator's order.
    pub displays: Vec<DisplayInfo>,
    /// All open, non-minimized windows.
    pub open_windows: Vec<WindowHandle>,
    /// All minimized windows, in stacking order.
    pub minimized_windows: Vec<WindowHandle>,
    /// The window manager's own process id; its own windows are ignored.
    pub own_pid: i64,
}

/// The scan seen as mathematical sequences.
#[verifier::ext_equal]
pub ghost struct ScanModel {
    pub displays: Seq<DisplayInfo>,
    pub open_windows: Seq<WindowHandle>,
    pub minimized_windows: Seq<WindowHandle>,
    pub own_pid: i64,
}

impl View for WindowScan {
    type V = ScanModel;

    open spec fn view(&self) -> ScanModel {
        ScanModel {
            displays: self.displays@,
            open_windows: self.open_windows@,
            minimized_windows: self.minimized_windows@,
            own_pid: self.own_pid,
        }
    }
}

impl ScanModel {
    /// What the core demands of a scan: geometry within range, display ids
    /// pairwise distinct, and no two entries claiming the same identity.
    pub open spec fn wf(self) -> bool {
        &&& forall|i: int|
            0 <= i < self.displays.len() ==> (#[trigger] self.displays[i]).bounds.display_bounds_wf()
        &&& forall|i: int, j: int|
            0 <= i < j < self.displays.len() ==> self.displays[i].id != self.displays[j].id
        &&& forall|i: int|
            0 <= i < self.open_windows.len() ==> (#[trigger] self.open_windows[i]).frame.frame_wf()
        &&& forall|i: int|
            0 <= i < self.minimized_windows.len() ==> (
            #[trigger] self.minimized_windows[i]).frame.frame_wf()
        &&& forall|i: int, j: int|
            0 <= i < j < self.all_windows().len() ==> !self.all_windows()[i].same_ident(
                self.all_windows()[j],
            )
    }

    /// Every window the scan reports, open first, then minimized.
    pub open spec fn all_windows(self) -> Seq<WindowHandle> {
        self.open_windows + self.minimized_windows
    }
}

} // verus!
