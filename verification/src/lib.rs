//! A keyboard-driven window manager core: a modal keybinding scheme drives an
//! in-memory model of displays, window groups and per-group layouts, and every
//! state change is returned as a list of commands for the platform layer to
//! carry out on the real windows.

pub mod action;
pub mod command;
pub mod display_state;
pub mod drag_window;
pub mod geometry;
pub mod group;
pub mod laws;
pub mod layout;
pub mod mode;
pub mod window;
pub mod window_manager;

pub use action::{Action, InputEvent};
pub use command::{Command, DisplayInfo, WindowScan};
pub use drag_window::DragWindow;
pub use geometry::Rect;
pub use layout::{Layout, TileHorizontalOpts};
pub use mode::Mode;
pub use window::WindowHandle;
pub use window_manager::WindowManager;
