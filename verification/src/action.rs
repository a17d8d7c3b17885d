//! The action resolver: a pure mapping from an input event, the current mode
//! and the current layout to an optional abstract [`Action`].
//!
//! Matching is mode-gated, compares the modifier set exactly after masking to
//! the four relevant modifiers, and lets the horizontal tiling layout
//! repurpose `h`/`l` for column adjustments. Every key pressed in `Normal` or
//! `InsertNormal` resolves to something: unrecognised keys fall back to
//! entering `Insert`, so the mode machine cannot get stuck.

use vstd::prelude::*;

use crate::layout::Layout;
use crate::mode::Mode;

verus! {

/// What the window manager can be asked to do.
#[derive(Clone, Copy, Debug, PartialEq, Eq, Structural)]
pub enum Action {
    ModeNormal,
    ModeInsert,
    ModeInsertNormal,
    RelayoutAll,
    LayoutFloating,
    LayoutCascade,
    LayoutTiling,
    WindowFull,
    WindowLeftHalf,
    WindowRightHalf,
    WindowMinimize,
    WindowRestore,
    WindowClose,
    NextWindow,
    PrevWindow,
    SwapNextWindow,
    SwapPrevWindow,
    IncrPrimaryColWidth,
    DecrPrimaryColWidth,
    IncrPrimaryColWindows,
    DecrPrimaryColWindows,
    NextDisplay,
    PrevDisplay,
    MoveWindowToNextDisplay { follow: bool },
    MoveWindowToPrevDisplay { follow: bool },
    MoveWindowToGroup { id: u8, follow: bool },
    ToggleWindowInGroup(u8),
    ShowGroup(u8),
    NextGroup,
    PrevGroup,
    MoveWindowToNextGroup { follow: bool },
    MoveWindowToPrevGroup { follow: bool },
}

/// A raw input event, reduced to what the resolver reads: the event kind, the
/// key code and the modifier-flag word.
#[derive(Clone, Copy, Debug, PartialEq, Eq, Structural)]
pub enum InputEvent {
    KeyDown { keycode: i64, flags: u64 },
    FlagsChanged { flags: u64 },
    Other,
}

pub const KEYCODE_0: i64 = 29;
pub const KEYCODE_1: i64 = 18;
pub const KEYCODE_2: i64 = 19;
pub const KEYCODE_3: i64 = 20;
pub const KEYCODE_4: i64 = 21;
pub const KEYCODE_5: i64 = 23;
pub const KEYCODE_6: i64 = 22;
pub const KEYCODE_7: i64 = 26;
pub const KEYCODE_8: i64 = 28;
pub const KEYCODE_9: i64 = 25;
pub const KEYCODE_A: i64 = 0;
pub const KEYCODE_C: i64 = 8;
pub const KEYCODE_F: i64 = 3;
pub const KEYCODE_H: i64 = 4;
pub const KEYCODE_I: i64 = 34;
pub const KEYCODE_J: i64 = 38;
pub const KEYCODE_K: i64 = 40;
pub const KEYCODE_L: i64 = 37;
pub const KEYCODE_M: i64 = 46;
pub const KEYCODE_N: i64 = 45;
pub const KEYCODE_O: i64 = 31;
pub const KEYCODE_P: i64 = 35;
pub const KEYCODE_Q: i64 = 12;
pub const KEYCODE_R: i64 = 15;
pub const KEYCODE_T: i64 = 17;
pub const KEYCODE_X: i64 = 7;
pub const KEYCODE_ENT: i64 = 36;
pub const KEYCODE_ESC: i64 = 53;
pub const KEYCODE_F3: i64 = 160;

pub const FLAG_SHIFT: u64 = 0x20000;
pub const FLAG_CTRL: u64 = 0x40000;
pub const FLAG_ALT: u64 = 0x80000;
pub const FLAG_CMD: u64 = 0x100000;

/// The four modifiers the resolver compares against.
pub const FLAG_MASK: u64 = 0x1e0000;

/// The chord held to enter the transient mode: alt+shift.
pub const NORMAL_CHORD: u64 = 0xa0000;

/// The modifier word reduced to the four relevant modifiers.
pub open spec fn spec_relevant_flags(flags: u64) -> u64 {
    flags & FLAG_MASK
}

/// The group id a digit key selects, if the key is a digit.
pub open spec fn digit_of_keycode(keycode: i64) -> Option<u8> {
    if keycode == KEYCODE_0 {
        Some(0u8)
    } else if keycode == KEYCODE_1 {
        Some(1u8)
    } else if keycode == KEYCODE_2 {
        Some(2u8)
    } else if keycode == KEYCODE_3 {
        Some(3u8)
    } else if keycode == KEYCODE_4 {
        Some(4u8)
    } else if keycode == KEYCODE_5 {
        Some(5u8)
    } else if keycode == KEYCODE_6 {
        Some(6u8)
    } else if keycode == KEYCODE_7 {
        Some(7u8)
    } else if keycode == KEYCODE_8 {
        Some(8u8)
    } else if keycode == KEYCODE_9 {
        Some(9u8)
    } else {
        None
    }
}

/// What a key resolves to in the transient `InsertNormal` mode, where the
/// chord is held and modifier flags are not inspected further.
pub open spec fn resolve_transient_key(keycode: i64, tiling: bool) -> Action {
    if keycode == KEYCODE_A {
        Action::ModeNormal
    } else if keycode == KEYCODE_C {
        Action::LayoutCascade
    } else if keycode == KEYCODE_F {
        Action::LayoutFloating
    } else if keycode == KEYCODE_H {
        if tiling {
            Action::DecrPrimaryColWidth
        } else {
            Action::WindowLeftHalf
        }
    } else if keycode == KEYCODE_L {
        if tiling {
            Action::IncrPrimaryColWidth
        } else {
            Action::WindowRightHalf
        }
    } else if keycode == KEYCODE_M {
        Action::WindowMinimize
    } else if keycode == KEYCODE_R {
        Action::RelayoutAll
    } else if keycode == KEYCODE_T {
        Action::LayoutTiling
    } else if keycode == KEYCODE_J {
        Action::NextWindow
    } else if keycode == KEYCODE_K {
        Action::PrevWindow
    } else if keycode == KEYCODE_ENT {
        Action::WindowFull
    } else if keycode == KEYCODE_X {
        Action::WindowClose
    } else if keycode == KEYCODE_N {
        Action::NextDisplay
    } else if keycode == KEYCODE_P {
        Action::PrevDisplay
    } else if keycode == KEYCODE_I {
        Action::PrevGroup
    } else if keycode == KEYCODE_O {
        Action::NextGroup
    } else if digit_of_keycode(keycode) is Some {
        Action::ShowGroup(digit_of_keycode(keycode)->0)
    } else {
        Action::ModeInsert
    }
}

/// What a key with the exact modifier set `f` resolves to in `Normal` mode.
pub open spec fn resolve_normal_key(keycode: i64, f: u64, tiling: bool) -> Action {
    if keycode == KEYCODE_C && f == 0 {
        Action::LayoutCascade
    } else if keycode == KEYCODE_F && f == 0 {
        Action::LayoutFloating
    } else if keycode == KEYCODE_H && f == FLAG_ALT && tiling {
        Action::IncrPrimaryColWindows
    } else if keycode == KEYCODE_L && f == FLAG_ALT && tiling {
        Action::DecrPrimaryColWindows
    } else if keycode == KEYCODE_H && f == 0 {
        if tiling {
            Action::DecrPrimaryColWidth
        } else {
            Action::WindowLeftHalf
        }
    } else if keycode == KEYCODE_L && f == 0 {
        if tiling {
            Action::IncrPrimaryColWidth
        } else {
            Action::WindowRightHalf
        }
    } else if keycode == KEYCODE_M && f == 0 {
        Action::WindowMinimize
    } else if keycode == KEYCODE_M && f == FLAG_SHIFT {
        Action::WindowRestore
    } else if keycode == KEYCODE_R && f == 0 {
        Action::RelayoutAll
    } else if keycode == KEYCODE_T && f == 0 {
        Action::LayoutTiling
    } else if keycode == KEYCODE_J && f == FLAG_ALT {
        Action::SwapNextWindow
    } else if keycode == KEYCODE_K && f == FLAG_ALT {
        Action::SwapPrevWindow
    } else if keycode == KEYCODE_J && f == 0 {
        Action::NextWindow
    } else if keycode == KEYCODE_K && f == 0 {
        Action::PrevWindow
    } else if keycode == KEYCODE_ENT && f == 0 {
        Action::WindowFull
    } else if keycode == KEYCODE_X && f == 0 {
        Action::WindowClose
    } else if keycode == KEYCODE_N && f == 0 {
        Action::NextDisplay
    } else if keycode == KEYCODE_P && f == 0 {
        Action::PrevDisplay
    } else if keycode == KEYCODE_N && f == FLAG_ALT {
        Action::MoveWindowToNextDisplay { follow: true }
    } else if keycode == KEYCODE_N && f == NORMAL_CHORD {
        Action::MoveWindowToNextDisplay { follow: false }
    } else if keycode == KEYCODE_P && f == FLAG_ALT {
        Action::MoveWindowToPrevDisplay { follow: true }
    } else if keycode == KEYCODE_P && f == NORMAL_CHORD {
        Action::MoveWindowToPrevDisplay { follow: false }
    } else if keycode == KEYCODE_I && f == 0 {
        Action::PrevGroup
    } else if keycode == KEYCODE_O && f == 0 {
        Action::NextGroup
    } else if keycode == KEYCODE_I && f == FLAG_ALT {
        Action::MoveWindowToPrevGroup { follow: true }
    } else if keycode == KEYCODE_I && f == NORMAL_CHORD {
        Action::MoveWindowToPrevGroup { follow: false }
    } else if keycode == KEYCODE_O && f == FLAG_ALT {
        Action::MoveWindowToNextGroup { follow: true }
    } else if keycode == KEYCODE_O && f == NORMAL_CHORD {
        Action::MoveWindowToNextGroup { follow: false }
    } else if digit_of_keycode(keycode) is Some && f == 0 {
        Action::ShowGroup(digit_of_keycode(keycode)->0)
    } else if digit_of_keycode(keycode) is Some && f == FLAG_ALT {
        Action::MoveWindowToGroup { id: digit_of_keycode(keycode)->0, follow: true }
    } else if digit_of_keycode(keycode) is Some && (f == NORMAL_CHORD || f == FLAG_CMD) {
        Action::ToggleWindowInGroup(digit_of_keycode(keycode)->0)
    } else {
        Action::ModeInsert
    }
}

/// The whole resolver: `(event, mode, tiling?) -> optional action`.
pub open spec fn spec_resolve(event: InputEvent, mode: Mode, tiling: bool) -> Option<Action> {
    match event {
        InputEvent::FlagsChanged { flags } => {
            let f = spec_relevant_flags(flags);
            if mode == Mode::Insert && f == NORMAL_CHORD {
                Some(Action::ModeInsertNormal)
            } else if mode == Mode::InsertNormal && f != NORMAL_CHORD {
                Some(Action::ModeInsert)
            } else {
                None
            }
        },
        InputEvent::KeyDown { keycode, flags } => {
            let f = spec_relevant_flags(flags);
            match mode {
                Mode::Insert => if keycode == KEYCODE_F3 {
                    Some(Action::ModeNormal)
                } else if keycode == KEYCODE_0 && f == NORMAL_CHORD {
                    Some(Action::ShowGroup(0))
                } else {
                    None
                },
                Mode::InsertNormal => Some(resolve_transient_key(keycode, tiling)),
                Mode::Normal => if keycode == KEYCODE_ESC || keycode == KEYCODE_Q || keycode
                    == KEYCODE_F3 {
                    Some(Action::ModeInsert)
                } else {
                    Some(resolve_normal_key(keycode, f, tiling))
                },
            }
        },
        InputEvent::Other => None,
    }
}

/// Whether the current layout, if any, is horizontal tiling.
pub open spec fn opt_layout_is_tiling(layout: Option<&Layout>) -> bool {
    match layout {
        Some(l) => l.is_tiling(),
        None => false,
    }
}

/// The group id a digit key selects, if the key is a digit.
fn digit_key(keycode: i64) -> (r: Option<u8>)
    ensures
        r == digit_of_keycode(keycode),
{
    if keycode == KEYCODE_0 {
        Some(0)
    } else if keycode == KEYCODE_1 {
        Some(1)
    } else if keycode == KEYCODE_2 {
        Some(2)
    } else if keycode == KEYCODE_3 {
        Some(3)
    } else if keycode == KEYCODE_4 {
        Some(4)
    } else if keycode == KEYCODE_5 {
        Some(5)
    } else if keycode == KEYCODE_6 {
        Some(6)
    } else if keycode == KEYCODE_7 {
        Some(7)
    } else if keycode == KEYCODE_8 {
        Some(8)
    } else if keycode == KEYCODE_9 {
        Some(9)
    } else {
        None
    }
}

fn transient_key_action(keycode: i64, tiling: bool) -> (r: Action)
    ensures
        r == resolve_transient_key(keycode, tiling),
{
    if keycode == KEYCODE_A {
        Action::ModeNormal
    } else if keycode == KEYCODE_C {
        Action::LayoutCascade
    } else if keycode == KEYCODE_F {
        Action::LayoutFloating
    } else if keycode == KEYCODE_H {
        if tiling {
            Action::DecrPrimaryColWidth
        } else {
            Action::WindowLeftHalf
        }
    } else if keycode == KEYCODE_L {
        if tiling {
            Action::IncrPrimaryColWidth
        } else {
            Action::WindowRightHalf
        }
    } else if keycode == KEYCODE_M {
        Action::WindowMinimize
    } else if keycode == KEYCODE_R {
        Action::RelayoutAll
    } else if keycode == KEYCODE_T {
        Action::LayoutTiling
    } else if keycode == KEYCODE_J {
        Action::NextWindow
    } else if keycode == KEYCODE_K {
        Action::PrevWindow
    } else if keycode == KEYCODE_ENT {
        Action::WindowFull
    } else if keycode == KEYCODE_X {
        Action::WindowClose
    } else if keycode == KEYCODE_N {
        Action::NextDisplay
    } else if keycode == KEYCODE_P {
        Action::PrevDisplay
    } else if keycode == KEYCODE_I {
        Action::PrevGroup
    } else if keycode == KEYCODE_O {
        Action::NextGroup
    } else {
        match digit_key(keycode) {
            Some(id) => Action::ShowGroup(id),
            None => Action::ModeInsert,
        }
    }
}

fn normal_key_action(keycode: i64, f: u64, tiling: bool) -> (r: Action)
    ensures
        r == resolve_normal_key(keycode, f, tiling),
{
    if keycode == KEYCODE_C && f == 0 {
        Action::LayoutCascade
    } else if keycode == KEYCODE_F && f == 0 {
        Action::LayoutFloating
    } else if keycode == KEYCODE_H && f == FLAG_ALT && tiling {
        Action::IncrPrimaryColWindows
    } else if keycode == KEYCODE_L && f == FLAG_ALT && tiling {
        Action::DecrPrimaryColWindows
    } else if keycode == KEYCODE_H && f == 0 {
        if tiling {
            Action::DecrPrimaryColWidth
        } else {
            Action::WindowLeftHalf
        }
    } else if keycode == KEYCODE_L && f == 0 {
        if tiling {
            Action::IncrPrimaryColWidth
        } else {
            Action::WindowRightHalf
        }
    } else if keycode == KEYCODE_M && f == 0 {
        Action::WindowMinimize
    } else if keycode == KEYCODE_M && f == FLAG_SHIFT {
        Action::WindowRestore
    } else if keycode == KEYCODE_R && f == 0 {
        Action::RelayoutAll
    } else if keycode == KEYCODE_T && f == 0 {
        Action::LayoutTiling
    } else if keycode == KEYCODE_J && f == FLAG_ALT {
        Action::SwapNextWindow
    } else if keycode == KEYCODE_K && f == FLAG_ALT {
        Action::SwapPrevWindow
    } else if keycode == KEYCODE_J && f == 0 {
        Action::NextWindow
    } else if keycode == KEYCODE_K && f == 0 {
        Action::PrevWindow
    } else if keycode == KEYCODE_ENT && f == 0 {
        Action::WindowFull
    } else if keycode == KEYCODE_X && f == 0 {
        Action::WindowClose
    } else if keycode == KEYCODE_N && f == 0 {
        Action::NextDisplay
    } else if keycode == KEYCODE_P && f == 0 {
        Action::PrevDisplay
    } else if keycode == KEYCODE_N && f == FLAG_ALT {
        Action::MoveWindowToNextDisplay { follow: true }
    } else if keycode == KEYCODE_N && f == NORMAL_CHORD {
        Action::MoveWindowToNextDisplay { follow: false }
    } else if keycode == KEYCODE_P && f == FLAG_ALT {
        Action::MoveWindowToPrevDisplay { follow: true }
    } else if keycode == KEYCODE_P && f == NORMAL_CHORD {
        Action::MoveWindowToPrevDisplay { follow: false }
    } else if keycode == KEYCODE_I && f == 0 {
        Action::PrevGroup
    } else if keycode == KEYCODE_O && f == 0 {
        Action::NextGroup
    } else if keycode == KEYCODE_I && f == FLAG_ALT {
        Action::MoveWindowToPrevGroup { follow: true }
    } else if keycode == KEYCODE_I && f == NORMAL_CHORD {
        Action::MoveWindowToPrevGroup { follow: false }
    } else if keycode == KEYCODE_O && f == FLAG_ALT {
        Action::MoveWindowToNextGroup { follow: true }
    } else if keycode == KEYCODE_O && f == NORMAL_CHORD {
        Action::MoveWindowToNextGroup { follow: false }
    } else {
        match digit_key(keycode) {
            Some(id) => {
                if f == 0 {
                    Action::ShowGroup(id)
                } else if f == FLAG_ALT {
                    Action::MoveWindowToGroup { id, follow: true }
                } else if f == NORMAL_CHORD || f == FLAG_CMD {
                    Action::ToggleWindowInGroup(id)
                } else {
                    Action::ModeInsert
                }
            },
            None => Action::ModeInsert,
        }
    }
}

impl Action {
    /// Resolve one raw input event against the current mode and layout.
    ///
    /// In `Normal` and `InsertNormal` every key-down resolves to some action.
    pub fn of_cg_event(event: &InputEvent, mode: &Mode, layout: Option<&Layout>) -> (r: Option<
        Action,
    >)
        ensures
            r == spec_resolve(*event, *mode, opt_layout_is_tiling(layout)),
            *mode != Mode::Insert && *event is KeyDown ==> r is Some,
    {
        let tiling = match layout {
            Some(l) => matches!(l, Layout::TileHorizontal(_)),
            None => false,
        };
        match *event {
            InputEvent::FlagsChanged { flags } => {
                let f = flags & FLAG_MASK;
                match mode {
                    Mode::Insert => if f == NORMAL_CHORD {
                        Some(Action::ModeInsertNormal)
                    } else {
                        None
                    },
                    Mode::InsertNormal => if f != NORMAL_CHORD {
                        Some(Action::ModeInsert)
                    } else {
                        None
                    },
                    Mode::Normal => None,
                }
            },
            InputEvent::KeyDown { keycode, flags } => {
                let f = flags & FLAG_MASK;
                match mode {
                    Mode::Insert => if keycode == KEYCODE_F3 {
                        Some(Action::ModeNormal)
                    } else if keycode == KEYCODE_0 && f == NORMAL_CHORD {
                        Some(Action::ShowGroup(0))
                    } else {
                        None
                    },
                    Mode::InsertNormal => Some(transient_key_action(keycode, tiling)),
                    Mode::Normal => if keycode == KEYCODE_ESC || keycode == KEYCODE_Q || keycode
                        == KEYCODE_F3 {
                        Some(Action::ModeInsert)
                    } else {
                        Some(normal_key_action(keycode, f, tiling))
                    },
                }
            },
            InputEvent::Other => None,
        }
    }
}

} // verus!
