use awesome_rs::action::{
    Action, InputEvent, FLAG_ALT, FLAG_CMD, FLAG_CTRL, FLAG_SHIFT, KEYCODE_3, KEYCODE_5,
    KEYCODE_7, KEYCODE_9, KEYCODE_A, KEYCODE_ESC, KEYCODE_F3, KEYCODE_H, KEYCODE_J, KEYCODE_L,
    KEYCODE_M, KEYCODE_Q, KEYCODE_X,
};
use awesome_rs::{Layout, Mode};

fn key(keycode: i64, flags: u64) -> InputEvent {
    InputEvent::KeyDown { keycode, flags }
}

fn resolve(event: InputEvent, mode: Mode, layout: Option<&Layout>) -> Option<Action> {
    Action::of_cg_event(&event, &mode, layout)
}

#[test]
fn insert_mode_passes_ordinary_keys_through() {
    assert_eq!(resolve(key(KEYCODE_J, 0), Mode::Insert, None), None);
    assert_eq!(resolve(key(KEYCODE_X, FLAG_CMD), Mode::Insert, None), None);
}

#[test]
fn enter_normal_mode_from_insert_and_transient() {
    assert_eq!(resolve(key(KEYCODE_F3, 0), Mode::Insert, None), Some(Action::ModeNormal));
    assert_eq!(resolve(key(KEYCODE_A, 0), Mode::InsertNormal, None), Some(Action::ModeNormal));
}

#[test]
fn transient_chord_enters_and_leaves_the_transient_mode() {
    let chord = InputEvent::FlagsChanged { flags: FLAG_ALT | FLAG_SHIFT };
    let release = InputEvent::FlagsChanged { flags: 0 };
    assert_eq!(resolve(chord, Mode::Insert, None), Some(Action::ModeInsertNormal));
    assert_eq!(resolve(release, Mode::InsertNormal, None), Some(Action::ModeInsert));
    // holding the exact chord keeps the transient mode
    assert_eq!(resolve(chord, Mode::InsertNormal, None), None);
    // a different modifier set does not enter it
    let other = InputEvent::FlagsChanged { flags: FLAG_ALT | FLAG_CTRL };
    assert_eq!(resolve(other, Mode::Insert, None), None);
}

#[test]
fn escape_q_and_unrecognised_keys_return_to_insert() {
    assert_eq!(resolve(key(KEYCODE_ESC, 0), Mode::Normal, None), Some(Action::ModeInsert));
    assert_eq!(resolve(key(KEYCODE_Q, 0), Mode::Normal, None), Some(Action::ModeInsert));
    // catch-all: every keystroke in Normal resolves to something
    assert_eq!(resolve(key(999, 0), Mode::Normal, None), Some(Action::ModeInsert));
    assert_eq!(resolve(key(999, 0), Mode::InsertNormal, None), Some(Action::ModeInsert));
}

#[test]
fn h_and_l_depend_on_the_layout() {
    let tiling = Layout::tile_horizontal(1, 50);
    let floating = Layout::Floating;
    assert_eq!(
        resolve(key(KEYCODE_H, 0), Mode::Normal, Some(&tiling)),
        Some(Action::DecrPrimaryColWidth)
    );
    assert_eq!(
        resolve(key(KEYCODE_L, 0), Mode::Normal, Some(&tiling)),
        Some(Action::IncrPrimaryColWidth)
    );
    assert_eq!(
        resolve(key(KEYCODE_H, FLAG_ALT), Mode::Normal, Some(&tiling)),
        Some(Action::IncrPrimaryColWindows)
    );
    assert_eq!(
        resolve(key(KEYCODE_L, FLAG_ALT), Mode::Normal, Some(&tiling)),
        Some(Action::DecrPrimaryColWindows)
    );
    assert_eq!(
        resolve(key(KEYCODE_H, 0), Mode::Normal, Some(&floating)),
        Some(Action::WindowLeftHalf)
    );
    assert_eq!(
        resolve(key(KEYCODE_L, 0), Mode::Normal, None),
        Some(Action::WindowRightHalf)
    );
}

#[test]
fn modifier_sets_match_exactly() {
    // alt+j swaps, plain j moves; alt+shift+j is neither and falls back
    assert_eq!(resolve(key(KEYCODE_J, 0), Mode::Normal, None), Some(Action::NextWindow));
    assert_eq!(
        resolve(key(KEYCODE_J, FLAG_ALT), Mode::Normal, None),
        Some(Action::SwapNextWindow)
    );
    assert_eq!(
        resolve(key(KEYCODE_J, FLAG_ALT | FLAG_SHIFT), Mode::Normal, None),
        Some(Action::ModeInsert)
    );
    // irrelevant flag bits are masked away
    assert_eq!(
        resolve(key(KEYCODE_J, 0x1000_0000), Mode::Normal, None),
        Some(Action::NextWindow)
    );
}

#[test]
fn digit_keys_map_to_group_actions() {
    assert_eq!(resolve(key(KEYCODE_9, 0), Mode::Normal, None), Some(Action::ShowGroup(9)));
    assert_eq!(
        resolve(key(KEYCODE_7, FLAG_ALT), Mode::Normal, None),
        Some(Action::MoveWindowToGroup { id: 7, follow: true })
    );
    assert_eq!(
        resolve(key(KEYCODE_5, FLAG_CMD), Mode::Normal, None),
        Some(Action::ToggleWindowInGroup(5))
    );
}

#[test]
fn digit_with_alt_shift_toggles_group_membership() {
    // pressing digit key 3 with alt+shift held in Normal mode
    assert_eq!(
        resolve(key(KEYCODE_3, FLAG_ALT | FLAG_SHIFT), Mode::Normal, None),
        Some(Action::ToggleWindowInGroup(3))
    );
}

#[test]
fn minimize_and_restore_keys() {
    assert_eq!(resolve(key(KEYCODE_M, 0), Mode::Normal, None), Some(Action::WindowMinimize));
    assert_eq!(
        resolve(key(KEYCODE_M, FLAG_SHIFT), Mode::Normal, None),
        Some(Action::WindowRestore)
    );
    assert_eq!(resolve(key(KEYCODE_M, 0), Mode::InsertNormal, None), Some(Action::WindowMinimize));
}
