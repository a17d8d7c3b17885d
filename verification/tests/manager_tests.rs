use awesome_rs::action::Action;
use awesome_rs::command::{DisplayInfo, WindowScan};
use awesome_rs::display_state::{DisplayState, GroupEntry};
use awesome_rs::group::WindowGroup;
use awesome_rs::{Command, DragWindow, Layout, Mode, Rect, WindowHandle, WindowManager};

fn rect(x: i64, y: i64, w: i64, h: i64) -> Rect {
    Rect { x, y, w, h }
}

fn disp(id: u32, x: i64, y: i64, w: i64, h: i64) -> DisplayInfo {
    DisplayInfo { id, bounds: rect(x, y, w, h) }
}

fn win(id: u64, pid: i64, x: i64, y: i64, display_id: u32) -> WindowHandle {
    WindowHandle {
        id,
        pid,
        title_key: id,
        frame: rect(x, y, 300, 200),
        display_id,
        frontmost_main: false,
    }
}

fn scan(
    displays: Vec<DisplayInfo>,
    open_windows: Vec<WindowHandle>,
    minimized_windows: Vec<WindowHandle>,
) -> WindowScan {
    WindowScan { displays, open_windows, minimized_windows, own_pid: 999 }
}

/// A manager holding the given windows in one group on one display.
fn manager_with(windows: Vec<WindowHandle>, layout: Layout) -> WindowManager {
    let group = WindowGroup {
        layout,
        primary_column_max_windows: 1,
        primary_column_pct: 50,
        active_window_idx: if windows.is_empty() { None } else { Some(0) },
        windows,
    };
    WindowManager {
        mode: Mode::Normal,
        active_display_idx: Some(0),
        display_info: vec![disp(1, 0, 0, 1000, 800)],
        displays: vec![DisplayState {
            display_id: 1,
            active_group: Some(1),
            groups: vec![GroupEntry { id: 1, group }],
        }],
        minimized_windows: vec![],
        drag_window: None,
        highlight_visible: false,
        status_visible: false,
    }
}

fn group_window_ids(wm: &WindowManager, di: usize, gid: u8) -> Vec<u64> {
    wm.displays[di]
        .groups
        .iter()
        .find(|e| e.id == gid)
        .map(|e| e.group.windows.iter().map(|w| w.id).collect())
        .unwrap_or_default()
}

#[test]
fn refresh_inserts_open_windows_on_their_displays() {
    let mut wm = WindowManager::new();
    let mut w1 = win(1, 100, 10, 10, 1);
    w1.frontmost_main = true;
    let w2 = win(2, 101, 20, 20, 1);
    let own = win(3, 999, 30, 30, 1);
    wm.refresh_window_list(scan(vec![disp(1, 0, 0, 1000, 800)], vec![w1, w2, own], vec![]));
    // both foreign windows tracked, the manager's own window ignored
    assert_eq!(wm.displays.len(), 1);
    let ids = group_window_ids(&wm, 0, 1);
    assert_eq!(ids.len(), 2);
    assert!(ids.contains(&1) && ids.contains(&2));
    // the frontmost-and-main window became the selection
    assert_eq!(wm.get_active_window().map(|w| w.id), Some(1));
    assert_eq!(wm.active_display_idx, Some(0));
}

#[test]
fn refresh_does_not_duplicate_known_windows() {
    let mut wm = WindowManager::new();
    let d = vec![disp(1, 0, 0, 1000, 800)];
    let w1 = win(1, 100, 10, 10, 1);
    wm.refresh_window_list(scan(d.clone(), vec![w1], vec![]));
    // the same underlying window comes back with a fresh handle id
    let w1_again = WindowHandle { id: 7, ..w1 };
    wm.refresh_window_list(scan(d, vec![w1_again], vec![]));
    assert_eq!(group_window_ids(&wm, 0, 1), vec![1]);
}

#[test]
fn refresh_drops_windows_no_longer_reported() {
    let mut wm = WindowManager::new();
    let d = vec![disp(1, 0, 0, 1000, 800)];
    let w1 = win(1, 100, 10, 10, 1);
    let w2 = win(2, 101, 20, 20, 1);
    wm.refresh_window_list(scan(d.clone(), vec![w1, w2], vec![]));
    wm.refresh_window_list(scan(d, vec![WindowHandle { id: 9, ..w2 }], vec![]));
    assert_eq!(group_window_ids(&wm, 0, 1), vec![2]);
}

#[test]
fn minimize_and_restore_keep_single_ownership() {
    let mut wm = manager_with(vec![win(1, 100, 10, 10, 1), win(2, 101, 20, 20, 1)], Layout::Cascade);
    let cmds = wm.do_action(&Action::WindowMinimize, None);
    assert!(cmds.contains(&Command::SetMinimized { window_id: 1, minimized: true }));
    assert_eq!(wm.minimized_windows.len(), 1);
    assert_eq!(wm.minimized_windows[0].id, 1);
    // the window left its group in the same stroke
    assert_eq!(group_window_ids(&wm, 0, 1), vec![2]);

    let cmds = wm.do_action(&Action::WindowRestore, None);
    assert!(cmds.contains(&Command::SetMinimized { window_id: 1, minimized: false }));
    assert!(wm.minimized_windows.is_empty());
    let ids = group_window_ids(&wm, 0, 1);
    assert_eq!(ids.len(), 2);
    assert!(ids.contains(&1) && ids.contains(&2));
}

#[test]
fn toggle_respects_the_no_orphan_rule() {
    // the selected window lives only in group 1; toggling it there must not
    // remove its last membership
    let mut wm = manager_with(vec![win(1, 100, 10, 10, 1)], Layout::Cascade);
    wm.do_action(&Action::ToggleWindowInGroup(1), None);
    assert_eq!(group_window_ids(&wm, 0, 1), vec![1]);
}

#[test]
fn toggle_adds_then_removes_group_membership() {
    let mut wm = manager_with(vec![win(1, 100, 10, 10, 1)], Layout::Cascade);
    // toggling into group 3 adds the window there while it stays in group 1
    wm.do_action(&Action::ToggleWindowInGroup(3), None);
    assert_eq!(group_window_ids(&wm, 0, 1), vec![1]);
    assert_eq!(group_window_ids(&wm, 0, 3), vec![1]);
    // now it exists elsewhere, so toggling it out of group 1 is allowed
    wm.do_action(&Action::ToggleWindowInGroup(1), None);
    assert!(group_window_ids(&wm, 0, 1).is_empty());
    assert_eq!(group_window_ids(&wm, 0, 3), vec![1]);
}

#[test]
fn mode_round_trip_leaves_no_residual_state() {
    let mut wm = WindowManager::new();
    assert_eq!(wm.mode(), Mode::Insert);
    let enter = Action::of_cg_event(
        &awesome_rs::InputEvent::FlagsChanged { flags: awesome_rs::action::NORMAL_CHORD },
        &wm.mode(),
        wm.layout().as_ref(),
    );
    assert_eq!(enter, Some(Action::ModeInsertNormal));
    wm.do_action(&Action::ModeInsertNormal, Some(scan(vec![disp(1, 0, 0, 1000, 800)], vec![], vec![])));
    assert_eq!(wm.mode(), Mode::InsertNormal);
    let leave = Action::of_cg_event(
        &awesome_rs::InputEvent::FlagsChanged { flags: 0 },
        &wm.mode(),
        wm.layout().as_ref(),
    );
    assert_eq!(leave, Some(Action::ModeInsert));
    let cmds = wm.do_action(&Action::ModeInsert, None);
    assert_eq!(wm.mode(), Mode::Insert);
    assert!(!wm.highlight_visible);
    assert!(!wm.status_visible);
    assert!(cmds.contains(&Command::CloseStatus));
}

#[test]
fn relayout_twice_is_idempotent() {
    let mut wm = manager_with(
        vec![win(1, 100, 10, 10, 1), win(2, 101, 20, 20, 1), win(3, 102, 30, 30, 1)],
        Layout::tile_horizontal(2, 50),
    );
    wm.do_action(&Action::RelayoutAll, None);
    let first: Vec<Rect> = wm.displays[0].groups[0].group.windows.iter().map(|w| w.frame).collect();
    wm.do_action(&Action::RelayoutAll, None);
    let second: Vec<Rect> = wm.displays[0].groups[0].group.windows.iter().map(|w| w.frame).collect();
    assert_eq!(first, second);
}

#[test]
fn next_window_direction_is_inverted_under_stacking_layouts() {
    let ws = vec![win(1, 100, 10, 10, 1), win(2, 101, 20, 20, 1), win(3, 102, 30, 30, 1)];
    // tiling: next steps forward
    let mut wm = manager_with(ws.clone(), Layout::tile_horizontal(1, 50));
    wm.do_action(&Action::NextWindow, None);
    assert_eq!(wm.get_active_window().map(|w| w.id), Some(2));
    // cascade: next steps backward, wrapping to the end of the list
    let mut wm = manager_with(ws, Layout::Cascade);
    wm.do_action(&Action::NextWindow, None);
    assert_eq!(wm.get_active_window().map(|w| w.id), Some(3));
}

#[test]
fn selection_stays_valid_through_pops() {
    let mut wm = manager_with(
        vec![win(1, 100, 10, 10, 1), win(2, 101, 20, 20, 1)],
        Layout::Cascade,
    );
    wm.do_action(&Action::WindowClose, None);
    let g = &wm.displays[0].groups[0].group;
    assert_eq!(g.windows.len(), 1);
    assert_eq!(g.active_window_idx, Some(0));
    wm.do_action(&Action::WindowClose, None);
    let g = &wm.displays[0].groups[0].group;
    assert!(g.windows.is_empty());
    assert_eq!(g.active_window_idx, None);
    // closing with nothing selected is a quiet no-op
    let cmds = wm.do_action(&Action::WindowClose, None);
    assert!(!cmds.iter().any(|c| matches!(c, Command::Close { .. })));
}

#[test]
fn window_left_half_takes_half_the_display() {
    let mut wm = manager_with(vec![win(1, 100, 10, 10, 1)], Layout::Floating);
    let cmds = wm.do_action(&Action::WindowLeftHalf, None);
    assert!(cmds.contains(&Command::SetFrame { window_id: 1, frame: rect(0, 0, 500, 800) }));
    assert_eq!(wm.get_active_window().unwrap().frame, rect(0, 0, 500, 800));
}

#[test]
fn window_right_half_jumps_to_the_next_display() {
    let mut wm = manager_with(vec![win(1, 100, 10, 10, 1)], Layout::Floating);
    wm.display_info.push(disp(2, 1000, 0, 600, 400));
    // first press: right half of display 1
    wm.do_action(&Action::WindowRightHalf, None);
    assert_eq!(wm.get_active_window().unwrap().frame, rect(500, 0, 500, 800));
    // second press: left half of the display to the right, group follows
    wm.do_action(&Action::WindowRightHalf, None);
    let moved = wm.get_active_window().unwrap();
    assert_eq!(moved.frame, rect(1000, 0, 300, 400));
    assert_eq!(moved.display_id, 2);
    assert_eq!(wm.displays.len(), 2);
    assert_eq!(wm.active_display_idx, Some(1));
}

#[test]
fn move_window_to_next_display_with_follow() {
    let mut wm = manager_with(vec![win(1, 100, 10, 10, 1), win(2, 101, 20, 20, 1)], Layout::Cascade);
    wm.display_info.push(disp(2, 1000, 0, 600, 400));
    wm.do_action(&Action::MoveWindowToNextDisplay { follow: true }, None);
    // the selected window landed in a fresh state for display 2
    assert_eq!(wm.displays.len(), 2);
    assert_eq!(group_window_ids(&wm, 1, 1), vec![1]);
    assert_eq!(group_window_ids(&wm, 0, 1), vec![2]);
    assert_eq!(wm.active_display_idx, Some(1));
}

#[test]
fn show_group_creates_nothing_and_switches() {
    let mut wm = manager_with(vec![win(1, 100, 10, 10, 1)], Layout::Cascade);
    wm.do_action(&Action::ShowGroup(4), None);
    assert_eq!(wm.displays[0].active_group, Some(4));
    // group 4 does not exist, so nothing is selected
    assert_eq!(wm.get_active_window(), None);
    wm.do_action(&Action::ShowGroup(1), None);
    assert_eq!(wm.get_active_window().map(|w| w.id), Some(1));
}

#[test]
fn move_window_to_group_creates_the_group() {
    let mut wm = manager_with(vec![win(1, 100, 10, 10, 1), win(2, 101, 20, 20, 1)], Layout::Cascade);
    wm.do_action(&Action::MoveWindowToGroup { id: 5, follow: false }, None);
    assert_eq!(group_window_ids(&wm, 0, 5), vec![1]);
    assert_eq!(group_window_ids(&wm, 0, 1), vec![2]);
    // without follow the shown group is unchanged
    assert_eq!(wm.displays[0].active_group, Some(1));
}

#[test]
fn tiling_parameters_move_in_steps_of_ten_between_20_and_80() {
    let mut wm = manager_with(
        vec![win(1, 100, 10, 10, 1), win(2, 101, 20, 20, 1)],
        Layout::tile_horizontal(1, 50),
    );
    for _ in 0..5 {
        wm.do_action(&Action::IncrPrimaryColWidth, None);
    }
    assert_eq!(wm.displays[0].groups[0].group.primary_column_pct, 80);
    for _ in 0..8 {
        wm.do_action(&Action::DecrPrimaryColWidth, None);
    }
    assert_eq!(wm.displays[0].groups[0].group.primary_column_pct, 20);
    // the primary column never exceeds the group size and never drops below 1
    wm.do_action(&Action::IncrPrimaryColWindows, None);
    wm.do_action(&Action::IncrPrimaryColWindows, None);
    assert_eq!(wm.displays[0].groups[0].group.primary_column_max_windows, 2);
    wm.do_action(&Action::DecrPrimaryColWindows, None);
    wm.do_action(&Action::DecrPrimaryColWindows, None);
    assert_eq!(wm.displays[0].groups[0].group.primary_column_max_windows, 1);
}

#[test]
fn mode_insert_hides_the_highlight() {
    let mut wm = manager_with(vec![win(1, 100, 10, 10, 1)], Layout::Cascade);
    wm.do_action(&Action::ShowGroup(1), None);
    assert!(wm.highlight_visible);
    let cmds = wm.do_action(&Action::ModeInsert, None);
    assert!(!wm.highlight_visible);
    assert!(cmds.contains(&Command::HideHighlight));
}

#[test]
fn drag_window_keeps_the_grab_offset() {
    let dw = DragWindow::new(5, 10, 20);
    assert_eq!(
        dw.set_position_around(100, 200),
        Command::SetPosition { window_id: 5, x: 90, y: 180 }
    );
    assert_eq!(dw.activate_window(), Command::Activate { window_id: 5 });
    let mut wm = WindowManager::new();
    wm.set_drag_window(Some(dw));
    assert_eq!(wm.drag_window(), Some(dw));
}
