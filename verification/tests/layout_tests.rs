use awesome_rs::command::DisplayInfo;
use awesome_rs::layout::Layout;
use awesome_rs::{Command, Rect, WindowHandle};

fn rect(x: i64, y: i64, w: i64, h: i64) -> Rect {
    Rect { x, y, w, h }
}

fn disp(id: u32, x: i64, y: i64, w: i64, h: i64) -> DisplayInfo {
    DisplayInfo { id, bounds: rect(x, y, w, h) }
}

fn win(id: u64, x: i64, y: i64, w: i64, h: i64, display_id: u32) -> WindowHandle {
    WindowHandle {
        id,
        pid: 100,
        title_key: id,
        frame: rect(x, y, w, h),
        display_id,
        frontmost_main: false,
    }
}

fn frames_of(ws: &[WindowHandle]) -> Vec<Rect> {
    ws.iter().map(|w| w.frame).collect()
}

#[test]
fn cascade_frames_follow_the_stair_step() {
    let d = disp(1, 0, 0, 900, 600);
    let ws = vec![win(1, 0, 0, 10, 10, 1), win(2, 0, 0, 10, 10, 1), win(3, 0, 0, 10, 10, 1)];
    let (out, cmds) = Layout::cascade().apply(&d, &vec![d], &ws);
    // window at original index n-1-i gets origin (x + 32 i, y + 38 + 32 i)
    assert_eq!(out[2].frame, rect(0, 38, 600, 400));
    assert_eq!(out[1].frame, rect(32, 70, 600, 400));
    assert_eq!(out[0].frame, rect(64, 102, 600, 400));
    // commands are issued from the back of the list forwards
    assert_eq!(cmds.len(), 3);
    assert_eq!(cmds[0], Command::SetFrame { window_id: 3, frame: rect(0, 38, 600, 400) });
    assert_eq!(cmds[2], Command::SetFrame { window_id: 1, frame: rect(64, 102, 600, 400) });
}

#[test]
fn cascade_offset_display_origin() {
    let d = disp(7, 100, 200, 300, 300);
    let ws = vec![win(1, 0, 0, 10, 10, 7)];
    let (out, _) = Layout::cascade().apply(&d, &vec![d], &ws);
    assert_eq!(out[0].frame, rect(100, 238, 200, 200));
}

#[test]
fn tiling_splits_three_windows_between_two_columns() {
    // 3 windows, max_primary_count = 2, primary_pct = 50, display (0,0,1000,800)
    let d = disp(1, 0, 0, 1000, 800);
    let ws = vec![win(1, 0, 0, 10, 10, 1), win(2, 0, 0, 10, 10, 1), win(3, 0, 0, 10, 10, 1)];
    let (out, cmds) = Layout::tile_horizontal(2, 50).apply(&d, &vec![d], &ws);
    assert_eq!(out[0].frame, rect(0, 38, 500, 381));
    assert_eq!(out[1].frame, rect(0, 419, 500, 381));
    assert_eq!(out[2].frame, rect(500, 38, 500, 762));
    assert_eq!(cmds.len(), 3);
    assert_eq!(cmds[0], Command::SetFrame { window_id: 1, frame: rect(0, 38, 500, 381) });
    assert_eq!(cmds[1], Command::SetFrame { window_id: 2, frame: rect(0, 419, 500, 381) });
    assert_eq!(cmds[2], Command::SetFrame { window_id: 3, frame: rect(500, 38, 500, 762) });
}

#[test]
fn tiling_with_empty_secondary_column_takes_full_width() {
    let d = disp(1, 0, 0, 1000, 800);
    let ws = vec![win(1, 0, 0, 10, 10, 1), win(2, 0, 0, 10, 10, 1)];
    let (out, _) = Layout::tile_horizontal(5, 30).apply(&d, &vec![d], &ws);
    // min(n, k) = 2 windows in the primary column, none in the secondary
    assert_eq!(out[0].frame, rect(0, 38, 1000, 381));
    assert_eq!(out[1].frame, rect(0, 419, 1000, 381));
}

#[test]
fn tiling_primary_counts_min_of_n_and_k() {
    let d = disp(1, 0, 0, 1000, 838);
    let ws: Vec<WindowHandle> = (0..5).map(|i| win(i + 1, 0, 0, 10, 10, 1)).collect();
    let (out, _) = Layout::tile_horizontal(2, 60).apply(&d, &vec![d], &ws);
    // 2 primary windows at x = 0, 3 secondary at x = 600
    let primary: Vec<&WindowHandle> = out.iter().filter(|w| w.frame.x == 0).collect();
    let secondary: Vec<&WindowHandle> = out.iter().filter(|w| w.frame.x == 600).collect();
    assert_eq!(primary.len(), 2);
    assert_eq!(secondary.len(), 3);
    assert_eq!(primary[0].frame.w, 600);
    assert_eq!(secondary[0].frame.w, 400);
    // each column divides the usable height evenly
    assert_eq!(primary[0].frame.h, 400);
    assert_eq!(secondary[0].frame.h, 266);
}

#[test]
fn floating_translates_windows_from_other_displays() {
    let d1 = disp(1, 0, 0, 1000, 800);
    let d2 = disp(2, 1000, 0, 800, 600);
    let displays = vec![d1, d2];
    // window 1 already on display 1, window 2 sits on display 2 at (1050, 60)
    let ws = vec![win(1, 10, 20, 300, 200, 1), win(2, 1050, 60, 300, 200, 2)];
    let (out, cmds) = Layout::floating().apply(&d1, &displays, &ws);
    // window 1 untouched
    assert_eq!(out[0].frame, rect(10, 20, 300, 200));
    assert_eq!(out[0].display_id, 1);
    // window 2 keeps its position relative to its display's origin
    assert_eq!(out[1].frame, rect(50, 60, 300, 200));
    assert_eq!(out[1].display_id, 1);
    assert_eq!(cmds, vec![Command::SetPosition { window_id: 2, x: 50, y: 60 }]);
}

#[test]
fn floating_leaves_unknown_displays_alone() {
    let d1 = disp(1, 0, 0, 1000, 800);
    let ws = vec![win(2, 50, 60, 300, 200, 9)];
    let (out, cmds) = Layout::floating().apply(&d1, &vec![d1], &ws);
    assert_eq!(out[0].frame, rect(50, 60, 300, 200));
    assert!(cmds.is_empty());
}

#[test]
fn relayout_applied_twice_gives_the_same_frames() {
    let d = disp(1, 0, 0, 1000, 800);
    let displays = vec![d];
    let ws = vec![win(1, 5, 5, 10, 10, 1), win(2, 7, 7, 10, 10, 1), win(3, 9, 9, 10, 10, 2)];
    for layout in [Layout::floating(), Layout::cascade(), Layout::tile_horizontal(2, 50)] {
        let (once, _) = layout.apply(&d, &displays, &ws);
        let (twice, _) = layout.apply(&d, &displays, &once);
        assert_eq!(frames_of(&once), frames_of(&twice));
    }
}
