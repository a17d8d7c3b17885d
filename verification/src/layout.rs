//! The layout engine: pure geometry.
//!
//! Given a display and the ordered windows of a group, each policy computes a
//! target frame per window. Nothing is written here; the caller records the
//! new frames in its model and hands the matching commands to the platform
//! layer, which applies them best-effort.

use vstd::prelude::*;

use crate::command::{Command, DisplayInfo};
use crate::geometry::{Rect, MAX_DISPLAY_COORD, MAX_FRAME_COORD};
use crate::window::WindowHandle;

verus! {

/// Cap on the number of windows a single group may hold; keeps every layout
/// computation within `i64`.
pub const MAX_WINDOWS: usize = 0x1000_0000;

/// Vertical inset below a display's top edge left free for the menu bar.
pub const TOP_INSET: i64 = 38;

/// Horizontal and vertical step between consecutive cascaded windows.
pub const CASCADE_STEP: i64 = 32;

/// Parameters of the horizontal tiling policy.
#[derive(Clone, Copy, Debug, PartialEq, Eq, Structural)]
pub struct TileHorizontalOpts {
    /// How many windows the primary column may hold; at least 1.
    pub max_num_left: i32,
    /// Width of the primary column as a percentage of the display width.
    pub primary_column_pct: u8,
}

/// A window-placement policy.
#[derive(Clone, Copy, Debug, PartialEq, Eq, Structural)]
pub enum Layout {
    Floating,
    Cascade,
    TileHorizontal(TileHorizontalOpts),
}

/// Truncating integer division, as the machine performs it; both arguments
/// may be negative, `b` must not be zero.
pub open spec fn tdiv(a: int, b: int) -> int {
    if a >= 0 {
        a / b
    } else {
        -((-a) / b)
    }
}

/// `tdiv` stays between zero and its dividend (for positive divisors, which
/// is all this crate uses).
pub proof fn lemma_tdiv_bounds(a: int, b: int)
    requires
        b > 0,
    ensures
        a >= 0 ==> 0 <= tdiv(a, b) <= a,
        a < 0 ==> a <= tdiv(a, b) <= 0,
{
    if a >= 0 {
        assert(0 <= a / b <= a) by (nonlinear_arith)
            requires
                a >= 0 && b > 0,
        ;
    } else {
        assert(0 <= (-a) / b <= -a) by (nonlinear_arith)
            requires
                a < 0 && b > 0,
        ;
    }
}

/// The window `w` with its frame replaced and its display recorded.
pub open spec fn with_frame(w: WindowHandle, f: Rect, display_id: u32) -> WindowHandle {
    WindowHandle {
        id: w.id,
        pid: w.pid,
        title_key: w.title_key,
        frame: f,
        display_id,
        frontmost_main: w.frontmost_main,
    }
}

/// The window `w` with only its origin moved and its display recorded.
pub open spec fn with_origin(w: WindowHandle, x: i64, y: i64, display_id: u32) -> WindowHandle {
    with_frame(w, Rect { x, y, w: w.frame.w, h: w.frame.h }, display_id)
}

impl Layout {
    pub fn floating() -> (r: Self)
        ensures
            r == Layout::Floating,
    {
        Self::Floating
    }

    pub fn cascade() -> (r: Self)
        ensures
            r == Layout::Cascade,
    {
        Self::Cascade
    }

    pub fn tile_horizontal(max_num_left: i32, primary_column_width_pct: u8) -> (r: Self)
        ensures
            r == Layout::TileHorizontal(
                TileHorizontalOpts {
                    max_num_left,
                    primary_column_pct: primary_column_width_pct,
                },
            ),
    {
        Self::TileHorizontal(
            TileHorizontalOpts { max_num_left, primary_column_pct: primary_column_width_pct },
        )
    }

    /// Whether this is the horizontal tiling policy.
    pub open spec fn is_tiling(self) -> bool {
        self is TileHorizontal
    }

    /// The tiling parameters are usable: a primary column of at least one
    /// window, a percentage no more than 100.
    pub open spec fn opts_wf(self) -> bool {
        match self {
            Layout::TileHorizontal(o) => o.max_num_left >= 1 && o.primary_column_pct <= 100,
            _ => true,
        }
    }
}

// ---------------------------------------------------------------------------
// Cascade
// ---------------------------------------------------------------------------

/// The cascade frame of the window at index `j` of `n`: the window `i = n-1-j`
/// steps from the back sits `i` steps down-right of the display's top-left
/// (below the top inset) at two thirds of the display's size, so the first
/// window ends on top of the stack.
pub open spec fn cascade_frame(d: Rect, n: int, j: int) -> Rect {
    let i = n - 1 - j;
    Rect {
        x: (d.x + CASCADE_STEP * i) as i64,
        y: (d.y + TOP_INSET + CASCADE_STEP * i) as i64,
        w: (2 * d.w / 3) as i64,
        h: (2 * d.h / 3) as i64,
    }
}

/// All windows re-framed by the cascade policy on display `d`.
pub open spec fn cascade_windows(d: DisplayInfo, ws: Seq<WindowHandle>) -> Seq<WindowHandle> {
    Seq::new(ws.len(), |j: int| with_frame(ws[j], cascade_frame(d.bounds, ws.len() as int, j), d.id))
}

/// The commands the cascade policy issues, in its back-to-front order.
pub open spec fn cascade_cmds(d: DisplayInfo, ws: Seq<WindowHandle>) -> Seq<Command> {
    let n = ws.len() as int;
    Seq::new(
        ws.len(),
        |k: int| Command::SetFrame {
            window_id: ws[n - 1 - k].id,
            frame: cascade_frame(d.bounds, n, n - 1 - k),
        },
    )
}

// ---------------------------------------------------------------------------
// Horizontal tiling
// ---------------------------------------------------------------------------

/// How many of `n` windows go to the primary column when it may hold `k`.
pub open spec fn tile_num_left(n: int, k: int) -> int {
    if n <= k {
        n
    } else {
        k
    }
}

/// Width of the primary column: the full display when the secondary column is
/// empty, else `pct` percent of the display width.
pub open spec fn tile_left_width(d: Rect, n: int, k: int, pct: int) -> int {
    if n > k {
        d.w * pct / 100
    } else {
        d.w as int
    }
}

/// The tiling frame of the window at index `j` of `n`: the first
/// `tile_num_left(n, k)` windows stack top-to-bottom in the primary column,
/// the rest in the secondary column, each column dividing the usable height
/// evenly.
pub open spec fn tile_frame(d: Rect, n: int, k: int, pct: int, j: int) -> Rect {
    let nl = tile_num_left(n, k);
    let lw = tile_left_width(d, n, k, pct);
    if j < nl {
        let lh = tdiv(d.h - TOP_INSET, nl);
        Rect {
            x: d.x,
            y: (d.y + TOP_INSET + j * lh) as i64,
            w: lw as i64,
            h: lh as i64,
        }
    } else {
        let nr = n - nl;
        let rw = d.w * (100 - pct) / 100;
        let rh = tdiv(d.h - TOP_INSET, nr);
        Rect {
            x: (d.x + lw) as i64,
            y: (d.y + TOP_INSET + (j - nl) * rh) as i64,
            w: rw as i64,
            h: rh as i64,
        }
    }
}

/// All windows re-framed by the tiling policy on display `d`.
pub open spec fn tile_windows(
    d: DisplayInfo,
    k: int,
    pct: int,
    ws: Seq<WindowHandle>,
) -> Seq<WindowHandle> {
    Seq::new(
        ws.len(),
        |j: int| with_frame(ws[j], tile_frame(d.bounds, ws.len() as int, k, pct, j), d.id),
    )
}

/// The commands the tiling policy issues: one per window, in order.
pub open spec fn tile_cmds(d: DisplayInfo, k: int, pct: int, ws: Seq<WindowHandle>) -> Seq<
    Command,
> {
    Seq::new(
        ws.len(),
        |j: int| Command::SetFrame {
            window_id: ws[j].id,
            frame: tile_frame(d.bounds, ws.len() as int, k, pct, j),
        },
    )
}

// ---------------------------------------------------------------------------
// Floating
// ---------------------------------------------------------------------------

/// The first display of the list with the given id, if any.
pub open spec fn find_display(displays: Seq<DisplayInfo>, id: u32) -> Option<DisplayInfo>
    decreases displays.len(),
{
    if displays.len() == 0 {
        None
    } else if displays[0].id == id {
        Some(displays[0])
    } else {
        find_display(displays.drop_first(), id)
    }
}

/// Where the floating policy moves window `w` when its group sits on display
/// `d`: a window already on `d` stays put; one on another known display is
/// translated by the vector between the two displays' origins, preserving its
/// on-screen position relative to the display. A window whose display is
/// unknown, or whose translated origin would leave the representable range,
/// is left alone.
pub open spec fn floating_target(
    w: WindowHandle,
    d: DisplayInfo,
    displays: Seq<DisplayInfo>,
) -> Option<(i64, i64)> {
    if w.display_id == d.id {
        None
    } else {
        match find_display(displays, w.display_id) {
            None => None,
            Some(home) => {
                let nx = w.frame.x - home.bounds.x + d.bounds.x;
                let ny = w.frame.y - home.bounds.y + d.bounds.y;
                if -MAX_FRAME_COORD <= nx <= MAX_FRAME_COORD && -MAX_FRAME_COORD <= ny
                    <= MAX_FRAME_COORD {
                    Some((nx as i64, ny as i64))
                } else {
                    None
                }
            },
        }
    }
}

/// All windows after the floating policy has run on display `d`.
pub open spec fn floating_windows(
    d: DisplayInfo,
    displays: Seq<DisplayInfo>,
    ws: Seq<WindowHandle>,
) -> Seq<WindowHandle> {
    Seq::new(
        ws.len(),
        |j: int|
            match floating_target(ws[j], d, displays) {
                None => ws[j],
                Some(p) => with_origin(ws[j], p.0, p.1, d.id),
            },
    )
}

/// The commands the floating policy issues for the windows at indices
/// `lo..`, visiting them from the back of the list forwards.
pub open spec fn floating_cmds_from(
    d: DisplayInfo,
    displays: Seq<DisplayInfo>,
    ws: Seq<WindowHandle>,
    lo: int,
) -> Seq<Command>
    decreases ws.len() - lo,
{
    if lo < 0 || lo >= ws.len() {
        Seq::empty()
    } else {
        floating_cmds_from(d, displays, ws, lo + 1) + (match floating_target(
            ws[lo],
            d,
            displays,
        ) {
            None => Seq::<Command>::empty(),
            Some(p) => seq![Command::SetPosition { window_id: ws[lo].id, x: p.0, y: p.1 }],
        })
    }
}

/// The commands the floating policy issues on display `d`.
pub open spec fn floating_cmds(
    d: DisplayInfo,
    displays: Seq<DisplayInfo>,
    ws: Seq<WindowHandle>,
) -> Seq<Command> {
    floating_cmds_from(d, displays, ws, 0)
}

// ---------------------------------------------------------------------------
// Applying a layout
// ---------------------------------------------------------------------------

/// The windows of a group after layout `l` has run on display `d`.
pub open spec fn apply_windows(
    l: Layout,
    d: DisplayInfo,
    displays: Seq<DisplayInfo>,
    ws: Seq<WindowHandle>,
) -> Seq<WindowHandle> {
    match l {
        Layout::Floating => floating_windows(d, displays, ws),
        Layout::Cascade => cascade_windows(d, ws),
        Layout::TileHorizontal(o) => tile_windows(
            d,
            o.max_num_left as int,
            o.primary_column_pct as int,
            ws,
        ),
    }
}

/// The commands layout `l` issues on display `d`.
pub open spec fn apply_cmds(
    l: Layout,
    d: DisplayInfo,
    displays: Seq<DisplayInfo>,
    ws: Seq<WindowHandle>,
) -> Seq<Command> {
    match l {
        Layout::Floating => floating_cmds(d, displays, ws),
        Layout::Cascade => cascade_cmds(d, ws),
        Layout::TileHorizontal(o) => tile_cmds(
            d,
            o.max_num_left as int,
            o.primary_column_pct as int,
            ws,
        ),
    }
}

/// `find_display` returns an element of the list, with the id it was asked
/// for.
pub proof fn lemma_find_display_in(displays: Seq<DisplayInfo>, id: u32)
    ensures
        match find_display(displays, id) {
            Some(di) => displays.contains(di) && di.id == id,
            None => true,
        },
    decreases displays.len(),
{
    if displays.len() > 0 && displays[0].id != id {
        lemma_find_display_in(displays.drop_first(), id);
        match find_display(displays.drop_first(), id) {
            Some(di) => {
                let j = choose|j: int|
                    0 <= j < displays.drop_first().len() && displays.drop_first()[j] == di;
                assert(displays[j + 1] == di);
            },
            None => {},
        }
    }
}

/// Every frame the cascade policy computes stays in range.
pub proof fn lemma_cascade_frame_wf(d: Rect, n: int, j: int)
    requires
        d.display_bounds_wf(),
        0 <= j < n <= MAX_WINDOWS,
    ensures
        cascade_frame(d, n, j).frame_wf(),
{
}

/// Every frame the tiling policy computes stays in range.
pub proof fn lemma_tile_frame_wf(d: Rect, n: int, k: int, pct: int, j: int)
    requires
        d.display_bounds_wf(),
        0 <= j < n <= MAX_WINDOWS,
        1 <= k,
        0 <= pct <= 100,
    ensures
        tile_frame(d, n, k, pct, j).frame_wf(),
{
    let nl = tile_num_left(n, k);
    let lw = tile_left_width(d, n, k, pct);
    assert(0 <= d.w * pct <= MAX_DISPLAY_COORD * 100) by (nonlinear_arith)
        requires
            0 <= d.w <= MAX_DISPLAY_COORD && 0 <= pct <= 100,
    ;
    assert(0 <= d.w * pct / 100 <= d.w) by (nonlinear_arith)
        requires
            0 <= d.w && 0 <= pct <= 100,
    ;
    assert(0 <= d.w * (100 - pct) <= MAX_DISPLAY_COORD * 100) by (nonlinear_arith)
        requires
            0 <= d.w <= MAX_DISPLAY_COORD && 0 <= pct <= 100,
    ;
    assert(0 <= d.w * (100 - pct) / 100 <= d.w) by (nonlinear_arith)
        requires
            0 <= d.w && 0 <= pct <= 100,
    ;
    if j < nl {
        lemma_tdiv_bounds(d.h - TOP_INSET, nl);
        let lh = tdiv(d.h - TOP_INSET, nl);
        assert(-TOP_INSET <= lh <= MAX_DISPLAY_COORD);
        assert(-(MAX_WINDOWS as int) * TOP_INSET <= j * lh <= MAX_WINDOWS * MAX_DISPLAY_COORD)
            by (nonlinear_arith)
            requires
                0 <= j <= MAX_WINDOWS && -TOP_INSET <= lh <= MAX_DISPLAY_COORD,
        ;
    } else {
        let nr = n - nl;
        lemma_tdiv_bounds(d.h - TOP_INSET, nr);
        let rh = tdiv(d.h - TOP_INSET, nr);
        assert(-TOP_INSET <= rh <= MAX_DISPLAY_COORD);
        assert(-(MAX_WINDOWS as int) * TOP_INSET <= (j - nl) * rh <= MAX_WINDOWS
            * MAX_DISPLAY_COORD) by (nonlinear_arith)
            requires
                0 <= j - nl <= MAX_WINDOWS && -TOP_INSET <= rh <= MAX_DISPLAY_COORD,
        ;
    }
}

/// Relayout is idempotent: running a layout a second time, with no change to
/// the model in between, frames every window exactly as the first run did.
pub proof fn lemma_apply_windows_idempotent(
    l: Layout,
    d: DisplayInfo,
    displays: Seq<DisplayInfo>,
    ws: Seq<WindowHandle>,
)
    ensures
        apply_windows(l, d, displays, apply_windows(l, d, displays, ws)) == apply_windows(
            l,
            d,
            displays,
            ws,
        ),
{
    let w1 = apply_windows(l, d, displays, ws);
    let w2 = apply_windows(l, d, displays, w1);
    assert forall|j: int| 0 <= j < ws.len() implies w2[j] == w1[j] by {
        match l {
            Layout::Floating => {
                match floating_target(ws[j], d, displays) {
                    None => {
                        assert(w1[j] == ws[j]);
                    },
                    Some(p) => {
                        assert(w1[j].display_id == d.id);
                        assert(floating_target(w1[j], d, displays) is None);
                    },
                }
            },
            Layout::Cascade => {},
            Layout::TileHorizontal(o) => {},
        }
    }
    assert(w2 =~= w1);
}

/// The first display of the list with the given id, if any.
pub fn lookup_display(displays: &Vec<DisplayInfo>, id: u32) -> (r: Option<DisplayInfo>)
    ensures
        r == find_display(displays@, id),
{
    let mut i: usize = 0;
    proof {
        assert(displays@.skip(0) =~= displays@);
    }
    while i < displays.len()
        invariant
            i <= displays.len(),
            find_display(displays@, id) == find_display(displays@.skip(i as int), id),
        decreases displays.len() - i,
    {
        proof {
            assert(displays@.skip(i as int)[0] == displays@[i as int]);
            assert(displays@.skip(i as int).drop_first() =~= displays@.skip(i as int + 1));
        }
        if displays[i].id == id {
            return Some(displays[i]);
        }
        i += 1;
    }
    proof {
        assert(displays@.skip(i as int).len() == 0);
    }
    None
}

/// Where the floating policy would move one window, if anywhere.
fn floating_one(
    w: &WindowHandle,
    d: &DisplayInfo,
    displays: &Vec<DisplayInfo>,
) -> (r: Option<(i64, i64)>)
    requires
        w.frame.frame_wf(),
        d.bounds.display_bounds_wf(),
        forall|i: int|
            0 <= i < displays@.len() ==> (#[trigger] displays@[i]).bounds.display_bounds_wf(),
    ensures
        r == floating_target(*w, *d, displays@),
{
    if w.display_id == d.id {
        return None;
    }
    match lookup_display(displays, w.display_id) {
        None => None,
        Some(home) => {
            proof {
                lemma_find_display_in(displays@, w.display_id);
                let j = choose|j: int| 0 <= j < displays@.len() && displays@[j] == home;
                assert(displays@[j].bounds.display_bounds_wf());
            }
            let nx = w.frame.x - home.bounds.x + d.bounds.x;
            let ny = w.frame.y - home.bounds.y + d.bounds.y;
            if -MAX_FRAME_COORD <= nx && nx <= MAX_FRAME_COORD && -MAX_FRAME_COORD <= ny && ny
                <= MAX_FRAME_COORD {
                Some((nx, ny))
            } else {
                None
            }
        },
    }
}

impl Layout {
    /// Compute what this layout does to the given windows on display `d`:
    /// the windows with their new frames, and the commands that realise those
    /// frames, in the order the policy issues them.
    pub fn apply(
        &self,
        d: &DisplayInfo,
        displays: &Vec<DisplayInfo>,
        windows: &Vec<WindowHandle>,
    ) -> (r: (Vec<WindowHandle>, Vec<Command>))
        requires
            d.bounds.display_bounds_wf(),
            forall|i: int|
                0 <= i < displays@.len() ==> (#[trigger] displays@[i]).bounds.display_bounds_wf(),
            forall|j: int| 0 <= j < windows@.len() ==> (#[trigger] windows@[j]).frame.frame_wf(),
            windows@.len() <= MAX_WINDOWS,
            self.opts_wf(),
        ensures
            r.0@ == apply_windows(*self, *d, displays@, windows@),
            r.1@ == apply_cmds(*self, *d, displays@, windows@),
            r.0@.len() == windows@.len(),
            forall|j: int| 0 <= j < r.0@.len() ==> (#[trigger] r.0@[j]).frame.frame_wf(),
    {
        match self {
            Layout::Floating => self.apply_floating(d, displays, windows),
            Layout::Cascade => self.apply_cascade(d, windows),
            Layout::TileHorizontal(opts) => self.apply_tile_horizontal(d, windows, opts),
        }
    }

    fn apply_floating(
        &self,
        d: &DisplayInfo,
        displays: &Vec<DisplayInfo>,
        windows: &Vec<WindowHandle>,
    ) -> (r: (Vec<WindowHandle>, Vec<Command>))
        requires
            d.bounds.display_bounds_wf(),
            forall|i: int|
                0 <= i < displays@.len() ==> (#[trigger] displays@[i]).bounds.display_bounds_wf(),
            forall|j: int| 0 <= j < windows@.len() ==> (#[trigger] windows@[j]).frame.frame_wf(),
    ensures
            r.0@ == floating_windows(*d, displays@, windows@),
            r.1@ == floating_cmds(*d, displays@, windows@),
            r.0@.len() == windows@.len(),
            forall|j: int| 0 <= j < r.0@.len() ==> (#[trigger] r.0@[j]).frame.frame_wf(),
    {
        let ghost target = floating_windows(*d, displays@, windows@);
        let mut out: Vec<WindowHandle> = Vec::new();
        let mut j: usize = 0;
        while j < windows.len()
            invariant
                j <= windows.len(),
                out@.len() == j,
                forall|m: int| 0 <= m < j ==> out@[m] == target[m],
                forall|m: int| 0 <= m < j ==> (#[trigger] out@[m]).frame.frame_wf(),
                target == floating_windows(*d, displays@, windows@),
                d.bounds.display_bounds_wf(),
                forall|i: int|
                    0 <= i < displays@.len() ==> (
                    #[trigger] displays@[i]).bounds.display_bounds_wf(),
                forall|m: int|
                    0 <= m < windows@.len() ==> (#[trigger] windows@[m]).frame.frame_wf(),
            decreases windows.len() - j,
        {
            let w = windows[j];
            match floating_one(&w, d, displays) {
                None => out.push(w),
                Some(p) => out.push(
                    WindowHandle {
                        frame: Rect { x: p.0, y: p.1, w: w.frame.w, h: w.frame.h },
                        display_id: d.id,
                        ..w
                    },
                ),
            }
            j += 1;
        }
        let mut cmds: Vec<Command> = Vec::new();
        let mut jj: usize = windows.len();
        while jj > 0
            invariant
                jj <= windows.len(),
                cmds@ == floating_cmds_from(*d, displays@, windows@, jj as int),
                d.bounds.display_bounds_wf(),
                forall|i: int|
                    0 <= i < displays@.len() ==> (
                    #[trigger] displays@[i]).bounds.display_bounds_wf(),
                forall|m: int|
                    0 <= m < windows@.len() ==> (#[trigger] windows@[m]).frame.frame_wf(),
            decreases jj,
        {
            jj -= 1;
            let w = windows[jj];
            match floating_one(&w, d, displays) {
                None => {
                    proof {
                        assert(cmds@ =~= floating_cmds_from(*d, displays@, windows@, jj as int));
                    }
                },
                Some(p) => {
                    cmds.push(Command::SetPosition { window_id: w.id, x: p.0, y: p.1 });
                    proof {
                        assert(cmds@ =~= floating_cmds_from(*d, displays@, windows@, jj as int));
                    }
                },
            }
        }
        proof {
            assert(out@ =~= target);
        }
        (out, cmds)
    }

    fn apply_cascade(&self, d: &DisplayInfo, windows: &Vec<WindowHandle>) -> (r: (
        Vec<WindowHandle>,
        Vec<Command>,
    ))
        requires
            d.bounds.display_bounds_wf(),
            windows@.len() <= MAX_WINDOWS,
        ensures
            r.0@ == cascade_windows(*d, windows@),
            r.1@ == cascade_cmds(*d, windows@),
            r.0@.len() == windows@.len(),
            forall|j: int| 0 <= j < r.0@.len() ==> (#[trigger] r.0@[j]).frame.frame_wf(),
    {
        let n = windows.len();
        let ghost target = cascade_windows(*d, windows@);
        let ghost tcmds = cascade_cmds(*d, windows@);
        let mut out: Vec<WindowHandle> = Vec::new();
        let mut cmds: Vec<Command> = Vec::new();
        let mut j: usize = 0;
        while j < n
            invariant
                j <= n,
                n == windows@.len() <= MAX_WINDOWS,
                out@.len() == j,
                cmds@.len() == j,
                forall|m: int| 0 <= m < j ==> out@[m] == target[m],
                forall|m: int| 0 <= m < j ==> cmds@[m] == tcmds[m],
                forall|m: int| 0 <= m < j ==> (#[trigger] out@[m]).frame.frame_wf(),
                target == cascade_windows(*d, windows@),
                tcmds == cascade_cmds(*d, windows@),
                d.bounds.display_bounds_wf(),
            decreases n - j,
        {
            let w = windows[j];
            let i = (n - 1 - j) as i64;
            let fw = Rect {
                x: d.bounds.x + CASCADE_STEP * i,
                y: d.bounds.y + TOP_INSET + CASCADE_STEP * i,
                w: 2 * d.bounds.w / 3,
                h: 2 * d.bounds.h / 3,
            };
            proof {
                lemma_cascade_frame_wf(d.bounds, n as int, j as int);
                assert(fw == cascade_frame(d.bounds, n as int, j as int));
            }
            out.push(WindowHandle { frame: fw, display_id: d.id, ..w });
            let wb = windows[n - 1 - j];
            let fb = Rect {
                x: d.bounds.x + CASCADE_STEP * (j as i64),
                y: d.bounds.y + TOP_INSET + CASCADE_STEP * (j as i64),
                w: 2 * d.bounds.w / 3,
                h: 2 * d.bounds.h / 3,
            };
            proof {
                lemma_cascade_frame_wf(d.bounds, n as int, n as int - 1 - j as int);
                assert(fb == cascade_frame(d.bounds, n as int, n as int - 1 - j as int));
            }
            cmds.push(Command::SetFrame { window_id: wb.id, frame: fb });
            j += 1;
        }
        proof {
            assert(out@ =~= target);
            assert(cmds@ =~= tcmds);
        }
        (out, cmds)
    }

    fn apply_tile_horizontal(
        &self,
        d: &DisplayInfo,
        windows: &Vec<WindowHandle>,
        opts: &TileHorizontalOpts,
    ) -> (r: (Vec<WindowHandle>, Vec<Command>))
        requires
            d.bounds.display_bounds_wf(),
            windows@.len() <= MAX_WINDOWS,
            opts.max_num_left >= 1,
            opts.primary_column_pct <= 100,
        ensures
            r.0@ == tile_windows(*d, opts.max_num_left as int, opts.primary_column_pct as int, windows@),
            r.1@ == tile_cmds(*d, opts.max_num_left as int, opts.primary_column_pct as int, windows@),
            r.0@.len() == windows@.len(),
            forall|j: int| 0 <= j < r.0@.len() ==> (#[trigger] r.0@[j]).frame.frame_wf(),
    {
        let n = windows.len();
        let ghost k = opts.max_num_left as int;
        let ghost pct = opts.primary_column_pct as int;
        let ghost target = tile_windows(*d, k, pct, windows@);
        let ghost tcmds = tile_cmds(*d, k, pct, windows@);
        let nl: usize = if n <= opts.max_num_left as usize {
            n
        } else {
            opts.max_num_left as usize
        };
        let lw: i64 = if n > nl {
            proof {
                assert(0 <= d.bounds.w * (opts.primary_column_pct as i64) <= MAX_DISPLAY_COORD
                    * 100) by (nonlinear_arith)
                    requires
                        0 <= d.bounds.w <= MAX_DISPLAY_COORD && 0 <= opts.primary_column_pct
                            <= 100,
                ;
            }
            d.bounds.w * (opts.primary_column_pct as i64) / 100
        } else {
            d.bounds.w
        };
        proof {
            assert(0 <= d.bounds.w * (opts.primary_column_pct as int) / 100 <= d.bounds.w)
                by (nonlinear_arith)
                requires
                    0 <= d.bounds.w && 0 <= opts.primary_column_pct <= 100,
            ;
        }
        let mut out: Vec<WindowHandle> = Vec::new();
        let mut cmds: Vec<Command> = Vec::new();
        let mut j: usize = 0;
        while j < n
            invariant
                j <= n,
                n == windows@.len() <= MAX_WINDOWS,
                k == opts.max_num_left as int,
                pct == opts.primary_column_pct as int,
                1 <= k,
                0 <= pct <= 100,
                nl as int == tile_num_left(n as int, k),
                nl <= n,
                lw as int == tile_left_width(d.bounds, n as int, k, pct),
                0 <= lw <= MAX_DISPLAY_COORD,
                out@.len() == j,
                cmds@.len() == j,
                forall|m: int| 0 <= m < j ==> out@[m] == target[m],
                forall|m: int| 0 <= m < j ==> cmds@[m] == tcmds[m],
                forall|m: int| 0 <= m < j ==> (#[trigger] out@[m]).frame.frame_wf(),
                target == tile_windows(*d, k, pct, windows@),
                tcmds == tile_cmds(*d, k, pct, windows@),
                d.bounds.display_bounds_wf(),
            decreases n - j,
        {
            let w = windows[j];
            let fr: Rect;
            if j < nl {
                let lh = (d.bounds.h - TOP_INSET) / (nl as i64);
                proof {
                    lemma_tdiv_bounds(d.bounds.h - TOP_INSET, nl as int);
                    assert(lh as int == tdiv(d.bounds.h - TOP_INSET, nl as int));
                    assert(-(MAX_WINDOWS as int) * TOP_INSET <= (j as int) * (lh as int)
                        <= MAX_WINDOWS * MAX_DISPLAY_COORD) by (nonlinear_arith)
                        requires
                            0 <= j as int <= MAX_WINDOWS && -TOP_INSET <= lh as int
                                <= MAX_DISPLAY_COORD,
                    ;
                }
                fr = Rect {
                    x: d.bounds.x,
                    y: d.bounds.y + TOP_INSET + (j as i64) * lh,
                    w: lw,
                    h: lh,
                };
            } else {
                let nr = n - nl;
                proof {
                    assert(0 <= d.bounds.w * (100 - opts.primary_column_pct as i64)
                        <= MAX_DISPLAY_COORD * 100) by (nonlinear_arith)
                        requires
                            0 <= d.bounds.w <= MAX_DISPLAY_COORD && 0 <= opts.primary_column_pct
                                <= 100,
                    ;
                }
                let rw = d.bounds.w * (100 - opts.primary_column_pct as i64) / 100;
                let rh = (d.bounds.h - TOP_INSET) / (nr as i64);
                proof {
                    lemma_tdiv_bounds(d.bounds.h - TOP_INSET, nr as int);
                    assert(rh as int == tdiv(d.bounds.h - TOP_INSET, nr as int));
                    assert(-(MAX_WINDOWS as int) * TOP_INSET <= ((j - nl) as int) * (rh as int)
                        <= MAX_WINDOWS * MAX_DISPLAY_COORD) by (nonlinear_arith)
                        requires
                            0 <= (j - nl) as int <= MAX_WINDOWS && -TOP_INSET <= rh as int
                                <= MAX_DISPLAY_COORD,
                    ;
                }
                fr = Rect {
                    x: d.bounds.x + lw,
                    y: d.bounds.y + TOP_INSET + ((j - nl) as i64) * rh,
                    w: rw,
                    h: rh,
                };
            }
            proof {
                lemma_tile_frame_wf(d.bounds, n as int, k, pct, j as int);
                assert(fr == tile_frame(d.bounds, n as int, k, pct, j as int));
            }
            out.push(WindowHandle { frame: fr, display_id: d.id, ..w });
            cmds.push(Command::SetFrame { window_id: w.id, frame: fr });
            j += 1;
        }
        proof {
            assert(out@ =~= target);
            assert(cmds@ =~= tcmds);
        }
        (out, cmds)
    }
}

} // verus!
