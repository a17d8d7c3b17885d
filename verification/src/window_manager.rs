//! The window manager: displays in the order the system reports them, one
//! state per display, a pool of minimized windows, the current mode, and the
//! transient drag state.
//!
//! Every mutation is a pure step on the model plus a list of commands for the
//! platform layer; the step functions on [`WmModel`] say exactly what each
//! operation does.

use vstd::prelude::*;

use crate::action::Action;
use crate::command::{Command, DisplayInfo, ScanModel, WindowScan};
use crate::display_state::{
    first_frontmost_in_groups, lemma_display_refresh_wf, DisplayModel, DisplayState,
    GroupEntryModel,
};
use crate::drag_window::DragWindow;
use crate::geometry::Rect;
use crate::group::{opt_idx, GroupModel};
use crate::layout::{find_display, lookup_display, with_frame, Layout, MAX_WINDOWS};
use crate::mode::Mode;
use crate::window::WindowHandle;

verus! {

/// The top-level state.
#[derive(Debug)]
pub struct WindowManager {
    pub mode: Mode,
    /// Index into `display_info` of the active display, if any.
    pub active_display_idx: Option<usize>,
    /// The active displays with their bounds, in the system's order; this
    /// order defines "next display" and "previous display".
    pub display_info: Vec<DisplayInfo>,
    /// One state per display the manager has windows for.
    pub displays: Vec<DisplayState>,
    /// Minimized windows, a stack: the last minimized is restored first.
    pub minimized_windows: Vec<WindowHandle>,
    /// The window being dragged, if any.
    pub drag_window: Option<DragWindow>,
    /// Whether the selection highlight is on screen.
    pub highlight_visible: bool,
    /// Whether the status window is on screen.
    pub status_visible: bool,
}

/// The manager seen as mathematical values.
#[verifier::ext_equal]
pub ghost struct WmModel {
    pub mode: Mode,
    pub active_display_idx: Option<int>,
    pub display_info: Seq<DisplayInfo>,
    pub displays: Seq<DisplayModel>,
    pub minimized_windows: Seq<WindowHandle>,
    pub drag_window: Option<DragWindow>,
    pub highlight_visible: bool,
    pub status_visible: bool,
}

/// A sequence of display states seen as their models.
pub open spec fn display_views(ds: Seq<DisplayState>) -> Seq<DisplayModel> {
    Seq::new(ds.len(), |i: int| ds[i]@)
}

/// An optional window scan seen as its model.
pub open spec fn spec_scan(scan: Option<WindowScan>) -> Option<ScanModel> {
    match scan {
        Some(s) => Some(s@),
        None => None,
    }
}

impl View for WindowManager {
    type V = WmModel;

    open spec fn view(&self) -> WmModel {
        WmModel {
            mode: self.mode,
            active_display_idx: opt_idx(self.active_display_idx),
            display_info: self.display_info@,
            displays: display_views(self.displays@),
            minimized_windows: self.minimized_windows@,
            drag_window: self.drag_window,
            highlight_visible: self.highlight_visible,
            status_visible: self.status_visible,
        }
    }
}

/// The index of the first display state for display `id`, if any.
pub open spec fn find_display_state(displays: Seq<DisplayModel>, id: u32) -> Option<int>
    decreases displays.len(),
{
    if displays.len() == 0 {
        None
    } else if displays[0].display_id == id {
        Some(0int)
    } else {
        match find_display_state(displays.drop_first(), id) {
            Some(i) => Some(i + 1),
            None => None,
        }
    }
}

/// What `find_display_state` returns.
pub proof fn lemma_find_display_state_props(displays: Seq<DisplayModel>, id: u32)
    ensures
        match find_display_state(displays, id) {
            Some(i) => 0 <= i < displays.len() && displays[i].display_id == id && (forall|j: int|
                0 <= j < i ==> displays[j].display_id != id),
            None => forall|j: int| 0 <= j < displays.len() ==> displays[j].display_id != id,
        },
    decreases displays.len(),
{
    if displays.len() > 0 && displays[0].display_id != id {
        let ds = displays.drop_first();
        lemma_find_display_state_props(ds, id);
        match find_display_state(ds, id) {
            Some(i) => {
                assert(ds[i] == displays[i + 1]);
                assert forall|j: int| 0 <= j < i + 1 implies displays[j].display_id != id by {
                    if j > 0 {
                        assert(ds[j - 1] == displays[j]);
                    }
                }
            },
            None => {
                assert forall|j: int| 0 <= j < displays.len() implies displays[j].display_id
                    != id by {
                    if j > 0 {
                        assert(ds[j - 1] == displays[j]);
                    }
                }
            },
        }
    }
}

/// `find_display_state` finds exactly the first hit.
pub proof fn lemma_find_display_state_some(displays: Seq<DisplayModel>, id: u32, i: int)
    requires
        0 <= i < displays.len(),
        displays[i].display_id == id,
        forall|j: int| 0 <= j < i ==> displays[j].display_id != id,
    ensures
        find_display_state(displays, id) == Some(i),
    decreases i,
{
    if i > 0 {
        assert(displays[0].display_id != id);
        let ds = displays.drop_first();
        assert forall|j: int| 0 <= j < i - 1 implies (#[trigger] ds[j]).display_id != id by {
            assert(ds[j] == displays[j + 1]);
        }
        assert(ds[i - 1] == displays[i]);
        lemma_find_display_state_some(ds, id, i - 1);
    }
}

/// The position of display id `id` in the ordered display list, if present.
pub open spec fn find_display_pos(info: Seq<DisplayInfo>, id: u32) -> Option<int>
    decreases info.len(),
{
    if info.len() == 0 {
        None
    } else if info[0].id == id {
        Some(0int)
    } else {
        match find_display_pos(info.drop_first(), id) {
            Some(i) => Some(i + 1),
            None => None,
        }
    }
}

/// What `find_display_pos` returns.
pub proof fn lemma_find_display_pos_props(info: Seq<DisplayInfo>, id: u32)
    ensures
        match find_display_pos(info, id) {
            Some(i) => 0 <= i < info.len() && info[i].id == id && (forall|j: int|
                0 <= j < i ==> info[j].id != id),
            None => forall|j: int| 0 <= j < info.len() ==> info[j].id != id,
        },
    decreases info.len(),
{
    if info.len() > 0 && info[0].id != id {
        let ds = info.drop_first();
        lemma_find_display_pos_props(ds, id);
        match find_display_pos(ds, id) {
            Some(i) => {
                assert(ds[i] == info[i + 1]);
                assert forall|j: int| 0 <= j < i + 1 implies info[j].id != id by {
                    if j > 0 {
                        assert(ds[j - 1] == info[j]);
                    }
                }
            },
            None => {
                assert forall|j: int| 0 <= j < info.len() implies info[j].id != id by {
                    if j > 0 {
                        assert(ds[j - 1] == info[j]);
                    }
                }
            },
        }
    }
}

/// `find_display_pos` finds exactly the first hit.
pub proof fn lemma_find_display_pos_some(info: Seq<DisplayInfo>, id: u32, i: int)
    requires
        0 <= i < info.len(),
        info[i].id == id,
        forall|j: int| 0 <= j < i ==> info[j].id != id,
    ensures
        find_display_pos(info, id) == Some(i),
    decreases i,
{
    if i > 0 {
        assert(info[0].id != id);
        let ds = info.drop_first();
        assert forall|j: int| 0 <= j < i - 1 implies (#[trigger] ds[j]).id != id by {
            assert(ds[j] == info[j + 1]);
        }
        assert(ds[i - 1] == info[i]);
        lemma_find_display_pos_some(ds, id, i - 1);
    }
}

impl WmModel {
    /// The manager invariant: display bounds in range and ids distinct, every
    /// display state well-formed with distinct ids, the active-display index
    /// in bounds, and minimized frames representable.
    pub open spec fn wf(self) -> bool {
        &&& forall|i: int|
            0 <= i < self.display_info.len() ==> (
            #[trigger] self.display_info[i]).bounds.display_bounds_wf()
        &&& forall|i: int, j: int|
            0 <= i < j < self.display_info.len() ==> self.display_info[i].id
                != self.display_info[j].id
        &&& forall|i: int| 0 <= i < self.displays.len() ==> (#[trigger] self.displays[i]).wf()
        &&& forall|i: int, j: int|
            0 <= i < j < self.displays.len() ==> self.displays[i].display_id
                != self.displays[j].display_id
        &&& match self.active_display_idx {
            Some(i) => 0 <= i < self.display_info.len(),
            None => true,
        }
        &&& forall|i: int|
            0 <= i < self.minimized_windows.len() ==> (
            #[trigger] self.minimized_windows[i]).frame.frame_wf()
    }

    /// The index (into `displays`) of the active display's state, if it
    /// exists.
    pub open spec fn active_display(self) -> Option<int> {
        match self.active_display_idx {
            Some(i) => if 0 <= i < self.display_info.len() {
                find_display_state(self.displays, self.display_info[i].id)
            } else {
                None
            },
            None => None,
        }
    }

    /// The selected window of the active display's shown group, if any.
    pub open spec fn active_window(self) -> Option<WindowHandle> {
        match self.active_display() {
            Some(i) => self.displays[i].active_window(),
            None => None,
        }
    }

    /// The layout of the active display's shown group, if any.
    pub open spec fn layout(self) -> Option<Layout> {
        match self.active_display() {
            Some(i) => match self.displays[i].active_group_model() {
                Some(g) => Some(g.layout),
                None => None,
            },
            None => None,
        }
    }

    /// The manager with the display state at `i` replaced.
    pub open spec fn with_display_at(self, i: int, d: DisplayModel) -> WmModel {
        WmModel { displays: self.displays.update(i, d), ..self }
    }

    /// The cyclic successor of the active display in the ordered list;
    /// selects the first display when none is active.
    pub open spec fn next_display_idx(self) -> Option<int> {
        let n = self.display_info.len();
        match self.active_display_idx {
            Some(i) => if i >= n - 1 {
                Some(0int)
            } else {
                Some(i + 1)
            },
            None => if n > 0 {
                Some(0int)
            } else {
                None
            },
        }
    }

    /// The cyclic predecessor of the active display in the ordered list.
    pub open spec fn prev_display_idx(self) -> Option<int> {
        let n = self.display_info.len();
        match self.active_display_idx {
            Some(i) => if i == 0 {
                Some(n - 1)
            } else {
                Some(i - 1)
            },
            None => if n > 0 {
                Some(0int)
            } else {
                None
            },
        }
    }

    /// Whether some tracked group holds a window with the same identity as
    /// `w`. The minimized pool is not consulted.
    pub open spec fn window_exists(self, w: WindowHandle) -> bool {
        exists|di: int, gi: int, wi: int|
            0 <= di < self.displays.len() && 0 <= gi < self.displays[di].groups.len() && 0 <= wi
                < self.displays[di].groups[gi].group.windows.len()
                && self.displays[di].groups[gi].group.windows[wi].same_ident(w)
    }

    /// A window inserted into the group shown on display `display_id`, or
    /// into a fresh display state if the display is unknown.
    pub open spec fn step_insert_open_window(self, w: WindowHandle, display_id: u32) -> WmModel {
        match find_display_state(self.displays, display_id) {
            Some(di) => self.with_display_at(di, self.displays[di].step_insert_open(w)),
            None => WmModel {
                displays: self.displays.push(DisplayModel::initial(display_id, w)),
                ..self
            },
        }
    }
}

/// Replacing one display state by a well-formed one with the same id keeps
/// the manager well-formed.
pub proof fn lemma_with_display_at_wf(m: WmModel, i: int, d: DisplayModel)
    requires
        m.wf(),
        0 <= i < m.displays.len(),
        d.wf(),
        d.display_id == m.displays[i].display_id,
    ensures
        m.with_display_at(i, d).wf(),
{
    let r = m.with_display_at(i, d);
    assert forall|x: int| 0 <= x < r.displays.len() implies (#[trigger] r.displays[x]).wf() by {
        if x != i {
            assert(r.displays[x] == m.displays[x]);
        }
    }
    assert forall|a: int, b: int| 0 <= a < b < r.displays.len() implies r.displays[a].display_id
        != r.displays[b].display_id by {
        assert(r.displays[a].display_id == m.displays[a].display_id);
        assert(r.displays[b].display_id == m.displays[b].display_id);
    }
}

/// Adding a well-formed display state with a fresh id keeps the manager
/// well-formed.
pub proof fn lemma_push_display_wf(m: WmModel, d: DisplayModel)
    requires
        m.wf(),
        d.wf(),
        forall|i: int| 0 <= i < m.displays.len() ==> m.displays[i].display_id != d.display_id,
    ensures
        (WmModel { displays: m.displays.push(d), ..m }).wf(),
{
    let r = WmModel { displays: m.displays.push(d), ..m };
    assert forall|x: int| 0 <= x < r.displays.len() implies (#[trigger] r.displays[x]).wf() by {
        if x < m.displays.len() {
            assert(r.displays[x] == m.displays[x]);
        } else {
            assert(r.displays[x] == d);
        }
    }
    assert forall|a: int, b: int| 0 <= a < b < r.displays.len() implies r.displays[a].display_id
        != r.displays[b].display_id by {
        assert(r.displays[a] == m.displays[a]);
        if b < m.displays.len() {
            assert(r.displays[b] == m.displays[b]);
        } else {
            assert(r.displays[b] == d);
        }
    }
}

/// `GroupModel::initial` is well-formed for a representable frame.
pub proof fn lemma_display_initial_wf(display_id: u32, w: WindowHandle)
    requires
        w.frame.frame_wf(),
    ensures
        DisplayModel::initial(display_id, w).wf(),
{
    let d = DisplayModel::initial(display_id, w);
    assert(d.groups[0].group.wf());
}

// ---------------------------------------------------------------------------
// Refreshing the whole manager from a window scan
// ---------------------------------------------------------------------------

/// The display states whose displays the system still enumerates, in order,
/// each refreshed from the scan; the others are dropped.
pub open spec fn retain_refresh_displays(
    displays: Seq<DisplayModel>,
    info: Seq<DisplayInfo>,
    open: Seq<WindowHandle>,
) -> Seq<DisplayModel>
    decreases displays.len(),
{
    if displays.len() == 0 {
        Seq::empty()
    } else {
        let rest = retain_refresh_displays(displays.drop_first(), info, open);
        if find_display_pos(info, displays[0].display_id) is Some {
            seq![displays[0].step_refresh(open)] + rest
        } else {
            rest
        }
    }
}

/// Retaining and refreshing keeps every display well-formed, keeps the ids
/// pairwise distinct, and introduces no id that was not already present.
pub proof fn lemma_retain_refresh_wf(
    displays: Seq<DisplayModel>,
    info: Seq<DisplayInfo>,
    open: Seq<WindowHandle>,
)
    requires
        forall|i: int| 0 <= i < displays.len() ==> (#[trigger] displays[i]).wf(),
        forall|i: int, j: int|
            0 <= i < j < displays.len() ==> displays[i].display_id != displays[j].display_id,
        forall|i: int| 0 <= i < open.len() ==> (#[trigger] open[i]).frame.frame_wf(),
    ensures
        forall|k: int|
            0 <= k < retain_refresh_displays(displays, info, open).len() ==> (
            #[trigger] retain_refresh_displays(displays, info, open)[k]).wf(),
        forall|a: int, b: int|
            0 <= a < b < retain_refresh_displays(displays, info, open).len()
                ==> retain_refresh_displays(displays, info, open)[a].display_id
                != retain_refresh_displays(displays, info, open)[b].display_id,
        forall|k: int|
            0 <= k < retain_refresh_displays(displays, info, open).len() ==> exists|j: int|
                0 <= j < displays.len() && #[trigger] retain_refresh_displays(
                    displays,
                    info,
                    open,
                )[k] == displays[j].step_refresh(open),
    decreases displays.len(),
{
    if displays.len() > 0 {
        let tail = displays.drop_first();
        assert forall|i: int| 0 <= i < tail.len() implies (#[trigger] tail[i]).wf() by {
            assert(tail[i] == displays[i + 1]);
        }
        assert forall|i: int, j: int| 0 <= i < j < tail.len() implies tail[i].display_id
            != tail[j].display_id by {
            assert(tail[i] == displays[i + 1]);
            assert(tail[j] == displays[j + 1]);
        }
        lemma_retain_refresh_wf(tail, info, open);
        let rest = retain_refresh_displays(tail, info, open);
        let out = retain_refresh_displays(displays, info, open);
        assert forall|k: int| 0 <= k < rest.len() implies exists|j: int|
            0 <= j < displays.len() && #[trigger] rest[k] == displays[j].step_refresh(open) by {
            let j0 = choose|j0: int|
                0 <= j0 < tail.len() && #[trigger] rest[k] == tail[j0].step_refresh(open);
            assert(rest[k] == displays[j0 + 1].step_refresh(open));
        }
        if find_display_pos(info, displays[0].display_id) is Some {
            lemma_display_refresh_wf(displays[0], open);
            assert(out[0] == displays[0].step_refresh(open));
            assert forall|k: int| 0 <= k < out.len() implies (#[trigger] out[k]).wf() by {
                if k > 0 {
                    assert(out[k] == rest[k - 1]);
                }
            }
            assert forall|a: int, b: int| 0 <= a < b < out.len() implies out[a].display_id
                != out[b].display_id by {
                assert(out[b] == rest[b - 1]);
                if a > 0 {
                    assert(out[a] == rest[a - 1]);
                } else {
                    let j0 = choose|j0: int|
                        0 <= j0 < tail.len() && #[trigger] rest[b - 1] == tail[j0].step_refresh(
                            open,
                        );
                    assert(tail[j0] == displays[j0 + 1]);
                    assert(out[b].display_id == displays[j0 + 1].display_id);
                    assert(out[0].display_id == displays[0].display_id);
                }
            }
            assert forall|k: int| 0 <= k < out.len() implies exists|j: int|
                0 <= j < displays.len() && #[trigger] out[k] == displays[j].step_refresh(
                    open,
                ) by {
                if k == 0 {
                    assert(out[0] == displays[0].step_refresh(open));
                } else {
                    assert(out[k] == rest[k - 1]);
                    let j0 = choose|j0: int|
                        0 <= j0 < displays.len() && #[trigger] rest[k - 1] == displays[j0].step_refresh(
                            open,
                        );
                    assert(out[k] == displays[j0].step_refresh(open));
                }
            }
        }
    }
}

/// Every open scan window in order, handed to `step_insert_open_window`
/// unless it belongs to the manager itself or is already tracked.
pub open spec fn insert_all(m: WmModel, open: Seq<WindowHandle>, own_pid: i64, i: int) -> WmModel
    decreases open.len() - i,
{
    if i < 0 || i >= open.len() {
        m
    } else {
        let m1 = if open[i].pid != own_pid && !m.window_exists(open[i]) {
            m.step_insert_open_window(open[i], open[i].display_id)
        } else {
            m
        };
        insert_all(m1, open, own_pid, i + 1)
    }
}

/// The first (display, group, window) triple reported frontmost and main,
/// searching displays in order.
pub open spec fn first_frontmost_displays(displays: Seq<DisplayModel>) -> Option<(int, int, int)>
    decreases displays.len(),
{
    if displays.len() == 0 {
        None
    } else {
        match first_frontmost_in_groups(displays[0].groups) {
            Some(p) => Some((0int, p.0, p.1)),
            None => match first_frontmost_displays(displays.drop_first()) {
                Some(t) => Some((t.0 + 1, t.1, t.2)),
                None => None,
            },
        }
    }
}

/// What `first_frontmost_displays` returns.
pub proof fn lemma_first_frontmost_displays_props(displays: Seq<DisplayModel>)
    ensures
        match first_frontmost_displays(displays) {
            Some(t) => 0 <= t.0 < displays.len() && first_frontmost_in_groups(
                displays[t.0].groups,
            ) == Some((t.1, t.2)) && (forall|j: int|
                0 <= j < t.0 ==> first_frontmost_in_groups(
                    (#[trigger] displays[j]).groups,
                ) is None),
            None => forall|j: int|
                0 <= j < displays.len() ==> first_frontmost_in_groups(
                    (#[trigger] displays[j]).groups,
                ) is None,
        },
    decreases displays.len(),
{
    if displays.len() > 0 && first_frontmost_in_groups(displays[0].groups) is None {
        let rest = displays.drop_first();
        lemma_first_frontmost_displays_props(rest);
        match first_frontmost_displays(rest) {
            Some(t) => {
                assert(rest[t.0] == displays[t.0 + 1]);
                assert forall|j: int| 0 <= j < t.0 + 1 implies first_frontmost_in_groups(
                    (#[trigger] displays[j]).groups,
                ) is None by {
                    if j > 0 {
                        assert(rest[j - 1] == displays[j]);
                    }
                }
            },
            None => {
                assert forall|j: int| 0 <= j < displays.len() implies first_frontmost_in_groups(
                    (#[trigger] displays[j]).groups,
                ) is None by {
                    if j > 0 {
                        assert(rest[j - 1] == displays[j]);
                    }
                }
            },
        }
    }
}

/// `first_frontmost_displays` finds exactly the first hit.
pub proof fn lemma_first_frontmost_displays_some(
    displays: Seq<DisplayModel>,
    di: int,
    gi: int,
    wi: int,
)
    requires
        0 <= di < displays.len(),
        first_frontmost_in_groups(displays[di].groups) == Some((gi, wi)),
        forall|j: int|
            0 <= j < di ==> first_frontmost_in_groups((#[trigger] displays[j]).groups) is None,
    ensures
        first_frontmost_displays(displays) == Some((di, gi, wi)),
    decreases di,
{
    if di > 0 {
        assert(first_frontmost_in_groups(displays[0].groups) is None);
        let rest = displays.drop_first();
        assert forall|j: int| 0 <= j < di - 1 implies first_frontmost_in_groups(
            (#[trigger] rest[j]).groups,
        ) is None by {
            assert(rest[j] == displays[j + 1]);
        }
        assert(rest[di - 1] == displays[di]);
        lemma_first_frontmost_displays_some(rest, di - 1, gi, wi);
    }
}

impl WmModel {
    /// The selection re-derived from reality: the first window reported
    /// frontmost and main becomes active, together with its group and
    /// display; with no such window there is no active display.
    pub open spec fn step_refresh_active(self) -> WmModel {
        match first_frontmost_displays(self.displays) {
            Some(t) => {
                let d = self.displays[t.0];
                let d2 = DisplayModel {
                    active_group: Some(d.groups[t.1].id),
                    groups: d.groups.update(
                        t.1,
                        GroupEntryModel {
                            id: d.groups[t.1].id,
                            group: d.groups[t.1].group.with_active(Some(t.2)),
                        },
                    ),
                    ..d
                };
                WmModel {
                    displays: self.displays.update(t.0, d2),
                    active_display_idx: find_display_pos(self.display_info, d.display_id),
                    ..self
                }
            },
            None => WmModel { active_display_idx: None, ..self },
        }
    }

    /// A full refresh from a window scan: displays re-enumerated, stale
    /// display states dropped and kept ones refreshed, the minimized pool
    /// replaced, unknown open windows inserted on their displays, and the
    /// selection re-derived.
    pub open spec fn step_refresh(self, scan: ScanModel) -> WmModel {
        let m1 = WmModel {
            active_display_idx: None,
            display_info: scan.displays,
            displays: retain_refresh_displays(self.displays, scan.displays, scan.open_windows),
            minimized_windows: scan.minimized_windows,
            ..self
        };
        insert_all(m1, scan.open_windows, scan.own_pid, 0).step_refresh_active()
    }

    /// An operation on the active display's state, lifted to the manager.
    pub open spec fn step_on_active_display(self, d: DisplayModel) -> WmModel {
        match self.active_display() {
            Some(i) => self.with_display_at(i, d),
            None => self,
        }
    }

    /// The shown group's selection moved to its successor.
    pub open spec fn step_set_next_window_active(self) -> WmModel {
        match self.active_display() {
            Some(i) => self.with_display_at(i, self.displays[i].step_set_next_window_active()),
            None => self,
        }
    }

    /// The shown group's selection moved to its predecessor.
    pub open spec fn step_set_prev_window_active(self) -> WmModel {
        match self.active_display() {
            Some(i) => self.with_display_at(i, self.displays[i].step_set_prev_window_active()),
            None => self,
        }
    }

    /// The selected window swapped with its successor.
    pub open spec fn step_swap_next(self) -> WmModel {
        match self.active_display() {
            Some(i) => self.with_display_at(i, self.displays[i].step_swap_next()),
            None => self,
        }
    }

    /// The selected window swapped with its predecessor.
    pub open spec fn step_swap_prev(self) -> WmModel {
        match self.active_display() {
            Some(i) => self.with_display_at(i, self.displays[i].step_swap_prev()),
            None => self,
        }
    }

    /// The selected window popped out of its group.
    pub open spec fn step_pop_active(self) -> (WmModel, Option<WindowHandle>) {
        match self.active_display() {
            Some(i) => {
                let (d, w) = self.displays[i].step_pop();
                (self.with_display_at(i, d), w)
            },
            None => (self, None),
        }
    }

    /// The selected window moved to group `g_id` of its display.
    pub open spec fn step_move_active_to_group(self, g_id: u8) -> WmModel {
        match self.active_display() {
            Some(i) => self.with_display_at(i, self.displays[i].step_move_active_to_group(g_id)),
            None => self,
        }
    }

    /// The selected window toggled in group `g_id` of its display, under the
    /// no-orphan rule.
    pub open spec fn step_toggle_active_in_group(self, g_id: u8) -> WmModel {
        match self.active_display() {
            Some(i) => self.with_display_at(
                i,
                self.displays[i].step_toggle_active_in_group(g_id),
            ),
            None => self,
        }
    }

    /// Group `g_id` shown on the active display.
    pub open spec fn step_set_active_display_group(self, g_id: u8) -> WmModel {
        match self.active_display() {
            Some(i) => self.with_display_at(
                i,
                DisplayModel { active_group: Some(g_id), ..self.displays[i] },
            ),
            None => self,
        }
    }

    /// The shown group given a layout.
    pub open spec fn step_set_layout(self, l: Layout) -> WmModel {
        match self.active_display() {
            Some(i) => self.with_display_at(i, self.displays[i].step_set_layout(l)),
            None => self,
        }
    }

    /// The shown group switched to its tiling layout.
    pub open spec fn step_set_layout_tile(self) -> WmModel {
        match self.active_display() {
            Some(i) => self.with_display_at(i, self.displays[i].step_set_layout_tile()),
            None => self,
        }
    }

    /// The shown group's primary column allowed one more window.
    pub open spec fn step_incr_pcmw(self) -> WmModel {
        match self.active_display() {
            Some(i) => self.with_display_at(i, self.displays[i].step_group_incr_pcmw()),
            None => self,
        }
    }

    /// The shown group's primary column allowed one window fewer.
    pub open spec fn step_decr_pcmw(self) -> WmModel {
        match self.active_display() {
            Some(i) => self.with_display_at(i, self.displays[i].step_group_decr_pcmw()),
            None => self,
        }
    }

    /// The shown group's primary column widened.
    pub open spec fn step_incr_pct(self) -> WmModel {
        match self.active_display() {
            Some(i) => self.with_display_at(i, self.displays[i].step_group_incr_pct()),
            None => self,
        }
    }

    /// The shown group's primary column narrowed.
    pub open spec fn step_decr_pct(self) -> WmModel {
        match self.active_display() {
            Some(i) => self.with_display_at(i, self.displays[i].step_group_decr_pct()),
            None => self,
        }
    }

    /// The active display's shown group laid out afresh.
    pub open spec fn step_relayout(self) -> (WmModel, Seq<Command>) {
        match self.active_display() {
            Some(i) => {
                let (d, cmds) = self.displays[i].step_relayout(self.display_info);
                (self.with_display_at(i, d), cmds)
            },
            None => (self, Seq::empty()),
        }
    }

    /// Every display's shown group laid out afresh, in display order.
    pub open spec fn step_relayout_all_from(self, i: int) -> (WmModel, Seq<Command>)
        decreases self.displays.len() - i,
    {
        if i < 0 || i >= self.displays.len() {
            (self, Seq::empty())
        } else {
            let (d, c) = self.displays[i].step_relayout(self.display_info);
            let m2 = self.with_display_at(i, d);
            let (m3, rest) = m2.step_relayout_all_from(i + 1);
            (m3, c + rest)
        }
    }

    /// The selected window closed: removed from its group, with a close
    /// request for the platform layer.
    pub open spec fn step_close_active(self) -> (WmModel, Seq<Command>) {
        let (m, wopt) = self.step_pop_active();
        match wopt {
            Some(w) => (m, seq![Command::Close { window_id: w.id }]),
            None => (m, Seq::empty()),
        }
    }

    /// The selected window minimized: popped from its group, pushed onto the
    /// minimized stack, with a minimize request.
    pub open spec fn step_minimize_active(self) -> (WmModel, Seq<Command>) {
        let (m, wopt) = self.step_pop_active();
        match wopt {
            Some(w) => (
                WmModel { minimized_windows: m.minimized_windows.push(w), ..m },
                seq![Command::SetMinimized { window_id: w.id, minimized: true }],
            ),
            None => (m, Seq::empty()),
        }
    }

    /// The most recently minimized window restored: popped from the stack
    /// and inserted into the group shown on the display it reports.
    pub open spec fn step_unminimize(self) -> (WmModel, Seq<Command>) {
        if self.minimized_windows.len() > 0 {
            let w = self.minimized_windows.last();
            let m1 = WmModel { minimized_windows: self.minimized_windows.drop_last(), ..self };
            (
                m1.step_insert_open_window(w, w.display_id),
                seq![Command::SetMinimized { window_id: w.id, minimized: false }],
            )
        } else {
            (self, Seq::empty())
        }
    }

    /// The selected window moved to the display at position `di` of the
    /// ordered list, landing in that display's shown group.
    pub open spec fn step_move_active_to_display_idx(self, di: int) -> WmModel {
        if di < 0 || di >= self.display_info.len() {
            self
        } else {
            let (m, wopt) = self.step_pop_active();
            match wopt {
                Some(w) => m.step_insert_open_window(w, self.display_info[di].id),
                None => m,
            }
        }
    }

    /// The id of the group after the shown one, cyclically, in this
    /// display's group list.
    pub open spec fn next_group_id(d: DisplayModel) -> Option<u8> {
        if d.groups.len() == 0 {
            None
        } else {
            match d.active_group_idx() {
                Some(i) => if i + 1 < d.groups.len() {
                    Some(d.groups[i + 1].id)
                } else {
                    Some(d.groups[0].id)
                },
                None => Some(d.groups[0].id),
            }
        }
    }

    /// The id of the group before the shown one, cyclically.
    pub open spec fn prev_group_id(d: DisplayModel) -> Option<u8> {
        if d.groups.len() == 0 {
            None
        } else {
            match d.active_group_idx() {
                Some(i) => if i == 0 {
                    Some(d.groups[d.groups.len() - 1].id)
                } else {
                    Some(d.groups[i - 1].id)
                },
                None => Some(d.groups[0].id),
            }
        }
    }

    /// The id of the group shown after a cyclic "next group" motion.
    pub open spec fn next_group_target(self) -> Option<u8> {
        match self.active_display() {
            Some(i) => Self::next_group_id(self.displays[i]),
            None => None,
        }
    }

    /// The id of the group shown after a cyclic "previous group" motion.
    pub open spec fn prev_group_target(self) -> Option<u8> {
        match self.active_display() {
            Some(i) => Self::prev_group_id(self.displays[i]),
            None => None,
        }
    }

    /// The selected window moved to the cyclic successor display.
    pub open spec fn step_move_active_next_display(self) -> WmModel {
        match self.next_display_idx() {
            Some(di) => self.step_move_active_to_display_idx(di),
            None => self,
        }
    }

    /// The selected window moved to the cyclic predecessor display.
    pub open spec fn step_move_active_prev_display(self) -> WmModel {
        match self.prev_display_idx() {
            Some(di) => self.step_move_active_to_display_idx(di),
            None => self,
        }
    }

    /// The command that activates the selected window, if there is one.
    pub open spec fn activate_cmds(self) -> Seq<Command> {
        match self.active_window() {
            Some(w) => seq![Command::Activate { window_id: w.id }],
            None => Seq::empty(),
        }
    }

    /// The commands that bring every window of the active display's shown
    /// group to the front.
    pub open spec fn front_cmds(self) -> Seq<Command> {
        match self.active_display() {
            Some(i) => self.displays[i].front_cmds(),
            None => Seq::empty(),
        }
    }

    /// The window stored at position `(di, gi, wi)`.
    pub open spec fn window_at(self, di: int, gi: int, wi: int) -> WindowHandle {
        self.displays[di].groups[gi].group.windows[wi]
    }

    /// Whether `(di, gi, wi)` names a stored window.
    pub open spec fn valid_pos(self, di: int, gi: int, wi: int) -> bool {
        &&& 0 <= di < self.displays.len()
        &&& 0 <= gi < self.displays[di].groups.len()
        &&& 0 <= wi < self.displays[di].groups[gi].group.windows.len()
    }

    /// No-duplicate ownership: each window identity appears in at most one
    /// place — at most once among all groups of all displays, never both in
    /// a group and in the minimized pool, and at most once in the pool.
    pub open spec fn distinct_ownership(self) -> bool {
        &&& forall|d1: int, g1: int, w1: int, d2: int, g2: int, w2: int|
            self.valid_pos(d1, g1, w1) && self.valid_pos(d2, g2, w2) && !(d1 == d2 && g1 == g2
                && w1 == w2) ==> !(#[trigger] self.window_at(d1, g1, w1)).same_ident(
                #[trigger] self.window_at(d2, g2, w2),
            )
        &&& forall|d1: int, g1: int, w1: int, k: int|
            self.valid_pos(d1, g1, w1) && 0 <= k < self.minimized_windows.len() ==> !(
            #[trigger] self.window_at(d1, g1, w1)).same_ident(
                #[trigger] self.minimized_windows[k],
            )
        &&& forall|k1: int, k2: int|
            0 <= k1 < k2 < self.minimized_windows.len() ==> !self.minimized_windows[k1].same_ident(
                self.minimized_windows[k2],
            )
    }

    /// The selection highlight shown (or moved) around the selected window,
    /// and the status window brought back to the front if it is open. With
    /// no selected window the highlight is left as it is.
    pub open spec fn step_show_highlight(self) -> (WmModel, Seq<Command>) {
        let base = match self.active_window() {
            Some(w) => (
                WmModel { highlight_visible: true, ..self },
                seq![Command::ShowHighlight { frame: w.frame }],
            ),
            None => (self, Seq::<Command>::empty()),
        };
        (
            base.0,
            base.1 + if self.status_visible {
                seq![Command::BringStatusFront]
            } else {
                Seq::<Command>::empty()
            },
        )
    }

    /// The selection highlight hidden.
    pub open spec fn step_hide_highlight(self) -> (WmModel, Seq<Command>) {
        if self.highlight_visible {
            (WmModel { highlight_visible: false, ..self }, seq![Command::HideHighlight])
        } else {
            (self, Seq::<Command>::empty())
        }
    }

    /// The status window (re)opened: a stale one is closed first.
    pub open spec fn step_open_status(self) -> (WmModel, Seq<Command>) {
        (
            WmModel { status_visible: true, ..self },
            (if self.status_visible {
                seq![Command::CloseStatus]
            } else {
                Seq::<Command>::empty()
            }) + seq![Command::OpenStatus],
        )
    }

    /// The status window closed.
    pub open spec fn step_close_status(self) -> (WmModel, Seq<Command>) {
        if self.status_visible {
            (WmModel { status_visible: false, ..self }, seq![Command::CloseStatus])
        } else {
            (self, Seq::<Command>::empty())
        }
    }

    /// A refresh from the scan, or nothing when no scan was gathered.
    pub open spec fn step_refresh_opt(self, scan: Option<ScanModel>) -> WmModel {
        match scan {
            Some(s) => self.step_refresh(s),
            None => self,
        }
    }

    /// What reaching Normal-mode behaviour from `Insert` does first: a full
    /// refresh (when a scan is at hand) and the status window. In any other
    /// mode, nothing.
    pub open spec fn step_maybe_enter_normal(self, scan: Option<ScanModel>) -> (
        WmModel,
        Seq<Command>,
    ) {
        if self.mode == Mode::Insert {
            self.step_refresh_opt(scan).step_open_status()
        } else {
            (self, Seq::<Command>::empty())
        }
    }

    /// Showing group `g`: reach Normal-mode behaviour if needed, show the
    /// group, bring it to the front, activate and re-lay it out, and show
    /// the highlight.
    pub open spec fn step_show_group(self, g: u8, scan: Option<ScanModel>) -> (
        WmModel,
        Seq<Command>,
    ) {
        let (m1, c1) = self.step_maybe_enter_normal(scan);
        let m2 = m1.step_set_active_display_group(g);
        let cf = m2.front_cmds();
        let ca = m2.activate_cmds();
        let (m3, c3) = m2.step_relayout();
        let (m4, c4) = m3.step_show_highlight();
        (m4, c1 + cf + ca + c3 + c4)
    }

    /// Moving the selected window to group `g`, optionally following it.
    pub open spec fn step_move_window_to_group(self, g: u8, follow: bool) -> (
        WmModel,
        Seq<Command>,
    ) {
        let m1 = self.step_move_active_to_group(g);
        let m2 = if follow {
            m1.step_set_active_display_group(g)
        } else {
            m1
        };
        let ca = m2.activate_cmds();
        let (m3, c3) = m2.step_relayout();
        let (m4, c4) = m3.step_show_highlight();
        (m4, ca + c3 + c4)
    }

    /// What one action does: the next state and the commands for the
    /// platform layer, in the order they are to be performed. `scan` is the
    /// window scan the platform layer gathered for the actions that refresh;
    /// without one the refresh is skipped and the rest still runs.
    pub open spec fn step_do_action(self, a: Action, scan: Option<ScanModel>) -> (
        WmModel,
        Seq<Command>,
    ) {
        match a {
            Action::RelayoutAll => {
                let m1 = self.step_refresh_opt(scan);
                let (m2, c2) = m1.step_relayout_all_from(0);
                let (m3, c3) = m2.step_show_highlight();
                (m3, c2 + c3)
            },
            Action::ModeNormal => {
                let m1 = WmModel { mode: Mode::Normal, ..self }.step_refresh_opt(scan);
                let (m2, c2) = m1.step_open_status();
                let (m3, c3) = m2.step_show_highlight();
                (m3, c2 + c3)
            },
            Action::ModeInsert => {
                let m1 = WmModel { mode: Mode::Insert, ..self };
                let (m2, c2) = m1.step_hide_highlight();
                let (m3, c3) = m2.step_close_status();
                (m3, c2 + c3)
            },
            Action::ModeInsertNormal => {
                let m1 = WmModel { mode: Mode::InsertNormal, ..self }.step_refresh_opt(scan);
                let (m2, c2) = m1.step_open_status();
                let (m3, c3) = m2.step_show_highlight();
                (m3, c2 + c3)
            },
            Action::LayoutFloating => {
                let m1 = self.step_set_layout(Layout::Floating);
                let (m2, c2) = m1.step_relayout();
                let (m3, c3) = m2.step_show_highlight();
                (m3, c2 + c3)
            },
            Action::LayoutCascade => {
                let m1 = self.step_set_layout(Layout::Cascade);
                let (m2, c2) = m1.step_relayout();
                let (m3, c3) = m2.step_show_highlight();
                (m3, c2 + c3)
            },
            Action::LayoutTiling => {
                let m1 = self.step_set_layout_tile();
                let (m2, c2) = m1.step_relayout();
                let (m3, c3) = m2.step_show_highlight();
                (m3, c2 + c3)
            },
            Action::WindowFull => {
                let (m1, c1) = self.step_set_active_window_full();
                let (m2, c2) = m1.step_show_highlight();
                (m2, c1 + c2)
            },
            Action::WindowLeftHalf => {
                let (m1, c1) = self.step_set_active_window_left();
                let (m2, c2) = m1.step_show_highlight();
                (m2, c1 + c2)
            },
            Action::WindowRightHalf => {
                let (m1, c1) = self.step_set_active_window_right();
                let (m2, c2) = m1.step_show_highlight();
                (m2, c1 + c2)
            },
            Action::WindowMinimize => {
                let (m1, c1) = self.step_minimize_active();
                let ca = m1.activate_cmds();
                let (m2, c2) = m1.step_relayout();
                let (m3, c3) = m2.step_show_highlight();
                (m3, c1 + ca + c2 + c3)
            },
            Action::WindowRestore => {
                let (m1, c1) = self.step_unminimize();
                let ca = m1.activate_cmds();
                let (m2, c2) = m1.step_relayout();
                let (m3, c3) = m2.step_show_highlight();
                (m3, c1 + ca + c2 + c3)
            },
            Action::WindowClose => {
                let (m1, c1) = self.step_close_active();
                let ca = m1.activate_cmds();
                let (m2, c2) = m1.step_relayout();
                let (m3, c3) = m2.step_show_highlight();
                (m3, c1 + ca + c2 + c3)
            },
            Action::NextWindow => {
                let (m1, c1) = self.step_maybe_enter_normal(scan);
                let m2 = m1.step_set_next_window_active();
                let ca = m2.activate_cmds();
                let (m3, c3) = m2.step_show_highlight();
                (m3, c1 + ca + c3)
            },
            Action::PrevWindow => {
                let (m1, c1) = self.step_maybe_enter_normal(scan);
                let m2 = m1.step_set_prev_window_active();
                let ca = m2.activate_cmds();
                let (m3, c3) = m2.step_show_highlight();
                (m3, c1 + ca + c3)
            },
            Action::SwapNextWindow => {
                let m1 = self.step_swap_next();
                let (m2, c2) = m1.step_relayout();
                let (m3, c3) = m2.step_show_highlight();
                (m3, c2 + c3)
            },
            Action::SwapPrevWindow => {
                let m1 = self.step_swap_prev();
                let (m2, c2) = m1.step_relayout();
                let (m3, c3) = m2.step_show_highlight();
                (m3, c2 + c3)
            },
            Action::IncrPrimaryColWidth => {
                let m1 = self.step_incr_pct();
                let (m2, c2) = m1.step_relayout();
                let (m3, c3) = m2.step_show_highlight();
                (m3, c2 + c3)
            },
            Action::DecrPrimaryColWidth => {
                let m1 = self.step_decr_pct();
                let (m2, c2) = m1.step_relayout();
                let (m3, c3) = m2.step_show_highlight();
                (m3, c2 + c3)
            },
            Action::IncrPrimaryColWindows => {
                let m1 = self.step_incr_pcmw();
                let (m2, c2) = m1.step_relayout();
                let (m3, c3) = m2.step_show_highlight();
                (m3, c2 + c3)
            },
            Action::DecrPrimaryColWindows => {
                let m1 = self.step_decr_pcmw();
                let (m2, c2) = m1.step_relayout();
                let (m3, c3) = m2.step_show_highlight();
                (m3, c2 + c3)
            },
            Action::NextDisplay => {
                let (m1, c1) = self.step_maybe_enter_normal(scan);
                let m2 = WmModel { active_display_idx: m1.next_display_idx(), ..m1 };
                let ca = m2.activate_cmds();
                let (m3, c3) = m2.step_close_status();
                let (m4, c4) = m3.step_open_status();
                let (m5, c5) = m4.step_show_highlight();
                (m5, c1 + ca + c3 + c4 + c5)
            },
            Action::PrevDisplay => {
                let (m1, c1) = self.step_maybe_enter_normal(scan);
                let m2 = WmModel { active_display_idx: m1.prev_display_idx(), ..m1 };
                let ca = m2.activate_cmds();
                let (m3, c3) = m2.step_close_status();
                let (m4, c4) = m3.step_open_status();
                let (m5, c5) = m4.step_show_highlight();
                (m5, c1 + ca + c3 + c4 + c5)
            },
            Action::MoveWindowToNextDisplay { follow } => {
                let m1 = self.step_move_active_next_display();
                let m2 = if follow {
                    WmModel { active_display_idx: m1.next_display_idx(), ..m1 }
                } else {
                    m1
                };
                let (m3, c3) = m2.step_relayout_all_from(0);
                let (m4, c4) = m3.step_close_status();
                let (m5, c5) = m4.step_open_status();
                let ca = m5.activate_cmds();
                let (m6, c6) = m5.step_show_highlight();
                (m6, c3 + c4 + c5 + ca + c6)
            },
            Action::MoveWindowToPrevDisplay { follow } => {
                let m1 = self.step_move_active_prev_display();
                let m2 = if follow {
                    WmModel { active_display_idx: m1.prev_display_idx(), ..m1 }
                } else {
                    m1
                };
                let (m3, c3) = m2.step_relayout_all_from(0);
                let (m4, c4) = m3.step_close_status();
                let (m5, c5) = m4.step_open_status();
                let (m6, c6) = m5.step_show_highlight();
                (m6, c3 + c4 + c5 + c6)
            },
            Action::ShowGroup(g) => self.step_show_group(g, scan),
            Action::NextGroup => match self.next_group_target() {
                Some(g) => self.step_show_group(g, scan),
                None => (self, Seq::<Command>::empty()),
            },
            Action::PrevGroup => match self.prev_group_target() {
                Some(g) => self.step_show_group(g, scan),
                None => (self, Seq::<Command>::empty()),
            },
            Action::MoveWindowToGroup { id, follow } => self.step_move_window_to_group(
                id,
                follow,
            ),
            Action::ToggleWindowInGroup(g) => {
                let m1 = self.step_toggle_active_in_group(g);
                let ca = m1.activate_cmds();
                let (m2, c2) = m1.step_relayout();
                let (m3, c3) = m2.step_show_highlight();
                (m3, ca + c2 + c3)
            },
            Action::MoveWindowToNextGroup { follow } => match self.next_group_target() {
                Some(g) => self.step_move_window_to_group(g, follow),
                None => (self, Seq::<Command>::empty()),
            },
            Action::MoveWindowToPrevGroup { follow } => match self.prev_group_target() {
                Some(g) => self.step_move_window_to_group(g, follow),
                None => (self, Seq::<Command>::empty()),
            },
        }
    }

    /// The selected window's stored snapshot replaced by `w2` (selection,
    /// groups and everything else untouched).
    pub open spec fn with_active_window(self, w2: WindowHandle) -> WmModel {
        match self.active_display() {
            Some(i) => {
                let d = self.displays[i];
                match d.active_group_idx() {
                    Some(gi) => {
                        let g = d.groups[gi].group;
                        match g.active_window_idx {
                            Some(ai) => if 0 <= ai < g.windows.len() {
                                self.with_display_at(
                                    i,
                                    d.with_group_at(
                                        gi,
                                        GroupModel { windows: g.windows.update(ai, w2), ..g },
                                    ),
                                )
                            } else {
                                self
                            },
                            None => self,
                        }
                    },
                    None => self,
                }
            },
            None => self,
        }
    }

    /// The selected window, updated to `w2`, handed over to the display it
    /// now reports: popped from its group, inserted over there, with the
    /// active display following it.
    pub open spec fn step_send_active_to_display(self, w2: WindowHandle) -> WmModel {
        let m1 = self.with_active_window(w2);
        let (m2, wopt) = m1.step_pop_active();
        match wopt {
            Some(w3) => WmModel {
                active_display_idx: find_display_pos(self.display_info, w3.display_id),
                ..m2.step_insert_open_window(w3, w3.display_id)
            },
            None => m2,
        }
    }

    /// The selected window grown to its whole display.
    pub open spec fn step_set_active_window_full(self) -> (WmModel, Seq<Command>) {
        match self.active_window() {
            None => (self, Seq::empty()),
            Some(w) => match find_display(self.display_info, w.display_id) {
                None => (self, Seq::empty()),
                Some(dinfo) => (
                    self.with_active_window(with_frame(w, dinfo.bounds, w.display_id)),
                    seq![Command::SetFrame { window_id: w.id, frame: dinfo.bounds }],
                ),
            },
        }
    }

    /// The selected window put in the left half of its display; if it
    /// already fills that half, it jumps to the right half of the display
    /// left of this one, its group following.
    pub open spec fn step_set_active_window_left(self) -> (WmModel, Seq<Command>) {
        match self.active_window() {
            None => (self, Seq::empty()),
            Some(w) => match find_display(self.display_info, w.display_id) {
                None => (self, Seq::empty()),
                Some(dinfo) => {
                    let d = dinfo.bounds;
                    if d.x > 0 && w.frame.x == d.x && w.frame.w == d.w / 2 {
                        match find_display_at_point(self.display_info, d.x - 1, d.y as int) {
                            None => (self, Seq::empty()),
                            Some(t) => {
                                let f = Rect {
                                    x: (t.bounds.x + t.bounds.w / 2) as i64,
                                    y: t.bounds.y,
                                    w: (t.bounds.w / 2) as i64,
                                    h: t.bounds.h,
                                };
                                (
                                    self.step_send_active_to_display(with_frame(w, f, t.id)),
                                    seq![Command::SetFrame { window_id: w.id, frame: f }],
                                )
                            },
                        }
                    } else {
                        let f = Rect { x: d.x, y: d.y, w: (d.w / 2) as i64, h: d.h };
                        (
                            self.with_active_window(with_frame(w, f, w.display_id)),
                            seq![Command::SetFrame { window_id: w.id, frame: f }],
                        )
                    }
                },
            },
        }
    }

    /// The selected window put in the right half of its display; if it
    /// already fills that half, it jumps to the left half of the display
    /// right of this one, its group following.
    pub open spec fn step_set_active_window_right(self) -> (WmModel, Seq<Command>) {
        match self.active_window() {
            None => (self, Seq::empty()),
            Some(w) => match find_display(self.display_info, w.display_id) {
                None => (self, Seq::empty()),
                Some(dinfo) => {
                    let d = dinfo.bounds;
                    if w.frame.x == d.x + d.w / 2 && w.frame.w == d.w / 2 {
                        match find_display_at_point(
                            self.display_info,
                            d.x + d.w + 1,
                            d.y as int,
                        ) {
                            None => (self, Seq::empty()),
                            Some(t) => {
                                let f = Rect {
                                    x: t.bounds.x,
                                    y: t.bounds.y,
                                    w: (t.bounds.w / 2) as i64,
                                    h: t.bounds.h,
                                };
                                (
                                    self.step_send_active_to_display(with_frame(w, f, t.id)),
                                    seq![Command::SetFrame { window_id: w.id, frame: f }],
                                )
                            },
                        }
                    } else {
                        let f = Rect {
                            x: (d.x + d.w / 2) as i64,
                            y: d.y,
                            w: (d.w / 2) as i64,
                            h: d.h,
                        };
                        (
                            self.with_active_window(with_frame(w, f, w.display_id)),
                            seq![Command::SetFrame { window_id: w.id, frame: f }],
                        )
                    }
                },
            },
        }
    }
}

/// The first display whose bounds contain the point, if any.
pub open spec fn find_display_at_point(info: Seq<DisplayInfo>, px: int, py: int) -> Option<
    DisplayInfo,
>
    decreases info.len(),
{
    if info.len() == 0 {
        None
    } else if info[0].bounds.spec_contains_point(px, py) {
        Some(info[0])
    } else {
        match find_display_at_point(info.drop_first(), px, py) {
            Some(d) => Some(d),
            None => None,
        }
    }
}

/// `find_display_at_point` returns an element of the list.
pub proof fn lemma_find_display_at_point_in(info: Seq<DisplayInfo>, px: int, py: int)
    ensures
        match find_display_at_point(info, px, py) {
            Some(d) => info.contains(d),
            None => true,
        },
    decreases info.len(),
{
    if info.len() > 0 && !info[0].bounds.spec_contains_point(px, py) {
        lemma_find_display_at_point_in(info.drop_first(), px, py);
        match find_display_at_point(info.drop_first(), px, py) {
            Some(d) => {
                let j = choose|j: int|
                    0 <= j < info.drop_first().len() && info.drop_first()[j] == d;
                assert(info[j + 1] == d);
            },
            None => {},
        }
    }
}

/// The first display whose bounds contain the point, if any.
fn display_at_point_exec(info: &Vec<DisplayInfo>, px: i64, py: i64) -> (r: Option<DisplayInfo>)
    requires
        forall|i: int| 0 <= i < info@.len() ==> (#[trigger] info@[i]).bounds.display_bounds_wf(),
        -crate::geometry::MAX_FRAME_COORD <= px <= crate::geometry::MAX_FRAME_COORD,
        -crate::geometry::MAX_FRAME_COORD <= py <= crate::geometry::MAX_FRAME_COORD,
    ensures
        r == find_display_at_point(info@, px as int, py as int),
{
    let mut i: usize = 0;
    proof {
        assert(info@.skip(0) =~= info@);
    }
    while i < info.len()
        invariant
            i <= info@.len(),
            forall|j: int|
                0 <= j < info@.len() ==> (#[trigger] info@[j]).bounds.display_bounds_wf(),
            -crate::geometry::MAX_FRAME_COORD <= px <= crate::geometry::MAX_FRAME_COORD,
            -crate::geometry::MAX_FRAME_COORD <= py <= crate::geometry::MAX_FRAME_COORD,
            find_display_at_point(info@, px as int, py as int) == find_display_at_point(
                info@.skip(i as int),
                px as int,
                py as int,
            ),
        decreases info@.len() - i,
    {
        proof {
            assert(info@.skip(i as int)[0] == info@[i as int]);
            assert(info@.skip(i as int).drop_first() =~= info@.skip(i as int + 1));
        }
        if info[i].bounds.contains_point(px, py) {
            return Some(info[i]);
        }
        i += 1;
    }
    proof {
        assert(info@.skip(i as int).len() == 0);
    }
    None
}

/// The position of display id `id` in the ordered display list, if present.
fn display_pos_exec(info: &Vec<DisplayInfo>, id: u32) -> (r: Option<usize>)
    ensures
        opt_idx(r) == find_display_pos(info@, id),
{
    let mut i: usize = 0;
    while i < info.len()
        invariant
            i <= info@.len(),
            forall|j: int| 0 <= j < i ==> (#[trigger] info@[j]).id != id,
        decreases info@.len() - i,
    {
        if info[i].id == id {
            proof {
                lemma_find_display_pos_some(info@, id, i as int);
            }
            return Some(i);
        }
        i += 1;
    }
    proof {
        lemma_find_display_pos_props(info@, id);
    }
    None
}

impl WindowManager {
    /// A fresh manager: insert mode, nothing known, nothing shown.
    pub fn new() -> (r: Self)
        ensures
            r@ == (WmModel {
                mode: Mode::Insert,
                active_display_idx: None,
                display_info: Seq::empty(),
                displays: Seq::empty(),
                minimized_windows: Seq::empty(),
                drag_window: None,
                highlight_visible: false,
                status_visible: false,
            }),
            r@.wf(),
    {
        let r = Self {
            mode: Mode::Insert,
            active_display_idx: None,
            display_info: Vec::new(),
            displays: Vec::new(),
            minimized_windows: Vec::new(),
            drag_window: None,
            highlight_visible: false,
            status_visible: false,
        };
        proof {
            assert(r@.displays =~= Seq::<DisplayModel>::empty());
        }
        r
    }

    /// The window being dragged, if any.
    pub fn drag_window(&self) -> (r: Option<DragWindow>)
        ensures
            r == self@.drag_window,
    {
        self.drag_window
    }

    /// Set or clear the drag state.
    pub fn set_drag_window(&mut self, dw: Option<DragWindow>)
        ensures
            final(self)@ == (WmModel { drag_window: dw, ..old(self)@ }),
    {
        self.drag_window = dw;
    }

    /// The current mode.
    pub fn mode(&self) -> (r: Mode)
        ensures
            r == self@.mode,
    {
        self.mode
    }

    /// Whether the manager is in `Normal` mode.
    pub fn is_normal_mode(&self) -> (r: bool)
        ensures
            r == (self@.mode == Mode::Normal),
    {
        matches!(self.mode, Mode::Normal)
    }

    fn set_mode(&mut self, mode: Mode)
        ensures
            final(self)@ == (WmModel { mode, ..old(self)@ }),
    {
        self.mode = mode;
    }

    /// The index of the display state for display `id`, if any.
    fn display_state_index(&self, id: u32) -> (r: Option<usize>)
        ensures
            opt_idx(r) == find_display_state(self@.displays, id),
            match r {
                Some(i) => i < self@.displays.len() && self@.displays[i as int].display_id == id,
                None => true,
            },
    {
        let mut i: usize = 0;
        while i < self.displays.len()
            invariant
                i <= self@.displays.len(),
                self@.displays.len() == self.displays@.len(),
                forall|j: int| 0 <= j < i ==> self@.displays[j].display_id != id,
            decreases self@.displays.len() - i,
        {
            if self.displays[i].display_id == id {
                proof {
                    lemma_find_display_state_some(self@.displays, id, i as int);
                }
                return Some(i);
            }
            i += 1;
        }
        proof {
            lemma_find_display_state_props(self@.displays, id);
        }
        None
    }

    /// The index (into `displays`) of the active display's state, if it
    /// exists.
    fn get_active_display_index(&self) -> (r: Option<usize>)
        ensures
            opt_idx(r) == self@.active_display(),
            match r {
                Some(i) => i < self@.displays.len(),
                None => true,
            },
    {
        match self.active_display_idx {
            Some(i) => if i < self.display_info.len() {
                self.display_state_index(self.display_info[i].id)
            } else {
                None
            },
            None => None,
        }
    }

    /// The selected window of the active display, if any.
    pub fn get_active_window(&self) -> (r: Option<WindowHandle>)
        ensures
            r == self@.active_window(),
    {
        match self.get_active_display_index() {
            Some(i) => self.displays[i].get_active_window(),
            None => None,
        }
    }


    /// Move the shown group's selection to its successor.
    pub fn set_next_window_active(&mut self)
        requires
            old(self)@.wf(),
        ensures
            final(self)@ == old(self)@.step_set_next_window_active(),
            final(self)@.wf(),
    {
        match self.get_active_display_index() {
            Some(i) => {
                proof {
                    assert(old(self)@.displays[i as int].wf());
                }
                self.displays[i].set_next_window_active();
                proof {
                    assert(self@.displays =~= old(self)@.step_set_next_window_active().displays);
                    lemma_with_display_at_wf(
                        old(self)@,
                        i as int,
                        self@.displays[i as int],
                    );
                }
            },
            None => (),
        }
    }

    /// Move the shown group's selection to its predecessor.
    pub fn set_prev_window_active(&mut self)
        requires
            old(self)@.wf(),
        ensures
            final(self)@ == old(self)@.step_set_prev_window_active(),
            final(self)@.wf(),
    {
        match self.get_active_display_index() {
            Some(i) => {
                proof {
                    assert(old(self)@.displays[i as int].wf());
                }
                self.displays[i].set_prev_window_active();
                proof {
                    assert(self@.displays =~= old(self)@.step_set_prev_window_active().displays);
                    lemma_with_display_at_wf(
                        old(self)@,
                        i as int,
                        self@.displays[i as int],
                    );
                }
            },
            None => (),
        }
    }

    /// Swap the selected window with its successor.
    pub fn swap_window_next(&mut self)
        requires
            old(self)@.wf(),
        ensures
            final(self)@ == old(self)@.step_swap_next(),
            final(self)@.wf(),
    {
        match self.get_active_display_index() {
            Some(i) => {
                proof {
                    assert(old(self)@.displays[i as int].wf());
                }
                self.displays[i].swap_window_next();
                proof {
                    assert(self@.displays =~= old(self)@.step_swap_next().displays);
                    lemma_with_display_at_wf(
                        old(self)@,
                        i as int,
                        self@.displays[i as int],
                    );
                }
            },
            None => (),
        }
    }

    /// Swap the selected window with its predecessor.
    pub fn swap_window_prev(&mut self)
        requires
            old(self)@.wf(),
        ensures
            final(self)@ == old(self)@.step_swap_prev(),
            final(self)@.wf(),
    {
        match self.get_active_display_index() {
            Some(i) => {
                proof {
                    assert(old(self)@.displays[i as int].wf());
                }
                self.displays[i].swap_window_prev();
                proof {
                    assert(self@.displays =~= old(self)@.step_swap_prev().displays);
                    lemma_with_display_at_wf(
                        old(self)@,
                        i as int,
                        self@.displays[i as int],
                    );
                }
            },
            None => (),
        }
    }

    /// Give the shown group its tiling layout.
    pub fn set_layout_tile_horizontal(&mut self)
        requires
            old(self)@.wf(),
        ensures
            final(self)@ == old(self)@.step_set_layout_tile(),
            final(self)@.wf(),
    {
        match self.get_active_display_index() {
            Some(i) => {
                proof {
                    assert(old(self)@.displays[i as int].wf());
                }
                self.displays[i].set_layout_tile_horizontal();
                proof {
                    assert(self@.displays =~= old(self)@.step_set_layout_tile().displays);
                    lemma_with_display_at_wf(
                        old(self)@,
                        i as int,
                        self@.displays[i as int],
                    );
                }
            },
            None => (),
        }
    }

    /// Let the shown group's primary column hold one more window.
    pub fn incr_primary_column_max_windows(&mut self)
        requires
            old(self)@.wf(),
        ensures
            final(self)@ == old(self)@.step_incr_pcmw(),
            final(self)@.wf(),
    {
        match self.get_active_display_index() {
            Some(i) => {
                proof {
                    assert(old(self)@.displays[i as int].wf());
                }
                self.displays[i].incr_primary_column_max_windows();
                proof {
                    assert(self@.displays =~= old(self)@.step_incr_pcmw().displays);
                    lemma_with_display_at_wf(
                        old(self)@,
                        i as int,
                        self@.displays[i as int],
                    );
                }
            },
            None => (),
        }
    }

    /// Let the shown group's primary column hold one window fewer.
    pub fn decr_primary_column_max_windows(&mut self)
        requires
            old(self)@.wf(),
        ensures
            final(self)@ == old(self)@.step_decr_pcmw(),
            final(self)@.wf(),
    {
        match self.get_active_display_index() {
            Some(i) => {
                proof {
                    assert(old(self)@.displays[i as int].wf());
                }
                self.displays[i].decr_primary_column_max_windows();
                proof {
                    assert(self@.displays =~= old(self)@.step_decr_pcmw().displays);
                    lemma_with_display_at_wf(
                        old(self)@,
                        i as int,
                        self@.displays[i as int],
                    );
                }
            },
            None => (),
        }
    }

    /// Widen the shown group's primary column.
    pub fn incr_primary_column_width(&mut self)
        requires
            old(self)@.wf(),
        ensures
            final(self)@ == old(self)@.step_incr_pct(),
            final(self)@.wf(),
    {
        match self.get_active_display_index() {
            Some(i) => {
                proof {
                    assert(old(self)@.displays[i as int].wf());
                }
                self.displays[i].incr_primary_column_width();
                proof {
                    assert(self@.displays =~= old(self)@.step_incr_pct().displays);
                    lemma_with_display_at_wf(
                        old(self)@,
                        i as int,
                        self@.displays[i as int],
                    );
                }
            },
            None => (),
        }
    }

    /// Narrow the shown group's primary column.
    pub fn decr_primary_column_width(&mut self)
        requires
            old(self)@.wf(),
        ensures
            final(self)@ == old(self)@.step_decr_pct(),
            final(self)@.wf(),
    {
        match self.get_active_display_index() {
            Some(i) => {
                proof {
                    assert(old(self)@.displays[i as int].wf());
                }
                self.displays[i].decr_primary_column_width();
                proof {
                    assert(self@.displays =~= old(self)@.step_decr_pct().displays);
                    lemma_with_display_at_wf(
                        old(self)@,
                        i as int,
                        self@.displays[i as int],
                    );
                }
            },
            None => (),
        }
    }

    /// Give the shown group the floating layout.
    pub fn set_layout_floating(&mut self)
        requires
            old(self)@.wf(),
        ensures
            final(self)@ == old(self)@.step_set_layout(Layout::Floating),
            final(self)@.wf(),
    {
        match self.get_active_display_index() {
            Some(i) => {
                proof {
                    assert(old(self)@.displays[i as int].wf());
                }
                self.displays[i].set_layout_floating();
                proof {
                    assert(self@.displays =~= old(self)@.step_set_layout(
                        Layout::Floating,
                    ).displays);
                    lemma_with_display_at_wf(old(self)@, i as int, self@.displays[i as int]);
                }
            },
            None => (),
        }
    }

    /// Give the shown group the cascade layout.
    pub fn set_layout_cascade(&mut self)
        requires
            old(self)@.wf(),
        ensures
            final(self)@ == old(self)@.step_set_layout(Layout::Cascade),
            final(self)@.wf(),
    {
        match self.get_active_display_index() {
            Some(i) => {
                proof {
                    assert(old(self)@.displays[i as int].wf());
                }
                self.displays[i].set_layout_cascade();
                proof {
                    assert(self@.displays =~= old(self)@.step_set_layout(
                        Layout::Cascade,
                    ).displays);
                    lemma_with_display_at_wf(old(self)@, i as int, self@.displays[i as int]);
                }
            },
            None => (),
        }
    }

    /// Move the selected window to group `g_id` of its display.
    pub fn move_active_window_to_group(&mut self, g_id: u8)
        requires
            old(self)@.wf(),
        ensures
            final(self)@ == old(self)@.step_move_active_to_group(g_id),
            final(self)@.wf(),
    {
        match self.get_active_display_index() {
            Some(i) => {
                proof {
                    assert(old(self)@.displays[i as int].wf());
                }
                self.displays[i].move_active_window_to_group(g_id);
                proof {
                    assert(self@.displays =~= old(self)@.step_move_active_to_group(
                        g_id,
                    ).displays);
                    lemma_with_display_at_wf(old(self)@, i as int, self@.displays[i as int]);
                }
            },
            None => (),
        }
    }

    /// Toggle the selected window's membership in group `g_id`, under the
    /// no-orphan rule.
    pub fn toggle_active_window_in_group(&mut self, g_id: u8)
        requires
            old(self)@.wf(),
        ensures
            final(self)@ == old(self)@.step_toggle_active_in_group(g_id),
            final(self)@.wf(),
    {
        match self.get_active_display_index() {
            Some(i) => {
                proof {
                    assert(old(self)@.displays[i as int].wf());
                }
                self.displays[i].toggle_active_window_in_group(g_id);
                proof {
                    assert(self@.displays =~= old(self)@.step_toggle_active_in_group(
                        g_id,
                    ).displays);
                    lemma_with_display_at_wf(old(self)@, i as int, self@.displays[i as int]);
                }
            },
            None => (),
        }
    }

    /// Show group `g_id` on the active display.
    pub fn set_active_display_group(&mut self, g_id: u8)
        requires
            old(self)@.wf(),
        ensures
            final(self)@ == old(self)@.step_set_active_display_group(g_id),
            final(self)@.wf(),
    {
        match self.get_active_display_index() {
            Some(i) => {
                proof {
                    assert(old(self)@.displays[i as int].wf());
                }
                self.displays[i].set_active_group(g_id);
                proof {
                    assert(self@.displays =~= old(self)@.step_set_active_display_group(
                        g_id,
                    ).displays);
                    lemma_with_display_at_wf(old(self)@, i as int, self@.displays[i as int]);
                }
            },
            None => (),
        }
    }

    /// Remove and return the selected window, repairing the selection.
    fn pop_active_window(&mut self) -> (r: Option<WindowHandle>)
        requires
            old(self)@.wf(),
        ensures
            final(self)@ == old(self)@.step_pop_active().0,
            r == old(self)@.step_pop_active().1,
            final(self)@.wf(),
            match r {
                Some(w) => w.frame.frame_wf(),
                None => true,
            },
    {
        match self.get_active_display_index() {
            Some(i) => {
                proof {
                    assert(old(self)@.displays[i as int].wf());
                    crate::display_state::lemma_active_window_wf(old(self)@.displays[i as int]);
                }
                let r = self.displays[i].pop_active_window();
                proof {
                    assert(self@.displays =~= old(self)@.step_pop_active().0.displays);
                    lemma_with_display_at_wf(old(self)@, i as int, self@.displays[i as int]);
                }
                r
            },
            None => None,
        }
    }

    /// Close the selected window: drop it from its group and ask the
    /// platform layer to close it.
    pub fn close_active_window(&mut self) -> (cmds: Vec<Command>)
        requires
            old(self)@.wf(),
        ensures
            final(self)@ == old(self)@.step_close_active().0,
            cmds@ == old(self)@.step_close_active().1,
            final(self)@.wf(),
    {
        let mut cmds: Vec<Command> = Vec::new();
        if let Some(w) = self.pop_active_window() {
            cmds.push(Command::Close { window_id: w.id });
        }
        proof {
            assert(cmds@ =~= old(self)@.step_close_active().1);
        }
        cmds
    }

    /// Minimize the selected window: drop it from its group into the
    /// minimized pool and ask the platform layer to minimize it.
    pub fn minimize_active_window(&mut self) -> (cmds: Vec<Command>)
        requires
            old(self)@.wf(),
        ensures
            final(self)@ == old(self)@.step_minimize_active().0,
            cmds@ == old(self)@.step_minimize_active().1,
            final(self)@.wf(),
    {
        let mut cmds: Vec<Command> = Vec::new();
        if let Some(w) = self.pop_active_window() {
            self.minimized_windows.push(w);
            cmds.push(Command::SetMinimized { window_id: w.id, minimized: true });
        }
        proof {
            assert(cmds@ =~= old(self)@.step_minimize_active().1);
        }
        cmds
    }

    /// Restore the most recently minimized window onto the display it
    /// reports.
    pub fn unminimize_window(&mut self) -> (cmds: Vec<Command>)
        requires
            old(self)@.wf(),
        ensures
            final(self)@ == old(self)@.step_unminimize().0,
            cmds@ == old(self)@.step_unminimize().1,
            final(self)@.wf(),
    {
        let mut cmds: Vec<Command> = Vec::new();
        if let Some(w) = self.minimized_windows.pop() {
            proof {
                assert(old(self)@.minimized_windows.last().frame.frame_wf());
            }
            self.insert_open_window(w, w.display_id);
            cmds.push(Command::SetMinimized { window_id: w.id, minimized: false });
        }
        proof {
            assert(cmds@ =~= old(self)@.step_unminimize().1);
        }
        cmds
    }

    /// Move the selected window to the display at position `display_idx` of
    /// the ordered list.
    fn move_active_window_to_display_idx(&mut self, display_idx: usize)
        requires
            old(self)@.wf(),
        ensures
            final(self)@ == old(self)@.step_move_active_to_display_idx(display_idx as int),
            final(self)@.wf(),
    {
        if display_idx >= self.display_info.len() {
            return;
        }
        let target_id = self.display_info[display_idx].id;
        if let Some(w) = self.pop_active_window() {
            self.insert_open_window(w, target_id);
        }
    }

    /// Move the selected window to the cyclic successor display.
    fn move_active_window_to_next_display(&mut self)
        requires
            old(self)@.wf(),
        ensures
            final(self)@ == old(self)@.step_move_active_next_display(),
            final(self)@.wf(),
    {
        match self.next_display_idx() {
            Some(next_display_idx) => self.move_active_window_to_display_idx(next_display_idx),
            None => (),
        }
    }

    /// Move the selected window to the cyclic predecessor display.
    fn move_active_window_to_prev_display(&mut self)
        requires
            old(self)@.wf(),
        ensures
            final(self)@ == old(self)@.step_move_active_prev_display(),
            final(self)@.wf(),
    {
        match self.prev_display_idx() {
            Some(prev_display_idx) => self.move_active_window_to_display_idx(prev_display_idx),
            None => (),
        }
    }

    /// The command that activates the selected window, if there is one.
    fn activate_active_window(&self) -> (cmds: Vec<Command>)
        ensures
            cmds@ == self@.activate_cmds(),
    {
        let mut cmds: Vec<Command> = Vec::new();
        if let Some(w) = self.get_active_window() {
            cmds.push(Command::Activate { window_id: w.id });
        }
        proof {
            assert(cmds@ =~= self@.activate_cmds());
        }
        cmds
    }

    /// The commands that bring the active display's shown group to the
    /// front.
    fn bring_active_display_group_to_front(&self) -> (cmds: Vec<Command>)
        ensures
            cmds@ == self@.front_cmds(),
    {
        match self.get_active_display_index() {
            Some(i) => self.displays[i].bring_active_group_to_front(),
            None => Vec::new(),
        }
    }

    /// Lay the active display's shown group out afresh.
    fn relayout(&mut self) -> (cmds: Vec<Command>)
        requires
            old(self)@.wf(),
        ensures
            final(self)@ == old(self)@.step_relayout().0,
            cmds@ == old(self)@.step_relayout().1,
            final(self)@.wf(),
    {
        match self.get_active_display_index() {
            Some(i) => {
                proof {
                    assert(old(self)@.displays[i as int].wf());
                }
                let cmds = self.displays[i].relayout(&self.display_info);
                proof {
                    assert(self@.displays =~= old(self)@.step_relayout().0.displays);
                    lemma_with_display_at_wf(old(self)@, i as int, self@.displays[i as int]);
                }
                cmds
            },
            None => Vec::new(),
        }
    }

    /// Lay every display's shown group out afresh, in display order.
    fn relayout_all(&mut self) -> (cmds: Vec<Command>)
        requires
            old(self)@.wf(),
        ensures
            final(self)@ == old(self)@.step_relayout_all_from(0).0,
            cmds@ == old(self)@.step_relayout_all_from(0).1,
            final(self)@.wf(),
    {
        let mut cmds: Vec<Command> = Vec::new();
        let mut di: usize = 0;
        while di < self.displays.len()
            invariant
                di <= self.displays@.len(),
                self.displays@.len() == old(self).displays@.len(),
                self@.wf(),
                old(self)@.step_relayout_all_from(0).0 == self@.step_relayout_all_from(
                    di as int,
                ).0,
                old(self)@.step_relayout_all_from(0).1 == cmds@ + self@.step_relayout_all_from(
                    di as int,
                ).1,
            decreases self.displays@.len() - di,
        {
            proof {
                assert(self@.displays[di as int].wf());
            }
            let ghost pre = self@;
            let mut c = self.displays[di].relayout(&self.display_info);
            cmds.append(&mut c);
            proof {
                assert(self@.displays =~= pre.with_display_at(
                    di as int,
                    pre.displays[di as int].step_relayout(pre.display_info).0,
                ).displays);
                lemma_with_display_at_wf(pre, di as int, self@.displays[di as int]);
                assert(old(self)@.step_relayout_all_from(0).1 =~= cmds@
                    + self@.step_relayout_all_from(di as int + 1).1);
            }
            di += 1;
        }
        proof {
            assert(old(self)@.step_relayout_all_from(0).1 =~= cmds@);
        }
        cmds
    }

    /// The layout of the active display's shown group, if any.
    pub fn layout(&self) -> (r: Option<Layout>)
        ensures
            r == self@.layout(),
    {
        match self.get_active_display_index() {
            Some(i) => self.displays[i].layout(),
            None => None,
        }
    }

    /// The cyclic successor of the active display.
    fn next_display_idx(&self) -> (r: Option<usize>)
        requires
            self@.wf(),
        ensures
            opt_idx(r) == self@.next_display_idx(),
    {
        let num_displays = self.display_info.len();
        match self.active_display_idx {
            Some(idx) => if idx >= num_displays - 1 {
                Some(0)
            } else {
                Some(idx + 1)
            },
            None => if num_displays > 0 {
                Some(0)
            } else {
                None
            },
        }
    }

    /// The cyclic predecessor of the active display.
    fn prev_display_idx(&self) -> (r: Option<usize>)
        requires
            self@.wf(),
        ensures
            opt_idx(r) == self@.prev_display_idx(),
    {
        let num_displays = self.display_info.len();
        match self.active_display_idx {
            Some(idx) => if idx == 0 {
                Some(num_displays - 1)
            } else {
                Some(idx - 1)
            },
            None => if num_displays > 0 {
                Some(0)
            } else {
                None
            },
        }
    }

    /// Make the next display active.
    fn set_next_display_active(&mut self)
        requires
            old(self)@.wf(),
        ensures
            final(self)@ == (WmModel {
                active_display_idx: old(self)@.next_display_idx(),
                ..old(self)@
            }),
            final(self)@.wf(),
    {
        self.active_display_idx = self.next_display_idx();
    }

    /// Make the previous display active.
    fn set_prev_display_active(&mut self)
        requires
            old(self)@.wf(),
        ensures
            final(self)@ == (WmModel {
                active_display_idx: old(self)@.prev_display_idx(),
                ..old(self)@
            }),
            final(self)@.wf(),
    {
        self.active_display_idx = self.prev_display_idx();
    }

    /// Whether some tracked group holds a window with the same identity.
    fn window_exists_exec(&self, w: &WindowHandle) -> (r: bool)
        ensures
            r == self@.window_exists(*w),
    {
        let mut i: usize = 0;
        while i < self.displays.len()
            invariant
                i <= self@.displays.len(),
                self@.displays.len() == self.displays@.len(),
                forall|di: int, gi: int, wi: int|
                    0 <= di < i && 0 <= gi < self@.displays[di].groups.len() && 0 <= wi
                        < self@.displays[di].groups[gi].group.windows.len()
                        ==> !self@.displays[di].groups[gi].group.windows[wi].same_ident(*w),
            decreases self@.displays.len() - i,
        {
            if self.displays[i].has_same_window(w) {
                proof {
                    let (gi, wi): (int, int) = choose|gi: int, wi: int|
                        0 <= gi < self@.displays[i as int].groups.len() && 0 <= wi
                            < self@.displays[i as int].groups[gi].group.windows.len()
                            && self@.displays[i as int].groups[gi].group.windows[wi].same_ident(
                            *w,
                        );
                    assert((i as int) < self@.displays.len() && 0 <= gi
                        < self@.displays[i as int].groups.len() && 0 <= wi
                        < self@.displays[i as int].groups[gi].group.windows.len()
                        && self@.displays[i as int].groups[gi].group.windows[wi].same_ident(*w));
                }
                return true;
            }
            i += 1;
        }
        false
    }

    /// Drop display states for displays no longer enumerated and refresh the
    /// kept ones from the scan.
    fn retain_refresh(&mut self, open: &Vec<WindowHandle>)
        requires
            old(self)@.wf(),
            forall|i: int| 0 <= i < open@.len() ==> (#[trigger] open@[i]).frame.frame_wf(),
        ensures
            final(self)@ == (WmModel {
                displays: retain_refresh_displays(
                    old(self)@.displays,
                    old(self)@.display_info,
                    open@,
                ),
                ..old(self)@
            }),
            final(self)@.wf(),
    {
        let ghost orig = old(self)@.displays;
        let ghost info = old(self)@.display_info;
        let mut kept: Vec<DisplayState> = Vec::new();
        let ghost mut k: int = 0;
        proof {
            assert(orig.skip(0) =~= orig);
        }
        while self.displays.len() > 0
            invariant
                0 <= k <= orig.len(),
                display_views(self.displays@) =~= orig.skip(k),
                self.displays@.len() == orig.len() - k,
                retain_refresh_displays(orig, info, open@) == display_views(kept@)
                    + retain_refresh_displays(display_views(self.displays@), info, open@),
                self.display_info@ == info,
                self.mode == old(self).mode,
                self.active_display_idx == old(self).active_display_idx,
                self.minimized_windows@ == old(self).minimized_windows@,
                self.drag_window == old(self).drag_window,
                self.highlight_visible == old(self).highlight_visible,
                self.status_visible == old(self).status_visible,
                self.display_info@ == old(self).display_info@,
                forall|i: int| 0 <= i < orig.len() ==> (#[trigger] orig[i]).wf(),
                forall|i: int| 0 <= i < open@.len() ==> (#[trigger] open@[i]).frame.frame_wf(),
            decreases self.displays@.len(),
        {
            let d = self.displays.remove(0);
            proof {
                assert(orig.skip(k)[0] == orig[k]);
                assert(d@ == orig[k]);
                assert(display_views(self.displays@) =~= orig.skip(k).drop_first());
                assert(orig.skip(k).drop_first() =~= orig.skip(k + 1));
            }
            let ghost cur = orig.skip(k);
            match display_pos_exec(&self.display_info, d.display_id) {
                Some(_) => {
                    let mut d2 = d;
                    d2.refresh_from_scan(open);
                    kept.push(d2);
                    proof {
                        assert(retain_refresh_displays(cur, info, open@) =~= seq![
                            orig[k].step_refresh(open@),
                        ] + retain_refresh_displays(orig.skip(k + 1), info, open@));
                        assert(display_views(kept@) =~= display_views(kept@.drop_last()).push(
                            d2@,
                        ));
                        assert(retain_refresh_displays(orig, info, open@) =~= display_views(kept@)
                            + retain_refresh_displays(orig.skip(k + 1), info, open@));
                    }
                },
                None => {
                    proof {
                        assert(retain_refresh_displays(cur, info, open@) =~= retain_refresh_displays(
                            orig.skip(k + 1),
                            info,
                            open@,
                        ));
                    }
                },
            }
            proof {
                k = k + 1;
            }
        }
        proof {
            assert(display_views(self.displays@).len() == 0);
            assert(retain_refresh_displays(display_views(self.displays@), info, open@)
                =~= Seq::<DisplayModel>::empty());
            assert(retain_refresh_displays(orig, info, open@) =~= display_views(kept@));
        }
        self.displays = kept;
        proof {
            lemma_retain_refresh_wf(orig, info, open@);
            assert(self@ =~~= (WmModel {
                displays: retain_refresh_displays(orig, info, open@),
                ..old(self)@
            }));
        }
    }

    /// Re-derive the selection from which window the system reports
    /// frontmost and main; see `step_refresh_active`.
    fn refresh_active_window(&mut self)
        requires
            old(self)@.wf(),
        ensures
            final(self)@ == old(self)@.step_refresh_active(),
            final(self)@.wf(),
    {
        let mut di: usize = 0;
        while di < self.displays.len()
            invariant
                di <= self.displays@.len(),
                self@ == old(self)@,
                old(self)@.wf(),
                forall|j: int|
                    0 <= j < di ==> first_frontmost_in_groups(
                        (#[trigger] self@.displays[j]).groups,
                    ) is None,
            decreases self.displays@.len() - di,
        {
            match self.displays[di].first_frontmost() {
                Some((gi, wi)) => {
                    proof {
                        lemma_first_frontmost_displays_some(
                            self@.displays,
                            di as int,
                            gi as int,
                            wi as int,
                        );
                    }
                    let gid = self.displays[di].groups[gi].id;
                    let target_display_id = self.displays[di].display_id;
                    self.displays[di].active_group = Some(gid);
                    self.displays[di].groups[gi].group.active_window_idx = Some(wi);
                    self.active_display_idx = display_pos_exec(
                        &self.display_info,
                        target_display_id,
                    );
                    proof {
                        let m0 = old(self)@;
                        let t = first_frontmost_displays(m0.displays)->0;
                        let d2 = m0.step_refresh_active().displays[t.0];
                        assert(self@.displays[di as int].groups =~= d2.groups);
                        assert(self@.displays[di as int] =~~= d2);
                        assert(self@.displays =~~= m0.step_refresh_active().displays);
                        assert(self@ =~~= m0.step_refresh_active());
                        assert(d2.wf());
                        lemma_find_display_pos_props(m0.display_info, target_display_id);
                        lemma_with_display_at_wf(
                            WmModel { active_display_idx: self@.active_display_idx, ..m0 },
                            di as int,
                            d2,
                        );
                    }
                    return;
                },
                None => (),
            }
            di += 1;
        }
        proof {
            lemma_first_frontmost_displays_props(self@.displays);
        }
        self.active_display_idx = None;
    }

    /// Show (or move) the selection highlight and bring the status window
    /// back to the front.
    fn highlight_active_window(&mut self) -> (cmds: Vec<Command>)
        ensures
            final(self)@ == old(self)@.step_show_highlight().0,
            cmds@ == old(self)@.step_show_highlight().1,
    {
        let mut cmds: Vec<Command> = Vec::new();
        let was_status = self.status_visible;
        if let Some(w) = self.get_active_window() {
            self.highlight_visible = true;
            cmds.push(Command::ShowHighlight { frame: w.frame });
        }
        if was_status {
            cmds.push(Command::BringStatusFront);
        }
        proof {
            assert(cmds@ =~= old(self)@.step_show_highlight().1);
        }
        cmds
    }

    /// Hide the selection highlight.
    fn close_highlight_window(&mut self) -> (cmds: Vec<Command>)
        ensures
            final(self)@ == old(self)@.step_hide_highlight().0,
            cmds@ == old(self)@.step_hide_highlight().1,
    {
        let mut cmds: Vec<Command> = Vec::new();
        if self.highlight_visible {
            self.highlight_visible = false;
            cmds.push(Command::HideHighlight);
        }
        proof {
            assert(cmds@ =~= old(self)@.step_hide_highlight().1);
        }
        cmds
    }

    /// (Re)open the status window.
    fn open_status_window(&mut self) -> (cmds: Vec<Command>)
        ensures
            final(self)@ == old(self)@.step_open_status().0,
            cmds@ == old(self)@.step_open_status().1,
    {
        let mut cmds: Vec<Command> = Vec::new();
        if self.status_visible {
            cmds.push(Command::CloseStatus);
        }
        self.status_visible = true;
        cmds.push(Command::OpenStatus);
        proof {
            assert(cmds@ =~= old(self)@.step_open_status().1);
        }
        cmds
    }

    /// Close the status window.
    fn close_status_window(&mut self) -> (cmds: Vec<Command>)
        ensures
            final(self)@ == old(self)@.step_close_status().0,
            cmds@ == old(self)@.step_close_status().1,
    {
        let mut cmds: Vec<Command> = Vec::new();
        if self.status_visible {
            self.status_visible = false;
            cmds.push(Command::CloseStatus);
        }
        proof {
            assert(cmds@ =~= old(self)@.step_close_status().1);
        }
        cmds
    }

    /// Refresh from the scan, if one was gathered.
    fn refresh_opt(&mut self, scan: Option<WindowScan>)
        requires
            old(self)@.wf(),
            match scan {
                Some(s) => s@.wf(),
                None => true,
            },
        ensures
            final(self)@ == old(self)@.step_refresh_opt(spec_scan(scan)),
            final(self)@.wf(),
    {
        match scan {
            Some(s) => self.refresh_window_list(s),
            None => (),
        }
    }

    /// On the way into Normal-mode behaviour from `Insert`: refresh (when a
    /// scan is at hand) and open the status window.
    fn maybe_enter_normal_mode(&mut self, scan: Option<WindowScan>) -> (cmds: Vec<Command>)
        requires
            old(self)@.wf(),
            match scan {
                Some(s) => s@.wf(),
                None => true,
            },
        ensures
            final(self)@ == old(self)@.step_maybe_enter_normal(spec_scan(scan)).0,
            cmds@ == old(self)@.step_maybe_enter_normal(spec_scan(scan)).1,
            final(self)@.wf(),
    {
        if matches!(self.mode, Mode::Insert) {
            self.refresh_opt(scan);
            self.open_status_window()
        } else {
            Vec::new()
        }
    }

    /// The id of the group a cyclic "next group" motion selects, if any.
    fn next_group_target(&self) -> (r: Option<u8>)
        ensures
            r == self@.next_group_target(),
    {
        match self.get_active_display_index() {
            Some(i) => {
                let n = self.displays[i].groups.len();
                if n == 0 {
                    None
                } else {
                    match self.displays[i].active_group_index() {
                        Some(gi) => if gi + 1 < n {
                            Some(self.displays[i].groups[gi + 1].id)
                        } else {
                            Some(self.displays[i].groups[0].id)
                        },
                        None => Some(self.displays[i].groups[0].id),
                    }
                }
            },
            None => None,
        }
    }

    /// The id of the group a cyclic "previous group" motion selects, if any.
    fn prev_group_target(&self) -> (r: Option<u8>)
        ensures
            r == self@.prev_group_target(),
    {
        match self.get_active_display_index() {
            Some(i) => {
                let n = self.displays[i].groups.len();
                if n == 0 {
                    None
                } else {
                    match self.displays[i].active_group_index() {
                        Some(gi) => if gi == 0 {
                            Some(self.displays[i].groups[n - 1].id)
                        } else {
                            Some(self.displays[i].groups[gi - 1].id)
                        },
                        None => Some(self.displays[i].groups[0].id),
                    }
                }
            },
            None => None,
        }
    }

    /// Replace the selected window's stored snapshot.
    fn update_active_window(&mut self, w2: WindowHandle)
        requires
            old(self)@.wf(),
            w2.frame.frame_wf(),
        ensures
            final(self)@ == old(self)@.with_active_window(w2),
            final(self)@.wf(),
    {
        match self.get_active_display_index() {
            Some(i) => {
                match self.displays[i].active_group_index() {
                    Some(gi) => {
                        proof {
                            assert(old(self)@.displays[i as int].wf());
                            assert(old(self)@.displays[i as int].groups[gi as int].group.wf());
                        }
                        match self.displays[i].groups[gi].group.active_window_idx {
                            Some(ai) => {
                                if ai < self.displays[i].groups[gi].group.windows.len() {
                                    self.displays[i].groups[gi].group.windows[ai] = w2;
                                    proof {
                                        assert(self@.displays[i as int].groups =~= old(
                                            self,
                                        )@.with_active_window(w2).displays[i as int].groups);
                                        assert(self@.displays =~= old(self)@.with_active_window(
                                            w2,
                                        ).displays);
                                        lemma_with_display_at_wf(
                                            old(self)@,
                                            i as int,
                                            self@.displays[i as int],
                                        );
                                    }
                                }
                            },
                            None => (),
                        }
                    },
                    None => (),
                }
            },
            None => (),
        }
    }

    /// Hand the selected window, updated to `w2`, over to the display it now
    /// reports; the active display follows it.
    fn send_active_window_to(&mut self, w2: WindowHandle)
        requires
            old(self)@.wf(),
            w2.frame.frame_wf(),
        ensures
            final(self)@ == old(self)@.step_send_active_to_display(w2),
            final(self)@.wf(),
    {
        self.update_active_window(w2);
        if let Some(w3) = self.pop_active_window() {
            self.insert_open_window(w3, w3.display_id);
            self.active_display_idx = display_pos_exec(&self.display_info, w3.display_id);
            proof {
                lemma_find_display_pos_props(self@.display_info, w3.display_id);
            }
        }
    }

    /// Grow the selected window to its whole display.
    pub fn set_active_window_full(&mut self) -> (cmds: Vec<Command>)
        requires
            old(self)@.wf(),
        ensures
            final(self)@ == old(self)@.step_set_active_window_full().0,
            cmds@ == old(self)@.step_set_active_window_full().1,
            final(self)@.wf(),
    {
        if let Some(w) = self.get_active_window() {
            match lookup_display(&self.display_info, w.display_id) {
                Some(dinfo) => {
                    proof {
                        crate::layout::lemma_find_display_in(self@.display_info, w.display_id);
                        let j = choose|j: int|
                            0 <= j < self@.display_info.len() && self@.display_info[j] == dinfo;
                        assert(self@.display_info[j].bounds.display_bounds_wf());
                    }
                    let f = dinfo.bounds;
                    self.update_active_window(
                        WindowHandle {
                            id: w.id,
                            pid: w.pid,
                            title_key: w.title_key,
                            frame: f,
                            display_id: w.display_id,
                            frontmost_main: w.frontmost_main,
                        },
                    );
                    let mut cmds: Vec<Command> = Vec::new();
                    cmds.push(Command::SetFrame { window_id: w.id, frame: f });
                    proof {
                        assert(cmds@ =~= old(self)@.step_set_active_window_full().1);
                    }
                    return cmds;
                },
                None => {
                    return Vec::new();
                },
            }
        }
        Vec::new()
    }

    /// Put the selected window in the left half of its display, or jump it
    /// one display left if it already fills that half.
    pub fn set_active_window_left(&mut self) -> (cmds: Vec<Command>)
        requires
            old(self)@.wf(),
        ensures
            final(self)@ == old(self)@.step_set_active_window_left().0,
            cmds@ == old(self)@.step_set_active_window_left().1,
            final(self)@.wf(),
    {
        if let Some(w) = self.get_active_window() {
            match lookup_display(&self.display_info, w.display_id) {
                Some(dinfo) => {
                    proof {
                        crate::layout::lemma_find_display_in(self@.display_info, w.display_id);
                        let j = choose|j: int|
                            0 <= j < self@.display_info.len() && self@.display_info[j] == dinfo;
                        assert(self@.display_info[j].bounds.display_bounds_wf());
                    }
                    let d = dinfo.bounds;
                    if d.x > 0 && w.frame.x == d.x && w.frame.w == d.w / 2 {
                        match display_at_point_exec(&self.display_info, d.x - 1, d.y) {
                            Some(t) => {
                                proof {
                                    lemma_find_display_at_point_in(
                                        self@.display_info,
                                        d.x - 1,
                                        d.y as int,
                                    );
                                    let j = choose|j: int|
                                        0 <= j < self@.display_info.len()
                                            && self@.display_info[j] == t;
                                    assert(self@.display_info[j].bounds.display_bounds_wf());
                                }
                                let f = Rect {
                                    x: t.bounds.x + t.bounds.w / 2,
                                    y: t.bounds.y,
                                    w: t.bounds.w / 2,
                                    h: t.bounds.h,
                                };
                                self.send_active_window_to(
                                    WindowHandle {
                                        id: w.id,
                                        pid: w.pid,
                                        title_key: w.title_key,
                                        frame: f,
                                        display_id: t.id,
                                        frontmost_main: w.frontmost_main,
                                    },
                                );
                                let mut cmds: Vec<Command> = Vec::new();
                                cmds.push(Command::SetFrame { window_id: w.id, frame: f });
                                proof {
                                    assert(cmds@ =~= old(
                                        self,
                                    )@.step_set_active_window_left().1);
                                }
                                return cmds;
                            },
                            None => {
                                return Vec::new();
                            },
                        }
                    } else {
                        let f = Rect { x: d.x, y: d.y, w: d.w / 2, h: d.h };
                        self.update_active_window(
                            WindowHandle {
                                id: w.id,
                                pid: w.pid,
                                title_key: w.title_key,
                                frame: f,
                                display_id: w.display_id,
                                frontmost_main: w.frontmost_main,
                            },
                        );
                        let mut cmds: Vec<Command> = Vec::new();
                        cmds.push(Command::SetFrame { window_id: w.id, frame: f });
                        proof {
                            assert(cmds@ =~= old(self)@.step_set_active_window_left().1);
                        }
                        return cmds;
                    }
                },
                None => {
                    return Vec::new();
                },
            }
        }
        Vec::new()
    }

    /// Put the selected window in the right half of its display, or jump it
    /// one display right if it already fills that half.
    pub fn set_active_window_right(&mut self) -> (cmds: Vec<Command>)
        requires
            old(self)@.wf(),
        ensures
            final(self)@ == old(self)@.step_set_active_window_right().0,
            cmds@ == old(self)@.step_set_active_window_right().1,
            final(self)@.wf(),
    {
        if let Some(w) = self.get_active_window() {
            match lookup_display(&self.display_info, w.display_id) {
                Some(dinfo) => {
                    proof {
                        crate::layout::lemma_find_display_in(self@.display_info, w.display_id);
                        let j = choose|j: int|
                            0 <= j < self@.display_info.len() && self@.display_info[j] == dinfo;
                        assert(self@.display_info[j].bounds.display_bounds_wf());
                    }
                    let d = dinfo.bounds;
                    if w.frame.x == d.x + d.w / 2 && w.frame.w == d.w / 2 {
                        match display_at_point_exec(&self.display_info, d.x + d.w + 1, d.y) {
                            Some(t) => {
                                proof {
                                    lemma_find_display_at_point_in(
                                        self@.display_info,
                                        d.x + d.w + 1,
                                        d.y as int,
                                    );
                                    let j = choose|j: int|
                                        0 <= j < self@.display_info.len()
                                            && self@.display_info[j] == t;
                                    assert(self@.display_info[j].bounds.display_bounds_wf());
                                }
                                let f = Rect {
                                    x: t.bounds.x,
                                    y: t.bounds.y,
                                    w: t.bounds.w / 2,
                                    h: t.bounds.h,
                                };
                                self.send_active_window_to(
                                    WindowHandle {
                                        id: w.id,
                                        pid: w.pid,
                                        title_key: w.title_key,
                                        frame: f,
                                        display_id: t.id,
                                        frontmost_main: w.frontmost_main,
                                    },
                                );
                                let mut cmds: Vec<Command> = Vec::new();
                                cmds.push(Command::SetFrame { window_id: w.id, frame: f });
                                proof {
                                    assert(cmds@ =~= old(
                                        self,
                                    )@.step_set_active_window_right().1);
                                }
                                return cmds;
                            },
                            None => {
                                return Vec::new();
                            },
                        }
                    } else {
                        let f = Rect { x: d.x + d.w / 2, y: d.y, w: d.w / 2, h: d.h };
                        self.update_active_window(
                            WindowHandle {
                                id: w.id,
                                pid: w.pid,
                                title_key: w.title_key,
                                frame: f,
                                display_id: w.display_id,
                                frontmost_main: w.frontmost_main,
                            },
                        );
                        let mut cmds: Vec<Command> = Vec::new();
                        cmds.push(Command::SetFrame { window_id: w.id, frame: f });
                        proof {
                            assert(cmds@ =~= old(self)@.step_set_active_window_right().1);
                        }
                        return cmds;
                    }
                },
                None => {
                    return Vec::new();
                },
            }
        }
        Vec::new()
    }

    /// Perform one action: mutate the model and return the commands for the
    /// platform layer, in order. For the actions that refresh the window
    /// list, the platform layer passes the scan it gathered; without one the
    /// refresh is skipped and the rest of the action still runs.
    ///
    /// See `step_do_action` for what every action does.
    #[verifier::rlimit(60)]
    pub fn do_action(&mut self, action: &Action, scan: Option<WindowScan>) -> (cmds: Vec<Command>)
        requires
            old(self)@.wf(),
            match scan {
                Some(s) => s@.wf(),
                None => true,
            },
        ensures
            final(self)@ == old(self)@.step_do_action(*action, spec_scan(scan)).0,
            cmds@ == old(self)@.step_do_action(*action, spec_scan(scan)).1,
            final(self)@.wf(),
    {
        match *action {
            Action::RelayoutAll => {
                self.refresh_opt(scan);
                let mut cmds = self.relayout_all();
                let mut c3 = self.highlight_active_window();
                cmds.append(&mut c3);
                cmds
            },
            Action::ModeNormal => {
                self.set_mode(Mode::Normal);
                self.refresh_opt(scan);
                let mut cmds = self.open_status_window();
                let mut c3 = self.highlight_active_window();
                cmds.append(&mut c3);
                cmds
            },
            Action::ModeInsert => {
                self.set_mode(Mode::Insert);
                let mut cmds = self.close_highlight_window();
                let mut c3 = self.close_status_window();
                cmds.append(&mut c3);
                cmds
            },
            Action::ModeInsertNormal => {
                self.set_mode(Mode::InsertNormal);
                self.refresh_opt(scan);
                let mut cmds = self.open_status_window();
                let mut c3 = self.highlight_active_window();
                cmds.append(&mut c3);
                cmds
            },
            Action::LayoutFloating => {
                self.set_layout_floating();
                let mut cmds = self.relayout();
                let mut c3 = self.highlight_active_window();
                cmds.append(&mut c3);
                cmds
            },
            Action::LayoutCascade => {
                self.set_layout_cascade();
                let mut cmds = self.relayout();
                let mut c3 = self.highlight_active_window();
                cmds.append(&mut c3);
                cmds
            },
            Action::LayoutTiling => {
                self.set_layout_tile_horizontal();
                let mut cmds = self.relayout();
                let mut c3 = self.highlight_active_window();
                cmds.append(&mut c3);
                cmds
            },
            Action::WindowFull => {
                let mut cmds = self.set_active_window_full();
                let mut c2 = self.highlight_active_window();
                cmds.append(&mut c2);
                cmds
            },
            Action::WindowLeftHalf => {
                let mut cmds = self.set_active_window_left();
                let mut c2 = self.highlight_active_window();
                cmds.append(&mut c2);
                cmds
            },
            Action::WindowRightHalf => {
                let mut cmds = self.set_active_window_right();
                let mut c2 = self.highlight_active_window();
                cmds.append(&mut c2);
                cmds
            },
            Action::WindowMinimize => {
                let mut cmds = self.minimize_active_window();
                let mut ca = self.activate_active_window();
                cmds.append(&mut ca);
                let mut c2 = self.relayout();
                cmds.append(&mut c2);
                let mut c3 = self.highlight_active_window();
                cmds.append(&mut c3);
                cmds
            },
            Action::WindowRestore => {
                let mut cmds = self.unminimize_window();
                let mut ca = self.activate_active_window();
                cmds.append(&mut ca);
                let mut c2 = self.relayout();
                cmds.append(&mut c2);
                let mut c3 = self.highlight_active_window();
                cmds.append(&mut c3);
                cmds
            },
            Action::WindowClose => {
                let mut cmds = self.close_active_window();
                let mut ca = self.activate_active_window();
                cmds.append(&mut ca);
                let mut c2 = self.relayout();
                cmds.append(&mut c2);
                let mut c3 = self.highlight_active_window();
                cmds.append(&mut c3);
                cmds
            },
            _ => self.do_action_motion(action, scan),
        }
    }

    /// The motion and display actions of `do_action`.
    #[verifier::rlimit(60)]
    fn do_action_motion(&mut self, action: &Action, scan: Option<WindowScan>) -> (cmds: Vec<
        Command,
    >)
        requires
            old(self)@.wf(),
            match scan {
                Some(s) => s@.wf(),
                None => true,
            },
            !(*action is RelayoutAll || *action is ModeNormal || *action is ModeInsert || *action
                is ModeInsertNormal || *action is LayoutFloating || *action is LayoutCascade
                || *action is LayoutTiling || *action is WindowFull || *action is WindowLeftHalf
                || *action is WindowRightHalf || *action is WindowMinimize || *action
                is WindowRestore || *action is WindowClose),
        ensures
            final(self)@ == old(self)@.step_do_action(*action, spec_scan(scan)).0,
            cmds@ == old(self)@.step_do_action(*action, spec_scan(scan)).1,
            final(self)@.wf(),
    {
        match *action {
            Action::NextWindow => {
                let mut cmds = self.maybe_enter_normal_mode(scan);
                self.set_next_window_active();
                let mut ca = self.activate_active_window();
                cmds.append(&mut ca);
                let mut c3 = self.highlight_active_window();
                cmds.append(&mut c3);
                cmds
            },
            Action::PrevWindow => {
                let mut cmds = self.maybe_enter_normal_mode(scan);
                self.set_prev_window_active();
                let mut ca = self.activate_active_window();
                cmds.append(&mut ca);
                let mut c3 = self.highlight_active_window();
                cmds.append(&mut c3);
                cmds
            },
            Action::SwapNextWindow => {
                self.swap_window_next();
                let mut cmds = self.relayout();
                let mut c3 = self.highlight_active_window();
                cmds.append(&mut c3);
                cmds
            },
            Action::SwapPrevWindow => {
                self.swap_window_prev();
                let mut cmds = self.relayout();
                let mut c3 = self.highlight_active_window();
                cmds.append(&mut c3);
                cmds
            },
            Action::IncrPrimaryColWidth => {
                self.incr_primary_column_width();
                let mut cmds = self.relayout();
                let mut c3 = self.highlight_active_window();
                cmds.append(&mut c3);
                cmds
            },
            Action::DecrPrimaryColWidth => {
                self.decr_primary_column_width();
                let mut cmds = self.relayout();
                let mut c3 = self.highlight_active_window();
                cmds.append(&mut c3);
                cmds
            },
            Action::IncrPrimaryColWindows => {
                self.incr_primary_column_max_windows();
                let mut cmds = self.relayout();
                let mut c3 = self.highlight_active_window();
                cmds.append(&mut c3);
                cmds
            },
            Action::DecrPrimaryColWindows => {
                self.decr_primary_column_max_windows();
                let mut cmds = self.relayout();
                let mut c3 = self.highlight_active_window();
                cmds.append(&mut c3);
                cmds
            },
            _ => self.do_action_display(action, scan),
        }
    }

    /// The display-motion actions of `do_action`.
    #[verifier::rlimit(60)]
    fn do_action_display(&mut self, action: &Action, scan: Option<WindowScan>) -> (cmds: Vec<
        Command,
    >)
        requires
            old(self)@.wf(),
            match scan {
                Some(s) => s@.wf(),
                None => true,
            },
            *action is NextDisplay || *action is PrevDisplay || *action is MoveWindowToNextDisplay
                || *action is MoveWindowToPrevDisplay || *action is ShowGroup || *action
                is NextGroup || *action is PrevGroup || *action is MoveWindowToGroup || *action
                is ToggleWindowInGroup || *action is MoveWindowToNextGroup || *action
                is MoveWindowToPrevGroup,
        ensures
            final(self)@ == old(self)@.step_do_action(*action, spec_scan(scan)).0,
            cmds@ == old(self)@.step_do_action(*action, spec_scan(scan)).1,
            final(self)@.wf(),
    {
        match *action {
            Action::NextDisplay => {
                let mut cmds = self.maybe_enter_normal_mode(scan);
                self.set_next_display_active();
                let mut ca = self.activate_active_window();
                cmds.append(&mut ca);
                let mut c3 = self.close_status_window();
                cmds.append(&mut c3);
                let mut c4 = self.open_status_window();
                cmds.append(&mut c4);
                let mut c5 = self.highlight_active_window();
                cmds.append(&mut c5);
                cmds
            },
            Action::PrevDisplay => {
                let mut cmds = self.maybe_enter_normal_mode(scan);
                self.set_prev_display_active();
                let mut ca = self.activate_active_window();
                cmds.append(&mut ca);
                let mut c3 = self.close_status_window();
                cmds.append(&mut c3);
                let mut c4 = self.open_status_window();
                cmds.append(&mut c4);
                let mut c5 = self.highlight_active_window();
                cmds.append(&mut c5);
                cmds
            },
            Action::MoveWindowToNextDisplay { follow } => {
                self.move_active_window_to_next_display();
                if follow {
                    self.set_next_display_active();
                }
                let mut cmds = self.relayout_all();
                let mut c4 = self.close_status_window();
                cmds.append(&mut c4);
                let mut c5 = self.open_status_window();
                cmds.append(&mut c5);
                let mut ca = self.activate_active_window();
                cmds.append(&mut ca);
                let mut c6 = self.highlight_active_window();
                cmds.append(&mut c6);
                cmds
            },
            Action::MoveWindowToPrevDisplay { follow } => {
                self.move_active_window_to_prev_display();
                if follow {
                    self.set_prev_display_active();
                }
                let mut cmds = self.relayout_all();
                let mut c4 = self.close_status_window();
                cmds.append(&mut c4);
                let mut c5 = self.open_status_window();
                cmds.append(&mut c5);
                let mut c6 = self.highlight_active_window();
                cmds.append(&mut c6);
                cmds
            },
            _ => self.do_action_group(action, scan),
        }
    }

    /// The group actions of `do_action`.
    #[verifier::rlimit(60)]
    fn do_action_group(&mut self, action: &Action, scan: Option<WindowScan>) -> (cmds: Vec<
        Command,
    >)
        requires
            old(self)@.wf(),
            match scan {
                Some(s) => s@.wf(),
                None => true,
            },
            *action is ShowGroup || *action is NextGroup || *action is PrevGroup || *action
                is MoveWindowToGroup || *action is ToggleWindowInGroup || *action
                is MoveWindowToNextGroup || *action is MoveWindowToPrevGroup,
        ensures
            final(self)@ == old(self)@.step_do_action(*action, spec_scan(scan)).0,
            cmds@ == old(self)@.step_do_action(*action, spec_scan(scan)).1,
            final(self)@.wf(),
    {
        match *action {
            Action::ShowGroup(g_id) => self.show_group(g_id, scan),
            Action::NextGroup => {
                match self.next_group_target() {
                    Some(g_id) => self.show_group(g_id, scan),
                    None => Vec::new(),
                }
            },
            Action::PrevGroup => {
                match self.prev_group_target() {
                    Some(g_id) => self.show_group(g_id, scan),
                    None => Vec::new(),
                }
            },
            Action::MoveWindowToGroup { id, follow } => self.move_window_to_group(id, follow),
            Action::ToggleWindowInGroup(g_id) => {
                self.toggle_active_window_in_group(g_id);
                let mut cmds = self.activate_active_window();
                let mut c2 = self.relayout();
                cmds.append(&mut c2);
                let mut c3 = self.highlight_active_window();
                cmds.append(&mut c3);
                cmds
            },
            Action::MoveWindowToNextGroup { follow } => {
                match self.next_group_target() {
                    Some(g_id) => self.move_window_to_group(g_id, follow),
                    None => Vec::new(),
                }
            },
            Action::MoveWindowToPrevGroup { follow } => {
                match self.prev_group_target() {
                    Some(g_id) => self.move_window_to_group(g_id, follow),
                    None => Vec::new(),
                }
            },
            _ => {
                proof {
                    assert(false);
                }
                Vec::new()
            },
        }
    }

    /// Show group `g_id`: reach Normal-mode behaviour if needed, show the
    /// group, bring it to the front, activate, re-lay it out and show the
    /// highlight.
    fn show_group(&mut self, g_id: u8, scan: Option<WindowScan>) -> (cmds: Vec<Command>)
        requires
            old(self)@.wf(),
            match scan {
                Some(s) => s@.wf(),
                None => true,
            },
        ensures
            final(self)@ == old(self)@.step_show_group(g_id, spec_scan(scan)).0,
            cmds@ == old(self)@.step_show_group(g_id, spec_scan(scan)).1,
            final(self)@.wf(),
    {
        let mut cmds = self.maybe_enter_normal_mode(scan);
        self.set_active_display_group(g_id);
        let mut cf = self.bring_active_display_group_to_front();
        cmds.append(&mut cf);
        let mut ca = self.activate_active_window();
        cmds.append(&mut ca);
        let mut c3 = self.relayout();
        cmds.append(&mut c3);
        let mut c4 = self.highlight_active_window();
        cmds.append(&mut c4);
        cmds
    }

    /// Move the selected window to group `g_id`, optionally following it.
    fn move_window_to_group(&mut self, g_id: u8, follow: bool) -> (cmds: Vec<Command>)
        requires
            old(self)@.wf(),
        ensures
            final(self)@ == old(self)@.step_move_window_to_group(g_id, follow).0,
            cmds@ == old(self)@.step_move_window_to_group(g_id, follow).1,
            final(self)@.wf(),
    {
        self.move_active_window_to_group(g_id);
        if follow {
            self.set_active_display_group(g_id);
        }
        let mut cmds = self.activate_active_window();
        let mut c3 = self.relayout();
        cmds.append(&mut c3);
        let mut c4 = self.highlight_active_window();
        cmds.append(&mut c4);
        cmds
    }

    /// A full refresh from a window scan; see `step_refresh` for the exact
    /// rule. The platform layer gathers the scan and hands it in whole.
    pub fn refresh_window_list(&mut self, scan: WindowScan)
        requires
            old(self)@.wf(),
            scan@.wf(),
        ensures
            final(self)@ == old(self)@.step_refresh(scan@),
            final(self)@.wf(),
    {
        let ghost scan_model = scan@;
        let WindowScan { displays: info, open_windows, minimized_windows, own_pid } = scan;
        self.display_info = info;
        self.active_display_idx = None;
        self.minimized_windows = minimized_windows;
        proof {
            assert(self@.wf());
        }
        self.retain_refresh(&open_windows);
        let ghost m1g = self@;
        proof {
            assert(m1g =~~= (WmModel {
                active_display_idx: None,
                display_info: scan_model.displays,
                displays: retain_refresh_displays(
                    old(self)@.displays,
                    scan_model.displays,
                    scan_model.open_windows,
                ),
                minimized_windows: scan_model.minimized_windows,
                ..old(self)@
            }));
        }
        let mut i: usize = 0;
        while i < open_windows.len()
            invariant
                i <= open_windows@.len(),
                insert_all(m1g, open_windows@, own_pid, 0) == insert_all(
                    self@,
                    open_windows@,
                    own_pid,
                    i as int,
                ),
                self@.wf(),
                forall|j: int|
                    0 <= j < open_windows@.len() ==> (
                    #[trigger] open_windows@[j]).frame.frame_wf(),
            decreases open_windows@.len() - i,
        {
            let w = open_windows[i];
            if w.pid != own_pid {
                if !self.window_exists_exec(&w) {
                    self.insert_open_window(w, w.display_id);
                }
            }
            i += 1;
        }
        proof {
            assert(insert_all(self@, open_windows@, own_pid, i as int) == self@);
        }
        self.refresh_active_window();
    }

    /// Insert a newly discovered window into the group shown on its display;
    /// see `step_insert_open_window` for the exact rule.
    fn insert_open_window(&mut self, window: WindowHandle, display_id: u32)
        requires
            old(self)@.wf(),
            window.frame.frame_wf(),
        ensures
            final(self)@ == old(self)@.step_insert_open_window(window, display_id),
            final(self)@.wf(),
    {
        match self.display_state_index(display_id) {
            Some(di) => {
                self.displays[di].insert_open_window(window);
                proof {
                    assert(self@.displays =~= old(self)@.step_insert_open_window(
                        window,
                        display_id,
                    ).displays);
                    lemma_with_display_at_wf(
                        old(self)@,
                        di as int,
                        old(self)@.displays[di as int].step_insert_open(window),
                    );
                }
            },
            None => {
                self.displays.push(DisplayState::new(display_id, window));
                proof {
                    assert(self@.displays =~= old(self)@.step_insert_open_window(
                        window,
                        display_id,
                    ).displays);
                    lemma_find_display_state_props(old(self)@.displays, display_id);
                    lemma_display_initial_wf(display_id, window);
                    lemma_push_display_wf(old(self)@, DisplayModel::initial(display_id, window));
                }
            },
        }
    }
}

} // verus!
