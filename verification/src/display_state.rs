//! One physical display: its window groups keyed by a small integer id, and
//! which group is currently shown.
//!
//! Groups are held as an association list in creation order; ids are unique.
//! Group operations enforce the no-orphan rule: a toggle may remove a window
//! from a group only while the window still lives in another group of this
//! display.

use vstd::prelude::*;

use crate::command::{Command, DisplayInfo};
use crate::group::{
    first_index_with_id, lemma_first_index_with_id_props, opt_idx, GroupModel, WindowGroup,
};
use crate::layout::{find_display, Layout, MAX_WINDOWS};
use crate::window::WindowHandle;

verus! {

/// One group and the id it is filed under.
#[derive(Debug)]
pub struct GroupEntry {
    pub id: u8,
    pub group: WindowGroup,
}

/// A group entry seen as mathematical values.
#[verifier::ext_equal]
pub ghost struct GroupEntryModel {
    pub id: u8,
    pub group: GroupModel,
}

impl View for GroupEntry {
    type V = GroupEntryModel;

    open spec fn view(&self) -> GroupEntryModel {
        GroupEntryModel { id: self.id, group: self.group@ }
    }
}

/// The state of one display.
#[derive(Debug)]
pub struct DisplayState {
    pub display_id: u32,
    pub active_group: Option<u8>,
    pub groups: Vec<GroupEntry>,
}

/// The display state seen as mathematical values.
#[verifier::ext_equal]
pub ghost struct DisplayModel {
    pub display_id: u32,
    pub active_group: Option<u8>,
    pub groups: Seq<GroupEntryModel>,
}

impl View for DisplayState {
    type V = DisplayModel;

    open spec fn view(&self) -> DisplayModel {
        DisplayModel {
            display_id: self.display_id,
            active_group: self.active_group,
            groups: Seq::new(self.groups@.len(), |i: int| self.groups@[i]@),
        }
    }
}

/// The index of the first entry filed under `id`, if any.
pub open spec fn find_group(groups: Seq<GroupEntryModel>, id: u8) -> Option<int>
    decreases groups.len(),
{
    if groups.len() == 0 {
        None
    } else if groups[0].id == id {
        Some(0int)
    } else {
        match find_group(groups.drop_first(), id) {
            Some(i) => Some(i + 1),
            None => None,
        }
    }
}

/// What `find_group` returns: the first index filed under `id`, or a
/// guarantee that none is.
pub proof fn lemma_find_group_props(groups: Seq<GroupEntryModel>, id: u8)
    ensures
        match find_group(groups, id) {
            Some(i) => 0 <= i < groups.len() && groups[i].id == id && (forall|j: int|
                0 <= j < i ==> groups[j].id != id),
            None => forall|j: int| 0 <= j < groups.len() ==> groups[j].id != id,
        },
    decreases groups.len(),
{
    if groups.len() > 0 && groups[0].id != id {
        let dgs = groups.drop_first();
        lemma_find_group_props(dgs, id);
        match find_group(dgs, id) {
            Some(i) => {
                assert(dgs[i] == groups[i + 1]);
                assert forall|j: int| 0 <= j < i + 1 implies groups[j].id != id by {
                    if j > 0 {
                        assert(dgs[j - 1] == groups[j]);
                    }
                }
            },
            None => {
                assert forall|j: int| 0 <= j < groups.len() implies groups[j].id != id by {
                    if j > 0 {
                        assert(dgs[j - 1] == groups[j]);
                    }
                }
            },
        }
    }
}

/// `find_group` finds exactly the first hit.
pub proof fn lemma_find_group_some(groups: Seq<GroupEntryModel>, id: u8, i: int)
    requires
        0 <= i < groups.len(),
        groups[i].id == id,
        forall|j: int| 0 <= j < i ==> groups[j].id != id,
    ensures
        find_group(groups, id) == Some(i),
    decreases i,
{
    if i > 0 {
        assert(groups[0].id != id);
        let dgs = groups.drop_first();
        assert forall|j: int| 0 <= j < i - 1 implies (#[trigger] dgs[j]).id != id by {
            assert(dgs[j] == groups[j + 1]);
        }
        assert(dgs[i - 1] == groups[i]);
        lemma_find_group_some(dgs, id, i - 1);
    }
}

impl DisplayModel {
    /// The display invariant: group ids are pairwise distinct and every group
    /// keeps its own invariant.
    pub open spec fn wf(self) -> bool {
        &&& forall|i: int, j: int|
            0 <= i < j < self.groups.len() ==> self.groups[i].id != self.groups[j].id
        &&& forall|i: int| 0 <= i < self.groups.len() ==> (#[trigger] self.groups[i]).group.wf()
    }

    /// The index of the currently shown group, if it exists.
    pub open spec fn active_group_idx(self) -> Option<int> {
        match self.active_group {
            Some(gid) => find_group(self.groups, gid),
            None => None,
        }
    }

    /// The currently shown group, if it exists.
    pub open spec fn active_group_model(self) -> Option<GroupModel> {
        match self.active_group_idx() {
            Some(i) => Some(self.groups[i].group),
            None => None,
        }
    }

    /// The selected window of the shown group, if any.
    pub open spec fn active_window(self) -> Option<WindowHandle> {
        match self.active_group_model() {
            Some(g) => g.active_window(),
            None => None,
        }
    }

    /// This display with the group at index `i` replaced.
    pub open spec fn with_group_at(self, i: int, g: GroupModel) -> DisplayModel {
        DisplayModel {
            groups: self.groups.update(i, GroupEntryModel { id: self.groups[i].id, group: g }),
            ..self
        }
    }

    /// This display with `f`-like update applied to the shown group, if any;
    /// the helper form used by the step functions below.
    pub open spec fn step_set_active(self, a: Option<int>) -> DisplayModel {
        match self.active_group_idx() {
            Some(i) => self.with_group_at(i, self.groups[i].group.with_active(a)),
            None => self,
        }
    }

    /// The shown group's selection moved to its successor.
    pub open spec fn step_set_next_window_active(self) -> DisplayModel {
        match self.active_group_idx() {
            Some(i) => self.step_set_active(self.groups[i].group.next_idx()),
            None => self,
        }
    }

    /// The shown group's selection moved to its predecessor.
    pub open spec fn step_set_prev_window_active(self) -> DisplayModel {
        match self.active_group_idx() {
            Some(i) => self.step_set_active(self.groups[i].group.prev_idx()),
            None => self,
        }
    }

    /// The shown group's swap-with-successor.
    pub open spec fn step_swap_next(self) -> DisplayModel {
        match self.active_group_idx() {
            Some(i) => self.with_group_at(i, self.groups[i].group.step_swap_next()),
            None => self,
        }
    }

    /// The shown group's swap-with-predecessor.
    pub open spec fn step_swap_prev(self) -> DisplayModel {
        match self.active_group_idx() {
            Some(i) => self.with_group_at(i, self.groups[i].group.step_swap_prev()),
            None => self,
        }
    }

    /// The selected window popped out of the shown group.
    pub open spec fn step_pop(self) -> (DisplayModel, Option<WindowHandle>) {
        match self.active_group_idx() {
            Some(i) => {
                let (g, w) = self.groups[i].group.step_pop();
                (self.with_group_at(i, g), w)
            },
            None => (self, None),
        }
    }

    /// A fresh display state holding one window in group 1.
    pub open spec fn initial(display_id: u32, w: WindowHandle) -> DisplayModel {
        DisplayModel {
            display_id,
            active_group: Some(1u8),
            groups: seq![GroupEntryModel { id: 1u8, group: GroupModel::initial(w) }],
        }
    }

    /// The selected window moved from the shown group to group `g_id`: popped
    /// from its group and inserted at the front of the target, which is
    /// created if absent. A window already in the target (possible after
    /// toggles) is simply dropped from its old group; a target at capacity
    /// leaves the popped window untracked until the next refresh.
    pub open spec fn step_move_active_to_group(self, g_id: u8) -> DisplayModel {
        let (d1, wopt) = self.step_pop();
        match wopt {
            None => d1,
            Some(w) => match find_group(d1.groups, g_id) {
                Some(i) => {
                    let g = d1.groups[i].group;
                    if exists|k: int| 0 <= k < g.windows.len() && g.windows[k].id == w.id {
                        d1
                    } else if g.windows.len() < MAX_WINDOWS {
                        d1.with_group_at(i, g.step_insert_front(w))
                    } else {
                        d1
                    }
                },
                None => DisplayModel {
                    groups: d1.groups.push(GroupEntryModel { id: g_id, group: GroupModel::initial(w) }),
                    ..d1
                },
            },
        }
    }

    /// Whether the window with handle id `wid` lives in some group other
    /// than `g_id`.
    pub open spec fn window_in_another_group(self, g_id: u8, wid: u64) -> bool {
        exists|j: int, k: int|
            0 <= j < self.groups.len() && self.groups[j].id != g_id && 0 <= k
                < self.groups[j].group.windows.len() && self.groups[j].group.windows[k].id == wid
    }

    /// The commands that bring every window of the shown group to the front.
    pub open spec fn front_cmds(self) -> Seq<Command> {
        match self.active_group_model() {
            Some(g) => Seq::new(
                g.windows.len(),
                |i: int| Command::Activate { window_id: g.windows[i].id },
            ),
            None => Seq::empty(),
        }
    }

    /// The shown group given layout `l`.
    pub open spec fn step_set_layout(self, l: Layout) -> DisplayModel {
        match self.active_group_idx() {
            Some(i) => self.with_group_at(
                i,
                GroupModel { layout: l, ..self.groups[i].group },
            ),
            None => self,
        }
    }

    /// The shown group switched to the tiling layout built from its
    /// parameters.
    pub open spec fn step_set_layout_tile(self) -> DisplayModel {
        match self.active_group_idx() {
            Some(i) => self.with_group_at(
                i,
                GroupModel { layout: self.groups[i].group.tile_layout(), ..self.groups[i].group },
            ),
            None => self,
        }
    }

    /// The shown group's layout run on this display, if the display is
    /// known.
    pub open spec fn step_relayout(self, displays: Seq<DisplayInfo>) -> (
        DisplayModel,
        Seq<Command>,
    ) {
        match find_display(displays, self.display_id) {
            None => (self, Seq::empty()),
            Some(di) => match self.active_group_idx() {
                Some(i) => {
                    let (g, cmds) = self.groups[i].group.step_relayout(di, displays);
                    (self.with_group_at(i, g), cmds)
                },
                None => (self, Seq::empty()),
            },
        }
    }

    /// The shown group's primary column allowed one more window.
    pub open spec fn step_group_incr_pcmw(self) -> DisplayModel {
        match self.active_group_idx() {
            Some(i) => self.with_group_at(i, self.groups[i].group.step_incr_pcmw()),
            None => self,
        }
    }

    /// The shown group's primary column allowed one window fewer.
    pub open spec fn step_group_decr_pcmw(self) -> DisplayModel {
        match self.active_group_idx() {
            Some(i) => self.with_group_at(i, self.groups[i].group.step_decr_pcmw()),
            None => self,
        }
    }

    /// The shown group's primary column widened.
    pub open spec fn step_group_incr_pct(self) -> DisplayModel {
        match self.active_group_idx() {
            Some(i) => self.with_group_at(i, self.groups[i].group.step_incr_pct()),
            None => self,
        }
    }

    /// The shown group's primary column narrowed.
    pub open spec fn step_group_decr_pct(self) -> DisplayModel {
        match self.active_group_idx() {
            Some(i) => self.with_group_at(i, self.groups[i].group.step_decr_pct()),
            None => self,
        }
    }

    /// A newly discovered window inserted: at the front of the shown group,
    /// or into a fresh group 0 if no group is shown (replacing a stale group
    /// 0 wholesale, as a map insertion would). A full group leaves the
    /// window untracked until the next refresh.
    pub open spec fn step_insert_open(self, w: WindowHandle) -> DisplayModel {
        match self.active_group_idx() {
            Some(gi) => {
                let g = self.groups[gi].group;
                if g.windows.len() < MAX_WINDOWS {
                    self.with_group_at(gi, g.step_insert_front(w))
                } else {
                    self
                }
            },
            None => {
                let entry = GroupEntryModel { id: 0u8, group: GroupModel::initial(w) };
                match find_group(self.groups, 0u8) {
                    Some(i) => DisplayModel {
                        active_group: Some(0u8),
                        groups: self.groups.update(i, entry),
                        ..self
                    },
                    None => DisplayModel {
                        active_group: Some(0u8),
                        groups: self.groups.push(entry),
                        ..self
                    },
                }
            },
        }
    }

    /// The selected window toggled in group `g_id`: removed from it if
    /// present there — but only while it also lives in another group, the
    /// no-orphan rule — and added to its front (or a fresh group) otherwise.
    pub open spec fn step_toggle_active_in_group(self, g_id: u8) -> DisplayModel {
        match self.active_window() {
            None => self,
            Some(w) => {
                let other = self.window_in_another_group(g_id, w.id);
                match find_group(self.groups, g_id) {
                    Some(i) => {
                        let g = self.groups[i].group;
                        match first_index_with_id(g.windows, w.id) {
                            Some(w_idx) => if other {
                                self.with_group_at(i, g.step_remove_at(w_idx))
                            } else {
                                self
                            },
                            None => if g.windows.len() < MAX_WINDOWS {
                                self.with_group_at(i, g.step_insert_front(w))
                            } else {
                                self
                            },
                        }
                    },
                    None => DisplayModel {
                        groups: self.groups.push(
                            GroupEntryModel { id: g_id, group: GroupModel::initial(w) },
                        ),
                        ..self
                    },
                }
            },
        }
    }
}


// ---------------------------------------------------------------------------
// Refreshing from a window scan
// ---------------------------------------------------------------------------

/// The first scan entry with the same identity as `w`, if any.
pub open spec fn first_ident_match(open: Seq<WindowHandle>, w: WindowHandle) -> Option<int>
    decreases open.len(),
{
    if open.len() == 0 {
        None
    } else if w.same_ident(open[0]) {
        Some(0int)
    } else {
        match first_ident_match(open.drop_first(), w) {
            Some(i) => Some(i + 1),
            None => None,
        }
    }
}

/// What `first_ident_match` returns.
pub proof fn lemma_first_ident_match_props(open: Seq<WindowHandle>, w: WindowHandle)
    ensures
        match first_ident_match(open, w) {
            Some(i) => 0 <= i < open.len() && w.same_ident(open[i]) && (forall|j: int|
                0 <= j < i ==> !w.same_ident(open[j])),
            None => forall|j: int| 0 <= j < open.len() ==> !w.same_ident(open[j]),
        },
    decreases open.len(),
{
    if open.len() > 0 && !w.same_ident(open[0]) {
        let rest = open.drop_first();
        lemma_first_ident_match_props(rest, w);
        match first_ident_match(rest, w) {
            Some(i) => {
                assert(rest[i] == open[i + 1]);
                assert forall|j: int| 0 <= j < i + 1 implies !w.same_ident(open[j]) by {
                    if j > 0 {
                        assert(rest[j - 1] == open[j]);
                    }
                }
            },
            None => {
                assert forall|j: int| 0 <= j < open.len() implies !w.same_ident(open[j]) by {
                    if j > 0 {
                        assert(rest[j - 1] == open[j]);
                    }
                }
            },
        }
    }
}

/// `first_ident_match` finds exactly the first hit.
pub proof fn lemma_first_ident_match_some(open: Seq<WindowHandle>, w: WindowHandle, i: int)
    requires
        0 <= i < open.len(),
        w.same_ident(open[i]),
        forall|j: int| 0 <= j < i ==> !w.same_ident(open[j]),
    ensures
        first_ident_match(open, w) == Some(i),
    decreases i,
{
    if i > 0 {
        assert(!w.same_ident(open[0]));
        let rest = open.drop_first();
        assert forall|j: int| 0 <= j < i - 1 implies !w.same_ident(#[trigger] rest[j]) by {
            assert(rest[j] == open[j + 1]);
        }
        assert(rest[i - 1] == open[i]);
        lemma_first_ident_match_some(rest, w, i - 1);
    }
}

/// A kept window with its volatile attributes re-read from its scan entry:
/// the display it sits on and whether it is frontmost and main. Its handle
/// id and its identity are untouched (a matching entry has the same frame by
/// definition of identity).
pub open spec fn refreshed_window(w: WindowHandle, e: WindowHandle) -> WindowHandle {
    WindowHandle {
        id: w.id,
        pid: w.pid,
        title_key: w.title_key,
        frame: w.frame,
        display_id: e.display_id,
        frontmost_main: e.frontmost_main,
    }
}

/// A group's windows reduced to those the scan still reports open, each
/// refreshed from its scan entry, in their original order.
pub open spec fn filter_windows(ws: Seq<WindowHandle>, open: Seq<WindowHandle>) -> Seq<
    WindowHandle,
>
    decreases ws.len(),
{
    if ws.len() == 0 {
        Seq::empty()
    } else {
        let rest = filter_windows(ws.drop_first(), open);
        match first_ident_match(open, ws[0]) {
            Some(j) => seq![refreshed_window(ws[0], open[j])] + rest,
            None => rest,
        }
    }
}

/// Filtering never grows a window list and keeps every frame representable.
pub proof fn lemma_filter_windows_wf(ws: Seq<WindowHandle>, open: Seq<WindowHandle>)
    requires
        forall|i: int| 0 <= i < ws.len() ==> (#[trigger] ws[i]).frame.frame_wf(),
    ensures
        filter_windows(ws, open).len() <= ws.len(),
        forall|i: int|
            0 <= i < filter_windows(ws, open).len() ==> (
            #[trigger] filter_windows(ws, open)[i]).frame.frame_wf(),
    decreases ws.len(),
{
    if ws.len() > 0 {
        let rest = ws.drop_first();
        assert forall|i: int| 0 <= i < rest.len() implies (#[trigger] rest[i]).frame.frame_wf() by {
            assert(rest[i] == ws[i + 1]);
        }
        lemma_filter_windows_wf(rest, open);
        assert(ws[0].frame.frame_wf());
    }
}

/// Every filtered window keeps its identity from the group's list, and
/// matches some open scan entry.
pub proof fn lemma_filter_windows_idents(ws: Seq<WindowHandle>, open: Seq<WindowHandle>)
    ensures
        forall|k: int|
            0 <= k < filter_windows(ws, open).len() ==> exists|j: int|
                0 <= j < ws.len() && (#[trigger] filter_windows(ws, open)[k]).same_ident(ws[j]),
        forall|k: int|
            0 <= k < filter_windows(ws, open).len() ==> exists|j: int|
                0 <= j < open.len() && (#[trigger] filter_windows(ws, open)[k]).same_ident(
                    open[j],
                ),
    decreases ws.len(),
{
    if ws.len() > 0 {
        let rest_in = ws.drop_first();
        lemma_filter_windows_idents(rest_in, open);
        let rest = filter_windows(rest_in, open);
        let out = filter_windows(ws, open);
        lemma_first_ident_match_props(open, ws[0]);
        let shift: int = match first_ident_match(open, ws[0]) {
            Some(j0) => 1,
            None => 0,
        };
        assert forall|k: int| 0 <= k < out.len() implies exists|j: int|
            0 <= j < ws.len() && (#[trigger] out[k]).same_ident(ws[j]) by {
            if k < shift {
                let j0 = first_ident_match(open, ws[0])->0;
                assert(out[0] == refreshed_window(ws[0], open[j0]));
                assert(out[0].same_ident(ws[0]));
            } else {
                assert(out[k] == rest[k - shift]);
                let j = choose|j: int|
                    0 <= j < rest_in.len() && (#[trigger] rest[k - shift]).same_ident(rest_in[j]);
                assert(rest_in[j] == ws[j + 1]);
            }
        }
        assert forall|k: int| 0 <= k < out.len() implies exists|j: int|
            0 <= j < open.len() && (#[trigger] out[k]).same_ident(open[j]) by {
            if k < shift {
                let j0 = first_ident_match(open, ws[0])->0;
                assert(out[0] == refreshed_window(ws[0], open[j0]));
                assert(out[0].same_ident(open[j0]));
            } else {
                assert(out[k] == rest[k - shift]);
                let j = choose|j: int|
                    0 <= j < open.len() && (#[trigger] rest[k - shift]).same_ident(open[j]);
                assert(out[k].same_ident(open[j]));
            }
        }
    }
}

/// Filtering a list with pairwise-distinct identities leaves the identities
/// pairwise distinct.
pub proof fn lemma_filter_windows_nodup(ws: Seq<WindowHandle>, open: Seq<WindowHandle>)
    requires
        forall|a: int, b: int| 0 <= a < b < ws.len() ==> !ws[a].same_ident(ws[b]),
    ensures
        forall|a: int, b: int|
            0 <= a < b < filter_windows(ws, open).len() ==> !filter_windows(ws, open)[a].same_ident(
                filter_windows(ws, open)[b],
            ),
    decreases ws.len(),
{
    if ws.len() > 0 {
        let rest_in = ws.drop_first();
        assert forall|a: int, b: int| 0 <= a < b < rest_in.len() implies !(
        #[trigger] rest_in[a]).same_ident(#[trigger] rest_in[b]) by {
            assert(rest_in[a] == ws[a + 1]);
            assert(rest_in[b] == ws[b + 1]);
        }
        lemma_filter_windows_nodup(rest_in, open);
        lemma_filter_windows_idents(rest_in, open);
        let rest = filter_windows(rest_in, open);
        let out = filter_windows(ws, open);
        lemma_first_ident_match_props(open, ws[0]);
        let shift: int = match first_ident_match(open, ws[0]) {
            Some(j0) => 1,
            None => 0,
        };
        assert forall|a: int, b: int| 0 <= a < b < out.len() implies !out[a].same_ident(
            out[b],
        ) by {
            assert(out[b] == rest[b - shift]);
            let j = choose|j: int|
                0 <= j < rest_in.len() && (#[trigger] rest[b - shift]).same_ident(rest_in[j]);
            assert(rest_in[j] == ws[j + 1]);
            if a < shift {
                let j0 = first_ident_match(open, ws[0])->0;
                assert(out[0] == refreshed_window(ws[0], open[j0]));
                assert(out[0].same_ident(ws[0]));
                assert(!ws[0].same_ident(ws[j + 1]));
            } else {
                assert(out[a] == rest[a - shift]);
            }
        }
    }
}

impl GroupModel {
    /// The group refreshed from a scan: stale windows dropped, kept ones
    /// updated, and the selection repaired to stay valid.
    pub open spec fn step_refresh(self, open: Seq<WindowHandle>) -> GroupModel {
        let ws = filter_windows(self.windows, open);
        let a = if ws.len() == 0 {
            None
        } else {
            match self.active_window_idx {
                Some(i) => if i < ws.len() {
                    Some(i)
                } else {
                    Some(ws.len() - 1)
                },
                None => Some(0int),
            }
        };
        GroupModel { windows: ws, active_window_idx: a, ..self }
    }
}

impl DisplayModel {
    /// Every group of the display refreshed from a scan.
    pub open spec fn step_refresh(self, open: Seq<WindowHandle>) -> DisplayModel {
        DisplayModel {
            groups: Seq::new(
                self.groups.len(),
                |i: int| GroupEntryModel {
                    id: self.groups[i].id,
                    group: self.groups[i].group.step_refresh(open),
                },
            ),
            ..self
        }
    }
}

/// The first index in `ws` of a window reported frontmost and main, if any.
pub open spec fn first_frontmost_in_windows(ws: Seq<WindowHandle>) -> Option<int>
    decreases ws.len(),
{
    if ws.len() == 0 {
        None
    } else if ws[0].frontmost_main {
        Some(0int)
    } else {
        match first_frontmost_in_windows(ws.drop_first()) {
            Some(i) => Some(i + 1),
            None => None,
        }
    }
}

/// What `first_frontmost_in_windows` returns.
pub proof fn lemma_first_frontmost_in_windows_props(ws: Seq<WindowHandle>)
    ensures
        match first_frontmost_in_windows(ws) {
            Some(i) => 0 <= i < ws.len() && ws[i].frontmost_main && (forall|j: int|
                0 <= j < i ==> !ws[j].frontmost_main),
            None => forall|j: int| 0 <= j < ws.len() ==> !ws[j].frontmost_main,
        },
    decreases ws.len(),
{
    if ws.len() > 0 && !ws[0].frontmost_main {
        let rest = ws.drop_first();
        lemma_first_frontmost_in_windows_props(rest);
        match first_frontmost_in_windows(rest) {
            Some(i) => {
                assert(rest[i] == ws[i + 1]);
                assert forall|j: int| 0 <= j < i + 1 implies !ws[j].frontmost_main by {
                    if j > 0 {
                        assert(rest[j - 1] == ws[j]);
                    }
                }
            },
            None => {
                assert forall|j: int| 0 <= j < ws.len() implies !ws[j].frontmost_main by {
                    if j > 0 {
                        assert(rest[j - 1] == ws[j]);
                    }
                }
            },
        }
    }
}

/// `first_frontmost_in_windows` finds exactly the first hit.
pub proof fn lemma_first_frontmost_in_windows_some(ws: Seq<WindowHandle>, i: int)
    requires
        0 <= i < ws.len(),
        ws[i].frontmost_main,
        forall|j: int| 0 <= j < i ==> !ws[j].frontmost_main,
    ensures
        first_frontmost_in_windows(ws) == Some(i),
    decreases i,
{
    if i > 0 {
        assert(!ws[0].frontmost_main);
        let rest = ws.drop_first();
        assert forall|j: int| 0 <= j < i - 1 implies !(#[trigger] rest[j]).frontmost_main by {
            assert(rest[j] == ws[j + 1]);
        }
        assert(rest[i - 1] == ws[i]);
        lemma_first_frontmost_in_windows_some(rest, i - 1);
    }
}

/// The first (group index, window index) of a window reported frontmost and
/// main on this display, searching groups in order.
pub open spec fn first_frontmost_in_groups(groups: Seq<GroupEntryModel>) -> Option<(int, int)>
    decreases groups.len(),
{
    if groups.len() == 0 {
        None
    } else {
        match first_frontmost_in_windows(groups[0].group.windows) {
            Some(wi) => Some((0int, wi)),
            None => match first_frontmost_in_groups(groups.drop_first()) {
                Some(p) => Some((p.0 + 1, p.1)),
                None => None,
            },
        }
    }
}

/// What `first_frontmost_in_groups` returns.
pub proof fn lemma_first_frontmost_in_groups_props(groups: Seq<GroupEntryModel>)
    ensures
        match first_frontmost_in_groups(groups) {
            Some(p) => 0 <= p.0 < groups.len() && first_frontmost_in_windows(
                groups[p.0].group.windows,
            ) == Some(p.1) && (forall|j: int|
                0 <= j < p.0 ==> first_frontmost_in_windows(
                    (#[trigger] groups[j]).group.windows,
                ) is None),
            None => forall|j: int|
                0 <= j < groups.len() ==> first_frontmost_in_windows(
                    (#[trigger] groups[j]).group.windows,
                ) is None,
        },
    decreases groups.len(),
{
    if groups.len() > 0 && first_frontmost_in_windows(groups[0].group.windows) is None {
        let rest = groups.drop_first();
        lemma_first_frontmost_in_groups_props(rest);
        match first_frontmost_in_groups(rest) {
            Some(p) => {
                assert(rest[p.0] == groups[p.0 + 1]);
                assert forall|j: int| 0 <= j < p.0 + 1 implies first_frontmost_in_windows(
                    (#[trigger] groups[j]).group.windows,
                ) is None by {
                    if j > 0 {
                        assert(rest[j - 1] == groups[j]);
                    }
                }
            },
            None => {
                assert forall|j: int| 0 <= j < groups.len() implies first_frontmost_in_windows(
                    (#[trigger] groups[j]).group.windows,
                ) is None by {
                    if j > 0 {
                        assert(rest[j - 1] == groups[j]);
                    }
                }
            },
        }
    }
}

/// `first_frontmost_in_groups` finds exactly the first hit.
pub proof fn lemma_first_frontmost_in_groups_some(groups: Seq<GroupEntryModel>, gi: int, wi: int)
    requires
        0 <= gi < groups.len(),
        first_frontmost_in_windows(groups[gi].group.windows) == Some(wi),
        forall|j: int|
            0 <= j < gi ==> first_frontmost_in_windows(
                (#[trigger] groups[j]).group.windows,
            ) is None,
    ensures
        first_frontmost_in_groups(groups) == Some((gi, wi)),
    decreases gi,
{
    if gi > 0 {
        assert(first_frontmost_in_windows(groups[0].group.windows) is None);
        let rest = groups.drop_first();
        assert forall|j: int| 0 <= j < gi - 1 implies first_frontmost_in_windows(
            (#[trigger] rest[j]).group.windows,
        ) is None by {
            assert(rest[j] == groups[j + 1]);
        }
        assert(rest[gi - 1] == groups[gi]);
        lemma_first_frontmost_in_groups_some(rest, gi - 1, wi);
    }
}

/// Refreshing a well-formed display from a scan keeps it well-formed.
pub proof fn lemma_display_refresh_wf(d: DisplayModel, open: Seq<WindowHandle>)
    requires
        d.wf(),
        forall|i: int| 0 <= i < open.len() ==> (#[trigger] open[i]).frame.frame_wf(),
    ensures
        d.step_refresh(open).wf(),
{
    let r = d.step_refresh(open);
    assert forall|gi: int| 0 <= gi < r.groups.len() implies (
    #[trigger] r.groups[gi]).group.wf() by {
        let g0 = d.groups[gi].group;
        assert(g0.wf());
        lemma_filter_windows_wf(g0.windows, open);
        assert(r.groups[gi].group =~= g0.step_refresh(open));
    }
    assert forall|a: int, b: int| 0 <= a < b < r.groups.len() implies r.groups[a].id
        != r.groups[b].id by {
        assert(r.groups[a].id == d.groups[a].id);
        assert(r.groups[b].id == d.groups[b].id);
    }
}

/// The first scan entry with the same identity as `w`, if any.
fn first_ident_match_exec(open: &Vec<WindowHandle>, w: &WindowHandle) -> (r: Option<usize>)
    ensures
        opt_idx(r) == first_ident_match(open@, *w),
        match r {
            Some(i) => i < open@.len() && w.same_ident(open@[i as int]),
            None => true,
        },
{
    let mut i: usize = 0;
    while i < open.len()
        invariant
            i <= open@.len(),
            forall|j: int| 0 <= j < i ==> !w.same_ident(#[trigger] open@[j]),
        decreases open@.len() - i,
    {
        if w.is_same_window(&open[i]) {
            proof {
                lemma_first_ident_match_some(open@, *w, i as int);
            }
            return Some(i);
        }
        i += 1;
    }
    proof {
        lemma_first_ident_match_props(open@, *w);
    }
    None
}

/// A window list reduced to the windows the scan still reports, refreshed.
fn filter_windows_exec(ws: &Vec<WindowHandle>, open: &Vec<WindowHandle>) -> (r: Vec<WindowHandle>)
    ensures
        r@ == filter_windows(ws@, open@),
{
    let mut out: Vec<WindowHandle> = Vec::new();
    let mut i: usize = 0;
    proof {
        assert(ws@.skip(0) =~= ws@);
    }
    while i < ws.len()
        invariant
            i <= ws@.len(),
            filter_windows(ws@, open@) == out@ + filter_windows(ws@.skip(i as int), open@),
        decreases ws@.len() - i,
    {
        let w = ws[i];
        proof {
            assert(ws@.skip(i as int)[0] == ws@[i as int]);
            assert(ws@.skip(i as int).drop_first() =~= ws@.skip(i as int + 1));
        }
        match first_ident_match_exec(open, &w) {
            Some(j) => {
                let e = open[j];
                out.push(
                    WindowHandle {
                        id: w.id,
                        pid: w.pid,
                        title_key: w.title_key,
                        frame: w.frame,
                        display_id: e.display_id,
                        frontmost_main: e.frontmost_main,
                    },
                );
                proof {
                    assert(filter_windows(ws@.skip(i as int), open@) =~= seq![
                        refreshed_window(w, e),
                    ] + filter_windows(ws@.skip(i as int + 1), open@));
                    assert(filter_windows(ws@, open@) =~= out@ + filter_windows(
                        ws@.skip(i as int + 1),
                        open@,
                    ));
                }
            },
            None => {
                proof {
                    assert(filter_windows(ws@, open@) =~= out@ + filter_windows(
                        ws@.skip(i as int + 1),
                        open@,
                    ));
                }
            },
        }
        i += 1;
    }
    proof {
        assert(ws@.skip(i as int).len() == 0);
        assert(filter_windows(ws@, open@) =~= out@);
    }
    out
}

/// The first window of the list reported frontmost and main, if any.
fn first_frontmost_in_windows_exec(ws: &Vec<WindowHandle>) -> (r: Option<usize>)
    ensures
        opt_idx(r) == first_frontmost_in_windows(ws@),
{
    let mut i: usize = 0;
    while i < ws.len()
        invariant
            i <= ws@.len(),
            forall|j: int| 0 <= j < i ==> !(#[trigger] ws@[j]).frontmost_main,
        decreases ws@.len() - i,
    {
        if ws[i].frontmost_main {
            proof {
                lemma_first_frontmost_in_windows_some(ws@, i as int);
            }
            return Some(i);
        }
        i += 1;
    }
    proof {
        lemma_first_frontmost_in_windows_props(ws@);
    }
    None
}

impl DisplayState {
    /// Refresh every group from a scan: drop windows the scan no longer
    /// reports, update the kept ones, and repair each selection.
    pub fn refresh_from_scan(&mut self, open: &Vec<WindowHandle>)
        requires
            old(self)@.wf(),
            forall|i: int| 0 <= i < open@.len() ==> (#[trigger] open@[i]).frame.frame_wf(),
        ensures
            final(self)@ == old(self)@.step_refresh(open@),
            final(self)@.wf(),
    {
        let ghost target = old(self)@.step_refresh(open@);
        let mut gi: usize = 0;
        while gi < self.groups.len()
            invariant
                gi <= self.groups@.len(),
                self.groups@.len() == old(self).groups@.len(),
                self.display_id == old(self).display_id,
                self.active_group == old(self).active_group,
                forall|j: int| gi <= j < self.groups@.len() ==> self@.groups[j] == old(self)@.groups[j],
                forall|j: int| 0 <= j < gi ==> self@.groups[j] == target.groups[j],
                target == old(self)@.step_refresh(open@),
                old(self)@.wf(),
                forall|i: int| 0 <= i < open@.len() ==> (#[trigger] open@[i]).frame.frame_wf(),
            decreases self.groups@.len() - gi,
        {
            proof {
                assert(old(self)@.groups[gi as int].group.wf());
                lemma_filter_windows_wf(old(self)@.groups[gi as int].group.windows, open@);
            }
            let new_ws = filter_windows_exec(&self.groups[gi].group.windows, open);
            let n = new_ws.len();
            self.groups[gi].group.windows = new_ws;
            self.groups[gi].group.active_window_idx = if n == 0 {
                None
            } else {
                match self.groups[gi].group.active_window_idx {
                    Some(i) => if i < n {
                        Some(i)
                    } else {
                        Some(n - 1)
                    },
                    None => Some(0),
                }
            };
            proof {
                let g0 = old(self)@.groups[gi as int].group;
                let g1 = self@.groups[gi as int].group;
                assert(g1.windows == filter_windows(g0.windows, open@));
                assert(g1 =~= g0.step_refresh(open@));
            }
            gi += 1;
        }
        proof {
            assert(self@.groups =~= target.groups);
            lemma_display_refresh_wf(old(self)@, open@);
        }
    }

    /// The first (group, window) pair reported frontmost and main on this
    /// display.
    pub fn first_frontmost(&self) -> (r: Option<(usize, usize)>)
        ensures
            match r {
                Some(p) => first_frontmost_in_groups(self@.groups) == Some((p.0 as int, p.1 as int))
                    && p.0 < self@.groups.len() && p.1 < self@.groups[p.0 as int].group.windows.len(),
                None => first_frontmost_in_groups(self@.groups) is None,
            },
    {
        let mut gi: usize = 0;
        while gi < self.groups.len()
            invariant
                gi <= self@.groups.len(),
                self@.groups.len() == self.groups@.len(),
                forall|j: int|
                    0 <= j < gi ==> first_frontmost_in_windows(
                        (#[trigger] self@.groups[j]).group.windows,
                    ) is None,
            decreases self@.groups.len() - gi,
        {
            match first_frontmost_in_windows_exec(&self.groups[gi].group.windows) {
                Some(wi) => {
                    proof {
                        lemma_first_frontmost_in_groups_some(self@.groups, gi as int, wi as int);
                        lemma_first_frontmost_in_windows_props(
                            self@.groups[gi as int].group.windows,
                        );
                    }
                    return Some((gi, wi));
                },
                None => (),
            }
            gi += 1;
        }
        proof {
            lemma_first_frontmost_in_groups_props(self@.groups);
        }
        None
    }
}

/// In a well-formed display the selected window, and the window `step_pop`
/// hands out, carry representable frames; and the two are the same window.
pub proof fn lemma_active_window_wf(dm: DisplayModel)
    requires
        dm.wf(),
    ensures
        match dm.active_window() {
            Some(w) => w.frame.frame_wf(),
            None => true,
        },
        dm.step_pop().1 == dm.active_window(),
{
    match dm.active_group {
        Some(gid) => {
            lemma_find_group_props(dm.groups, gid);
            match find_group(dm.groups, gid) {
                Some(i) => {
                    let g = dm.groups[i].group;
                    assert(g.wf());
                    match g.active_window_idx {
                        Some(ai) => {
                            assert(g.windows[ai].frame.frame_wf());
                        },
                        None => {},
                    }
                },
                None => {},
            }
        },
        None => {},
    }
}

impl DisplayState {
    /// A fresh display state holding one window in group 1.
    pub fn new(display_id: u32, window: WindowHandle) -> (r: Self)
        requires
            window.frame.frame_wf(),
        ensures
            r@ == DisplayModel::initial(display_id, window),
            r@.wf(),
    {
        let mut groups: Vec<GroupEntry> = Vec::new();
        groups.push(GroupEntry { id: 1, group: WindowGroup::new(window) });
        let r = Self { display_id, active_group: Some(1), groups };
        proof {
            assert(r@.groups =~= DisplayModel::initial(display_id, window).groups);
        }
        r
    }

    /// The index of the entry filed under `id`, if any.
    pub(crate) fn group_index_of(&self, id: u8) -> (r: Option<usize>)
        ensures
            opt_idx(r) == find_group(self@.groups, id),
            match r {
                Some(i) => i < self@.groups.len() && self@.groups[i as int].id == id,
                None => true,
            },
    {
        let mut i: usize = 0;
        while i < self.groups.len()
            invariant
                i <= self@.groups.len(),
                self@.groups.len() == self.groups@.len(),
                forall|j: int| 0 <= j < i ==> self@.groups[j].id != id,
            decreases self@.groups.len() - i,
        {
            if self.groups[i].id == id {
                proof {
                    lemma_find_group_some(self@.groups, id, i as int);
                }
                return Some(i);
            }
            i += 1;
        }
        proof {
            lemma_find_group_props(self@.groups, id);
        }
        None
    }

    /// The index of the currently shown group, if it exists.
    pub(crate) fn active_group_index(&self) -> (r: Option<usize>)
        ensures
            opt_idx(r) == self@.active_group_idx(),
            match r {
                Some(i) => i < self@.groups.len(),
                None => true,
            },
    {
        match self.active_group {
            Some(gid) => self.group_index_of(gid),
            None => None,
        }
    }

    /// The selected window of the shown group, if any.
    pub fn get_active_window(&self) -> (r: Option<WindowHandle>)
        ensures
            r == self@.active_window(),
    {
        match self.active_group_index() {
            Some(i) => self.groups[i].group.get_active_window(),
            None => None,
        }
    }

    /// The layout of the shown group, if it exists.
    pub fn layout(&self) -> (r: Option<Layout>)
        ensures
            r == match self@.active_group_model() {
                Some(g) => Some(g.layout),
                None => None,
            },
    {
        match self.active_group_index() {
            Some(i) => Some(self.groups[i].group.layout),
            None => None,
        }
    }

    /// Activate every window of the shown group.
    pub fn bring_active_group_to_front(&self) -> (cmds: Vec<Command>)
        ensures
            cmds@ == self@.front_cmds(),
    {
        match self.active_group_index() {
            Some(i) => self.groups[i].group.bring_all_to_front(),
            None => Vec::new(),
        }
    }

    /// Move the shown group's selection to its successor.
    pub fn set_next_window_active(&mut self)
        requires
            old(self)@.wf(),
        ensures
            final(self)@ == old(self)@.step_set_next_window_active(),
            final(self)@.wf(),
    {
        match self.active_group_index() {
            Some(i) => {
                let a = self.groups[i].group.next_window_idx();
                self.groups[i].group.active_window_idx = a;
                proof {
                    assert(self@.groups =~= old(self)@.step_set_next_window_active().groups);
                }
            },
            None => (),
        }
    }

    /// Move the shown group's selection to its predecessor.
    pub fn set_prev_window_active(&mut self)
        requires
            old(self)@.wf(),
        ensures
            final(self)@ == old(self)@.step_set_prev_window_active(),
            final(self)@.wf(),
    {
        match self.active_group_index() {
            Some(i) => {
                let a = self.groups[i].group.prev_window_idx();
                self.groups[i].group.active_window_idx = a;
                proof {
                    assert(self@.groups =~= old(self)@.step_set_prev_window_active().groups);
                }
            },
            None => (),
        }
    }

    /// Swap the shown group's selected window with its predecessor.
    pub fn swap_window_prev(&mut self)
        requires
            old(self)@.wf(),
        ensures
            final(self)@ == old(self)@.step_swap_prev(),
            final(self)@.wf(),
    {
        match self.active_group_index() {
            Some(i) => {
                self.groups[i].group.swap_window_prev();
                proof {
                    assert(self@.groups =~= old(self)@.step_swap_prev().groups);
                }
            },
            None => (),
        }
    }

    /// Swap the shown group's selected window with its successor.
    pub fn swap_window_next(&mut self)
        requires
            old(self)@.wf(),
        ensures
            final(self)@ == old(self)@.step_swap_next(),
            final(self)@.wf(),
    {
        match self.active_group_index() {
            Some(i) => {
                self.groups[i].group.swap_window_next();
                proof {
                    assert(self@.groups =~= old(self)@.step_swap_next().groups);
                }
            },
            None => (),
        }
    }

    /// Remove and return the shown group's selected window.
    pub fn pop_active_window(&mut self) -> (r: Option<WindowHandle>)
        requires
            old(self)@.wf(),
        ensures
            final(self)@ == old(self)@.step_pop().0,
            r == old(self)@.step_pop().1,
            final(self)@.wf(),
    {
        match self.active_group_index() {
            Some(i) => {
                let r = self.groups[i].group.pop_active_window();
                proof {
                    assert(self@.groups =~= old(self)@.step_pop().0.groups);
                }
                r
            },
            None => None,
        }
    }

    /// Move the selected window to group `g_id`, creating the group if
    /// absent; see `step_move_active_to_group` for the exact rule.
    pub fn move_active_window_to_group(&mut self, g_id: u8)
        requires
            old(self)@.wf(),
        ensures
            final(self)@ == old(self)@.step_move_active_to_group(g_id),
            final(self)@.wf(),
    {
        proof {
            lemma_active_window_wf(old(self)@);
        }
        let popped = self.pop_active_window();
        if let Some(w) = popped {
            match self.group_index_of(g_id) {
                Some(i) => {
                    match self.groups[i].group.position_of_window_id(w.id) {
                        Some(_) => {
                            proof {
                                lemma_first_index_with_id_props(
                                    self@.groups[i as int].group.windows,
                                    w.id,
                                );
                            }
                        },
                        None => {
                            if self.groups[i].group.windows.len() < MAX_WINDOWS {
                                self.groups[i].group.insert_window_front(w);
                                proof {
                                    assert(self@.groups =~= old(
                                        self,
                                    )@.step_move_active_to_group(g_id).groups);
                                }
                            }
                        },
                    }
                },
                None => {
                    proof {
                        lemma_find_group_props(self@.groups, g_id);
                    }
                    self.groups.push(GroupEntry { id: g_id, group: WindowGroup::new(w) });
                    proof {
                        assert(self@.groups =~= old(self)@.step_move_active_to_group(g_id).groups);
                    }
                },
            }
        }
    }

    /// Whether the window with handle id `wid` lives in a group other than
    /// `g_id`.
    fn window_in_another_group_exec(&self, g_id: u8, wid: u64) -> (r: bool)
        ensures
            r == self@.window_in_another_group(g_id, wid),
    {
        let mut i: usize = 0;
        while i < self.groups.len()
            invariant
                i <= self@.groups.len(),
                self@.groups.len() == self.groups@.len(),
                forall|j: int, k: int|
                    0 <= j < i && 0 <= k < self@.groups[j].group.windows.len() ==> !(
                    self@.groups[j].id != g_id && self@.groups[j].group.windows[k].id == wid),
            decreases self@.groups.len() - i,
        {
            if self.groups[i].id != g_id {
                if let Some(k) = self.groups[i].group.position_of_window_id(wid) {
                    proof {
                        assert(self@.groups[i as int].group.windows[k as int].id == wid);
                    }
                    return true;
                }
            }
            i += 1;
        }
        false
    }

    /// Toggle the selected window's membership in group `g_id`, under the
    /// no-orphan rule; see `step_toggle_active_in_group` for the exact rule.
    pub fn toggle_active_window_in_group(&mut self, g_id: u8)
        requires
            old(self)@.wf(),
        ensures
            final(self)@ == old(self)@.step_toggle_active_in_group(g_id),
            final(self)@.wf(),
    {
        proof {
            lemma_active_window_wf(old(self)@);
        }
        if let Some(w) = self.get_active_window() {
            let other = self.window_in_another_group_exec(g_id, w.id);
            match self.group_index_of(g_id) {
                Some(i) => {
                    match self.groups[i].group.position_of_window_id(w.id) {
                        Some(w_idx) => {
                            if other {
                                self.groups[i].group.remove_window_at(w_idx);
                                proof {
                                    assert(self@.groups =~= old(
                                        self,
                                    )@.step_toggle_active_in_group(g_id).groups);
                                }
                            }
                        },
                        None => {
                            if self.groups[i].group.windows.len() < MAX_WINDOWS {
                                self.groups[i].group.insert_window_front(w);
                                proof {
                                    assert(self@.groups =~= old(
                                        self,
                                    )@.step_toggle_active_in_group(g_id).groups);
                                }
                            }
                        },
                    }
                },
                None => {
                    proof {
                        lemma_find_group_props(self@.groups, g_id);
                    }
                    self.groups.push(GroupEntry { id: g_id, group: WindowGroup::new(w) });
                    proof {
                        assert(self@.groups =~= old(
                            self,
                        )@.step_toggle_active_in_group(g_id).groups);
                    }
                },
            }
        }
    }

    /// Remove the selected window from its group and ask for it to be
    /// closed.
    pub fn close_active_window(&mut self) -> (cmds: Vec<Command>)
        requires
            old(self)@.wf(),
        ensures
            final(self)@ == old(self)@.step_pop().0,
            cmds@ == (match old(self)@.step_pop().1 {
                Some(w) => seq![Command::Close { window_id: w.id }],
                None => Seq::<Command>::empty(),
            }),
            final(self)@.wf(),
    {
        let mut cmds: Vec<Command> = Vec::new();
        if let Some(w) = self.pop_active_window() {
            cmds.push(Command::Close { window_id: w.id });
        }
        proof {
            assert(cmds@ =~= (match old(self)@.step_pop().1 {
                Some(w) => seq![Command::Close { window_id: w.id }],
                None => Seq::<Command>::empty(),
            }));
        }
        cmds
    }

    /// Give the shown group the floating layout.
    pub fn set_layout_floating(&mut self)
        requires
            old(self)@.wf(),
        ensures
            final(self)@ == old(self)@.step_set_layout(Layout::Floating),
            final(self)@.wf(),
    {
        match self.active_group_index() {
            Some(i) => {
                self.groups[i].group.set_layout_floating();
                proof {
                    assert(self@.groups =~= old(self)@.step_set_layout(Layout::Floating).groups);
                }
            },
            None => (),
        }
    }

    /// Give the shown group the cascade layout.
    pub fn set_layout_cascade(&mut self)
        requires
            old(self)@.wf(),
        ensures
            final(self)@ == old(self)@.step_set_layout(Layout::Cascade),
            final(self)@.wf(),
    {
        match self.active_group_index() {
            Some(i) => {
                self.groups[i].group.set_layout_cascade();
                proof {
                    assert(self@.groups =~= old(self)@.step_set_layout(Layout::Cascade).groups);
                }
            },
            None => (),
        }
    }

    /// Give the shown group the tiling layout built from its parameters.
    pub fn set_layout_tile_horizontal(&mut self)
        requires
            old(self)@.wf(),
        ensures
            final(self)@ == old(self)@.step_set_layout_tile(),
            final(self)@.wf(),
    {
        match self.active_group_index() {
            Some(i) => {
                self.groups[i].group.set_layout_tile_horizontal();
                proof {
                    assert(self@.groups =~= old(self)@.step_set_layout_tile().groups);
                }
            },
            None => (),
        }
    }

    /// Run the shown group's layout on this display.
    pub fn relayout(&mut self, displays: &Vec<DisplayInfo>) -> (cmds: Vec<Command>)
        requires
            old(self)@.wf(),
            forall|i: int|
                0 <= i < displays@.len() ==> (#[trigger] displays@[i]).bounds.display_bounds_wf(),
        ensures
            final(self)@ == old(self)@.step_relayout(displays@).0,
            cmds@ == old(self)@.step_relayout(displays@).1,
            final(self)@.wf(),
    {
        match crate::layout::lookup_display(displays, self.display_id) {
            None => Vec::new(),
            Some(di) => {
                match self.active_group_index() {
                    Some(i) => {
                        proof {
                            crate::layout::lemma_find_display_in(displays@, self.display_id);
                            let j = choose|j: int|
                                0 <= j < displays@.len() && displays@[j] == di;
                            assert(displays@[j].bounds.display_bounds_wf());
                        }
                        let cmds = self.groups[i].group.relayout(&di, displays);
                        proof {
                            assert(self@.groups =~= old(self)@.step_relayout(displays@).0.groups);
                        }
                        cmds
                    },
                    None => Vec::new(),
                }
            },
        }
    }

    /// Let the shown group's primary column hold one more window.
    pub fn incr_primary_column_max_windows(&mut self)
        requires
            old(self)@.wf(),
        ensures
            final(self)@ == old(self)@.step_group_incr_pcmw(),
            final(self)@.wf(),
    {
        match self.active_group_index() {
            Some(i) => {
                self.groups[i].group.incr_primary_column_max_windows();
                proof {
                    assert(self@.groups =~= old(self)@.step_group_incr_pcmw().groups);
                }
            },
            None => (),
        }
    }

    /// Let the shown group's primary column hold one window fewer.
    pub fn decr_primary_column_max_windows(&mut self)
        requires
            old(self)@.wf(),
        ensures
            final(self)@ == old(self)@.step_group_decr_pcmw(),
            final(self)@.wf(),
    {
        match self.active_group_index() {
            Some(i) => {
                self.groups[i].group.decr_primary_column_max_windows();
                proof {
                    assert(self@.groups =~= old(self)@.step_group_decr_pcmw().groups);
                }
            },
            None => (),
        }
    }

    /// Widen the shown group's primary column.
    pub fn incr_primary_column_width(&mut self)
        requires
            old(self)@.wf(),
        ensures
            final(self)@ == old(self)@.step_group_incr_pct(),
            final(self)@.wf(),
    {
        match self.active_group_index() {
            Some(i) => {
                self.groups[i].group.incr_primary_column_width();
                proof {
                    assert(self@.groups =~= old(self)@.step_group_incr_pct().groups);
                }
            },
            None => (),
        }
    }

    /// Narrow the shown group's primary column.
    pub fn decr_primary_column_width(&mut self)
        requires
            old(self)@.wf(),
        ensures
            final(self)@ == old(self)@.step_group_decr_pct(),
            final(self)@.wf(),
    {
        match self.active_group_index() {
            Some(i) => {
                self.groups[i].group.decr_primary_column_width();
                proof {
                    assert(self@.groups =~= old(self)@.step_group_decr_pct().groups);
                }
            },
            None => (),
        }
    }

    /// Insert a newly discovered window; see `step_insert_open` for the
    /// exact rule.
    pub fn insert_open_window(&mut self, window: WindowHandle)
        requires
            old(self)@.wf(),
            window.frame.frame_wf(),
        ensures
            final(self)@ == old(self)@.step_insert_open(window),
            final(self)@.wf(),
    {
        match self.active_group_index() {
            Some(gi) => {
                if self.groups[gi].group.windows.len() < MAX_WINDOWS {
                    self.groups[gi].group.insert_window_front(window);
                    proof {
                        assert(self@.groups =~= old(self)@.step_insert_open(window).groups);
                    }
                }
            },
            None => {
                match self.group_index_of(0) {
                    Some(i) => {
                        self.groups[i] = GroupEntry { id: 0, group: WindowGroup::new(window) };
                        self.active_group = Some(0);
                        proof {
                            assert(self@.groups =~= old(self)@.step_insert_open(window).groups);
                        }
                    },
                    None => {
                        proof {
                            lemma_find_group_props(self@.groups, 0);
                        }
                        self.groups.push(GroupEntry { id: 0, group: WindowGroup::new(window) });
                        self.active_group = Some(0);
                        proof {
                            assert(self@.groups =~= old(self)@.step_insert_open(window).groups);
                        }
                    },
                }
            },
        }
    }

    /// Whether some window of some group of this display has the same
    /// identity as `w`.
    pub fn has_same_window(&self, w: &WindowHandle) -> (r: bool)
        ensures
            r == exists|gi: int, wi: int|
                0 <= gi < self@.groups.len() && 0 <= wi
                    < self@.groups[gi].group.windows.len() && self@.groups[gi].group.windows[wi].same_ident(
                    *w,
                ),
    {
        let mut i: usize = 0;
        while i < self.groups.len()
            invariant
                i <= self@.groups.len(),
                self@.groups.len() == self.groups@.len(),
                forall|gi: int, wi: int|
                    0 <= gi < i && 0 <= wi < self@.groups[gi].group.windows.len() ==> !self@.groups[gi].group.windows[wi].same_ident(
                        *w,
                    ),
            decreases self@.groups.len() - i,
        {
            if self.groups[i].group.contains_same_window(w) {
                proof {
                    let wi = choose|wi: int|
                        0 <= wi < self@.groups[i as int].group.windows.len()
                            && (#[trigger] self@.groups[i as int].group.windows[wi]).same_ident(
                            *w,
                        );
                    assert((i as int) < self@.groups.len() && 0 <= wi
                        < self@.groups[i as int].group.windows.len()
                        && self@.groups[i as int].group.windows[wi].same_ident(*w));
                }
                return true;
            }
            i += 1;
        }
        false
    }

    /// Show group `g_id` (whether or not it exists yet).
    pub fn set_active_group(&mut self, g_id: u8)
        requires
            old(self)@.wf(),
        ensures
            final(self)@ == (DisplayModel { active_group: Some(g_id), ..old(self)@ }),
            final(self)@.wf(),
    {
        self.active_group = Some(g_id);
    }
}

} // verus!
