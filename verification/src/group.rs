//! A window group: an ordered collection of window handles sharing one layout
//! and one active-window selection. One of up to 256 logical workspaces on a
//! display.
//!
//! Selection validity is the group's invariant, kept by every operation here:
//! `active_window_idx` is `None` exactly when `windows` is empty, and
//! otherwise always a valid index. All index repair lives in this module.

use vstd::prelude::*;

use crate::command::{Command, DisplayInfo};
use crate::layout::{apply_cmds, apply_windows, Layout, TileHorizontalOpts, MAX_WINDOWS};
use crate::window::WindowHandle;

verus! {

/// An `Option<usize>` index seen as an `Option<int>`.
pub open spec fn opt_idx(o: Option<usize>) -> Option<int> {
    match o {
        Some(i) => Some(i as int),
        None => None,
    }
}

/// The first index of `ws` holding the handle id `wid`, if any.
pub open spec fn first_index_with_id(ws: Seq<WindowHandle>, wid: u64) -> Option<int>
    decreases ws.len(),
{
    if ws.len() == 0 {
        None
    } else if ws[0].id == wid {
        Some(0int)
    } else {
        match first_index_with_id(ws.drop_first(), wid) {
            Some(i) => Some(i + 1),
            None => None,
        }
    }
}

/// What `first_index_with_id` returns.
pub proof fn lemma_first_index_with_id_props(ws: Seq<WindowHandle>, wid: u64)
    ensures
        match first_index_with_id(ws, wid) {
            Some(i) => 0 <= i < ws.len() && ws[i].id == wid && (forall|j: int|
                0 <= j < i ==> ws[j].id != wid),
            None => forall|j: int| 0 <= j < ws.len() ==> ws[j].id != wid,
        },
    decreases ws.len(),
{
    if ws.len() > 0 && ws[0].id != wid {
        let dws = ws.drop_first();
        lemma_first_index_with_id_props(dws, wid);
        match first_index_with_id(dws, wid) {
            Some(i) => {
                assert(dws[i] == ws[i + 1]);
                assert forall|j: int| 0 <= j < i + 1 implies ws[j].id != wid by {
                    if j > 0 {
                        assert(dws[j - 1] == ws[j]);
                    }
                }
            },
            None => {
                assert forall|j: int| 0 <= j < ws.len() implies ws[j].id != wid by {
                    if j > 0 {
                        assert(dws[j - 1] == ws[j]);
                    }
                }
            },
        }
    }
}

/// `first_index_with_id` finds exactly the first hit.
pub proof fn lemma_first_index_with_id_some(ws: Seq<WindowHandle>, wid: u64, i: int)
    requires
        0 <= i < ws.len(),
        ws[i].id == wid,
        forall|j: int| 0 <= j < i ==> ws[j].id != wid,
    ensures
        first_index_with_id(ws, wid) == Some(i),
    decreases i,
{
    if i > 0 {
        assert(ws[0].id != wid);
        assert(forall|j: int|
            0 <= j < i - 1 ==> (#[trigger] ws.drop_first()[j]).id != wid) by {
            assert(forall|j: int| 0 <= j < i - 1 ==> ws.drop_first()[j] == ws[j + 1]);
        }
        lemma_first_index_with_id_some(ws.drop_first(), wid, i - 1);
    }
}

/// An ordered list of windows with a layout and an active selection.
#[derive(Debug)]
pub struct WindowGroup {
    pub layout: Layout,
    pub primary_column_max_windows: i32,
    pub primary_column_pct: u8,
    pub active_window_idx: Option<usize>,
    pub windows: Vec<WindowHandle>,
}

/// The group seen as mathematical values.
#[verifier::ext_equal]
pub ghost struct GroupModel {
    pub layout: Layout,
    pub primary_column_max_windows: int,
    pub primary_column_pct: int,
    pub active_window_idx: Option<int>,
    pub windows: Seq<WindowHandle>,
}

impl View for WindowGroup {
    type V = GroupModel;

    open spec fn view(&self) -> GroupModel {
        GroupModel {
            layout: self.layout,
            primary_column_max_windows: self.primary_column_max_windows as int,
            primary_column_pct: self.primary_column_pct as int,
            active_window_idx: opt_idx(self.active_window_idx),
            windows: self.windows@,
        }
    }
}

impl GroupModel {
    /// The group invariant. Selection validity: the active index is `None`
    /// exactly when the group is empty and in bounds otherwise. The tiling
    /// parameters stay in range and agree with the stored layout, and every
    /// frame is representable.
    pub open spec fn wf(self) -> bool {
        &&& self.active_window_idx is None <==> self.windows.len() == 0
        &&& match self.active_window_idx {
            Some(i) => 0 <= i < self.windows.len(),
            None => true,
        }
        &&& self.windows.len() <= MAX_WINDOWS
        &&& 1 <= self.primary_column_max_windows <= MAX_WINDOWS
        &&& 20 <= self.primary_column_pct <= 80
        &&& match self.layout {
            Layout::TileHorizontal(o) => o.max_num_left as int == self.primary_column_max_windows
                && o.primary_column_pct as int == self.primary_column_pct,
            _ => true,
        }
        &&& forall|i: int| 0 <= i < self.windows.len() ==> (#[trigger] self.windows[i]).frame.frame_wf()
    }

    /// The next index counting forwards, wrapping at the end; selects the
    /// first window when none is selected.
    pub open spec fn raw_next_idx(self) -> Option<int> {
        if self.windows.len() == 0 {
            None
        } else {
            match self.active_window_idx {
                Some(i) => if i >= self.windows.len() - 1 {
                    Some(0int)
                } else {
                    Some(i + 1)
                },
                None => Some(0int),
            }
        }
    }

    /// The previous index counting backwards, wrapping at the front.
    pub open spec fn raw_prev_idx(self) -> Option<int> {
        if self.windows.len() == 0 {
            None
        } else {
            match self.active_window_idx {
                Some(i) => if i == 0 {
                    Some(self.windows.len() - 1)
                } else {
                    Some(i - 1)
                },
                None => Some(0int),
            }
        }
    }

    /// "Next" for the user: forwards under tiling, backwards under the
    /// stacking layouts, matching the visual top-of-stack order.
    pub open spec fn next_idx(self) -> Option<int> {
        if self.layout.is_tiling() {
            self.raw_next_idx()
        } else {
            self.raw_prev_idx()
        }
    }

    /// "Previous" for the user; the mirror image of `next_idx`.
    pub open spec fn prev_idx(self) -> Option<int> {
        if self.layout.is_tiling() {
            self.raw_prev_idx()
        } else {
            self.raw_next_idx()
        }
    }

    /// The selected window, if the selection is valid.
    pub open spec fn active_window(self) -> Option<WindowHandle> {
        match self.active_window_idx {
            Some(i) => if 0 <= i < self.windows.len() {
                Some(self.windows[i])
            } else {
                None
            },
            None => None,
        }
    }

    /// The group with another selection.
    pub open spec fn with_active(self, a: Option<int>) -> GroupModel {
        GroupModel { active_window_idx: a, ..self }
    }

    /// The selected window swapped with the one `next_idx` names, which then
    /// stays selected.
    pub open spec fn step_swap_next(self) -> GroupModel {
        match (self.active_window_idx, self.next_idx()) {
            (Some(i), Some(n)) => GroupModel {
                windows: self.windows.update(i, self.windows[n]).update(n, self.windows[i]),
                active_window_idx: Some(n),
                ..self
            },
            _ => self,
        }
    }

    /// The selected window swapped with the one `prev_idx` names.
    pub open spec fn step_swap_prev(self) -> GroupModel {
        match (self.active_window_idx, self.prev_idx()) {
            (Some(i), Some(p)) => GroupModel {
                windows: self.windows.update(i, self.windows[p]).update(p, self.windows[i]),
                active_window_idx: Some(p),
                ..self
            },
            _ => self,
        }
    }

    /// The selected window removed and returned; the selection is re-clamped
    /// to `min(old index, new length - 1)`, or cleared if the group is now
    /// empty.
    pub open spec fn step_pop(self) -> (GroupModel, Option<WindowHandle>) {
        match self.active_window_idx {
            Some(i) => {
                let w = self.windows[i];
                let rest = self.windows.remove(i);
                let a = if rest.len() == 0 {
                    None
                } else if i < rest.len() {
                    Some(i)
                } else {
                    Some(rest.len() - 1)
                };
                (GroupModel { active_window_idx: a, windows: rest, ..self }, Some(w))
            },
            None => (self, None),
        }
    }

    /// A window inserted at the front and selected.
    pub open spec fn step_insert_front(self, w: WindowHandle) -> GroupModel {
        GroupModel {
            windows: self.windows.insert(0, w),
            active_window_idx: Some(0int),
            ..self
        }
    }

    /// The window at `i` removed, with the same index repair as `step_pop`.
    pub open spec fn step_remove_at(self, i: int) -> GroupModel {
        let rest = self.windows.remove(i);
        let a = if rest.len() == 0 {
            None
        } else {
            match self.active_window_idx {
                Some(ai) => if ai < rest.len() {
                    Some(ai)
                } else {
                    Some(rest.len() - 1)
                },
                None => None,
            }
        };
        GroupModel { active_window_idx: a, windows: rest, ..self }
    }

    /// A fresh group holding one selected window under the default tiling
    /// layout.
    pub open spec fn initial(w: WindowHandle) -> GroupModel {
        GroupModel {
            layout: Layout::TileHorizontal(
                TileHorizontalOpts { max_num_left: 1, primary_column_pct: 50 },
            ),
            primary_column_max_windows: 1int,
            primary_column_pct: 50int,
            active_window_idx: Some(0int),
            windows: seq![w],
        }
    }

    /// The stored tiling layout rebuilt from the current parameters.
    pub open spec fn tile_layout(self) -> Layout {
        Layout::TileHorizontal(
            TileHorizontalOpts {
                max_num_left: self.primary_column_max_windows as i32,
                primary_column_pct: self.primary_column_pct as u8,
            },
        )
    }

    /// The primary column allowed one more window, capped at the group's
    /// size and kept at least one; the layout switches to tiling.
    pub open spec fn step_incr_pcmw(self) -> GroupModel {
        let c = if self.primary_column_max_windows + 1 <= self.windows.len() {
            self.primary_column_max_windows + 1
        } else if self.windows.len() < 1 {
            1int
        } else {
            self.windows.len() as int
        };
        let g = GroupModel { primary_column_max_windows: c, ..self };
        GroupModel { layout: g.tile_layout(), ..g }
    }

    /// The primary column allowed one window fewer, never below one; the
    /// layout switches to tiling.
    pub open spec fn step_decr_pcmw(self) -> GroupModel {
        let c = if self.primary_column_max_windows - 1 >= 1 {
            self.primary_column_max_windows - 1
        } else {
            1int
        };
        let g = GroupModel { primary_column_max_windows: c, ..self };
        GroupModel { layout: g.tile_layout(), ..g }
    }

    /// The primary column widened by ten percentage points, up to 80; the
    /// layout switches to tiling.
    pub open spec fn step_incr_pct(self) -> GroupModel {
        let p = if self.primary_column_pct <= 70 {
            self.primary_column_pct + 10
        } else {
            self.primary_column_pct
        };
        let g = GroupModel { primary_column_pct: p, ..self };
        GroupModel { layout: g.tile_layout(), ..g }
    }

    /// The primary column narrowed by ten percentage points, down to 20; the
    /// layout switches to tiling.
    pub open spec fn step_decr_pct(self) -> GroupModel {
        let p = if self.primary_column_pct >= 30 {
            self.primary_column_pct - 10
        } else {
            self.primary_column_pct
        };
        let g = GroupModel { primary_column_pct: p, ..self };
        GroupModel { layout: g.tile_layout(), ..g }
    }

    /// The layout run on display `d`: every window re-framed and one command
    /// per placement.
    pub open spec fn step_relayout(self, d: DisplayInfo, displays: Seq<DisplayInfo>) -> (
        GroupModel,
        Seq<Command>,
    ) {
        (
            GroupModel { windows: apply_windows(self.layout, d, displays, self.windows), ..self },
            apply_cmds(self.layout, d, displays, self.windows),
        )
    }
}

impl WindowGroup {
    /// A fresh group holding one window, selected, under the default tiling
    /// layout.
    pub fn new(window: WindowHandle) -> (r: Self)
        requires
            window.frame.frame_wf(),
        ensures
            r@ == GroupModel::initial(window),
            r@.wf(),
    {
        let r = Self {
            layout: Layout::tile_horizontal(1, 50),
            active_window_idx: Some(0),
            windows: vec![window],
            primary_column_max_windows: 1,
            primary_column_pct: 50,
        };
        proof {
            assert(r@.windows =~= seq![window]);
        }
        r
    }

    /// The wrapping successor index, not yet adjusted for the layout.
    fn raw_next_window_idx(&self) -> (r: Option<usize>)
        requires
            self@.wf(),
        ensures
            opt_idx(r) == self@.raw_next_idx(),
    {
        let num_windows = self.windows.len();
        if num_windows == 0 {
            None
        } else {
            match self.active_window_idx {
                Some(idx) => if idx >= num_windows - 1 {
                    Some(0)
                } else {
                    Some(idx + 1)
                },
                None => Some(0),
            }
        }
    }

    /// The wrapping predecessor index, not yet adjusted for the layout.
    fn raw_prev_window_idx(&self) -> (r: Option<usize>)
        requires
            self@.wf(),
        ensures
            opt_idx(r) == self@.raw_prev_idx(),
    {
        let num_windows = self.windows.len();
        if num_windows == 0 {
            None
        } else {
            match self.active_window_idx {
                Some(idx) => if idx == 0 {
                    Some(num_windows - 1)
                } else {
                    Some(idx - 1)
                },
                None => Some(0),
            }
        }
    }

    /// The index "next" selects; the direction sense is inverted between the
    /// tiling layout and the stacking layouts.
    pub fn next_window_idx(&self) -> (r: Option<usize>)
        requires
            self@.wf(),
        ensures
            opt_idx(r) == self@.next_idx(),
    {
        match self.layout {
            Layout::TileHorizontal(_) => self.raw_next_window_idx(),
            _ => self.raw_prev_window_idx(),
        }
    }

    /// The index "previous" selects.
    pub fn prev_window_idx(&self) -> (r: Option<usize>)
        requires
            self@.wf(),
        ensures
            opt_idx(r) == self@.prev_idx(),
    {
        match self.layout {
            Layout::TileHorizontal(_) => self.raw_prev_window_idx(),
            _ => self.raw_next_window_idx(),
        }
    }

    /// The selected window, if any.
    pub fn get_active_window(&self) -> (r: Option<WindowHandle>)
        ensures
            r == self@.active_window(),
    {
        match self.active_window_idx {
            Some(idx) => if idx < self.windows.len() {
                Some(self.windows[idx])
            } else {
                None
            },
            None => None,
        }
    }

    /// Swap the selected window with its predecessor and keep it selected.
    pub fn swap_window_prev(&mut self)
        requires
            old(self)@.wf(),
        ensures
            final(self)@ == old(self)@.step_swap_prev(),
            final(self)@.wf(),
    {
        let prev = self.prev_window_idx();
        match (self.active_window_idx, prev) {
            (Some(idx), Some(prev_idx)) => {
                let wi = self.windows[idx];
                let wp = self.windows[prev_idx];
                self.windows[idx] = wp;
                self.windows[prev_idx] = wi;
                self.active_window_idx = Some(prev_idx);
            },
            _ => (),
        }
    }

    /// Swap the selected window with its successor and keep it selected.
    pub fn swap_window_next(&mut self)
        requires
            old(self)@.wf(),
        ensures
            final(self)@ == old(self)@.step_swap_next(),
            final(self)@.wf(),
    {
        let next = self.next_window_idx();
        match (self.active_window_idx, next) {
            (Some(idx), Some(next_idx)) => {
                let wi = self.windows[idx];
                let wn = self.windows[next_idx];
                self.windows[idx] = wn;
                self.windows[next_idx] = wi;
                self.active_window_idx = Some(next_idx);
            },
            _ => (),
        }
    }

    /// Remove and return the selected window, repairing the selection.
    pub fn pop_active_window(&mut self) -> (r: Option<WindowHandle>)
        requires
            old(self)@.wf(),
        ensures
            final(self)@ == old(self)@.step_pop().0,
            r == old(self)@.step_pop().1,
            final(self)@.wf(),
    {
        match self.active_window_idx {
            Some(idx) => {
                let w = self.windows.remove(idx);
                self.active_window_idx = if self.windows.len() == 0 {
                    None
                } else if idx < self.windows.len() {
                    Some(idx)
                } else {
                    Some(self.windows.len() - 1)
                };
                Some(w)
            },
            None => None,
        }
    }

    /// Insert a window at the front and select it.
    pub fn insert_window_front(&mut self, w: WindowHandle)
        requires
            old(self)@.wf(),
            old(self)@.windows.len() < MAX_WINDOWS,
            w.frame.frame_wf(),
        ensures
            final(self)@ == old(self)@.step_insert_front(w),
            final(self)@.wf(),
    {
        self.windows.insert(0, w);
        self.active_window_idx = Some(0);
    }

    /// Remove the window at `idx`, repairing the selection as `step_pop`
    /// does.
    pub fn remove_window_at(&mut self, idx: usize)
        requires
            old(self)@.wf(),
            idx < old(self)@.windows.len(),
        ensures
            final(self)@ == old(self)@.step_remove_at(idx as int),
            final(self)@.wf(),
    {
        self.windows.remove(idx);
        self.active_window_idx = if self.windows.len() == 0 {
            None
        } else {
            match self.active_window_idx {
                Some(ai) => if ai < self.windows.len() {
                    Some(ai)
                } else {
                    Some(self.windows.len() - 1)
                },
                None => None,
            }
        };
    }

    /// The index of the first window with handle id `id`, if present.
    pub fn position_of_window_id(&self, id: u64) -> (r: Option<usize>)
        ensures
            opt_idx(r) == first_index_with_id(self@.windows, id),
            match r {
                Some(i) => i < self@.windows.len() && self@.windows[i as int].id == id,
                None => forall|j: int| 0 <= j < self@.windows.len() ==> self@.windows[j].id != id,
            },
    {
        let mut i: usize = 0;
        while i < self.windows.len()
            invariant
                i <= self@.windows.len(),
                forall|j: int| 0 <= j < i ==> self@.windows[j].id != id,
            decreases self@.windows.len() - i,
        {
            if self.windows[i].id == id {
                proof {
                    lemma_first_index_with_id_some(self@.windows, id, i as int);
                }
                return Some(i);
            }
            i += 1;
        }
        proof {
            lemma_first_index_with_id_props(self@.windows, id);
        }
        None
    }

    /// Whether some window of the group has the same identity (process id,
    /// title, frame) as `w`.
    pub fn contains_same_window(&self, w: &WindowHandle) -> (r: bool)
        ensures
            r == exists|i: int|
                0 <= i < self@.windows.len() && (#[trigger] self@.windows[i]).same_ident(*w),
    {
        let mut i: usize = 0;
        while i < self.windows.len()
            invariant
                i <= self@.windows.len(),
                forall|j: int| 0 <= j < i ==> !(#[trigger] self@.windows[j]).same_ident(*w),
            decreases self@.windows.len() - i,
        {
            if self.windows[i].is_same_window(w) {
                proof {
                    assert(self@.windows[i as int].same_ident(*w));
                }
                return true;
            }
            i += 1;
        }
        false
    }

    fn set_layout(&mut self, layout: Layout)
        ensures
            final(self)@ == (GroupModel { layout, ..old(self)@ }),
    {
        self.layout = layout;
    }

    pub fn set_layout_floating(&mut self)
        requires
            old(self)@.wf(),
        ensures
            final(self)@ == (GroupModel { layout: Layout::Floating, ..old(self)@ }),
            final(self)@.wf(),
    {
        self.set_layout(Layout::floating())
    }

    pub fn set_layout_cascade(&mut self)
        requires
            old(self)@.wf(),
        ensures
            final(self)@ == (GroupModel { layout: Layout::Cascade, ..old(self)@ }),
            final(self)@.wf(),
    {
        self.set_layout(Layout::cascade())
    }

    /// Switch to the tiling layout built from the stored parameters.
    pub fn set_layout_tile_horizontal(&mut self)
        ensures
            final(self)@ == (GroupModel { layout: old(self)@.tile_layout(), ..old(self)@ }),
    {
        let l = Layout::tile_horizontal(self.primary_column_max_windows, self.primary_column_pct);
        self.set_layout(l)
    }

    /// Run the layout on display `d` and return the placement commands.
    pub fn relayout(&mut self, d: &DisplayInfo, displays: &Vec<DisplayInfo>) -> (cmds: Vec<
        Command,
    >)
        requires
            old(self)@.wf(),
            d.bounds.display_bounds_wf(),
            forall|i: int|
                0 <= i < displays@.len() ==> (#[trigger] displays@[i]).bounds.display_bounds_wf(),
        ensures
            final(self)@ == old(self)@.step_relayout(*d, displays@).0,
            cmds@ == old(self)@.step_relayout(*d, displays@).1,
            final(self)@.wf(),
    {
        let (nw, cmds) = self.layout.apply(d, displays, &self.windows);
        self.windows = nw;
        cmds
    }

    /// Activate every window of the group, from the back of the list to the
    /// front.
    pub fn bring_all_to_front(&self) -> (cmds: Vec<Command>)
        ensures
            cmds@ == Seq::new(
                self@.windows.len(),
                |i: int| Command::Activate { window_id: self@.windows[i].id },
            ),
    {
        let ghost target = Seq::new(
            self@.windows.len(),
            |i: int| Command::Activate { window_id: self@.windows[i].id },
        );
        let mut cmds: Vec<Command> = Vec::new();
        let mut i: usize = 0;
        while i < self.windows.len()
            invariant
                i <= self@.windows.len(),
                cmds@.len() == i,
                forall|m: int| 0 <= m < i ==> cmds@[m] == target[m],
                target == Seq::new(
                    self@.windows.len(),
                    |i: int| Command::Activate { window_id: self@.windows[i].id },
                ),
            decreases self@.windows.len() - i,
        {
            cmds.push(Command::Activate { window_id: self.windows[i].id });
            i += 1;
        }
        proof {
            assert(cmds@ =~= target);
        }
        cmds
    }

    /// Let the primary column hold one more window, up to the group's size
    /// (and never below one), and switch to tiling.
    pub fn incr_primary_column_max_windows(&mut self)
        requires
            old(self)@.wf(),
        ensures
            final(self)@ == old(self)@.step_incr_pcmw(),
            final(self)@.wf(),
    {
        let len = self.windows.len() as i32;
        let grown = self.primary_column_max_windows + 1;
        let capped = if grown <= len {
            grown
        } else {
            len
        };
        self.primary_column_max_windows = if capped < 1 {
            1
        } else {
            capped
        };
        self.set_layout_tile_horizontal();
    }

    /// Let the primary column hold one window fewer, never below one, and
    /// switch to tiling.
    pub fn decr_primary_column_max_windows(&mut self)
        requires
            old(self)@.wf(),
        ensures
            final(self)@ == old(self)@.step_decr_pcmw(),
            final(self)@.wf(),
    {
        let shrunk = self.primary_column_max_windows - 1;
        self.primary_column_max_windows = if shrunk >= 1 {
            shrunk
        } else {
            1
        };
        self.set_layout_tile_horizontal();
    }

    /// Widen the primary column by ten percentage points, up to 80, and
    /// switch to tiling.
    pub fn incr_primary_column_width(&mut self)
        requires
            old(self)@.wf(),
        ensures
            final(self)@ == old(self)@.step_incr_pct(),
            final(self)@.wf(),
    {
        if self.primary_column_pct <= 70 {
            self.primary_column_pct += 10;
        }
        self.set_layout_tile_horizontal();
    }

    /// Narrow the primary column by ten percentage points, down to 20, and
    /// switch to tiling.
    pub fn decr_primary_column_width(&mut self)
        requires
            old(self)@.wf(),
        ensures
            final(self)@ == old(self)@.step_decr_pct(),
            final(self)@.wf(),
    {
        if self.primary_column_pct >= 30 {
            self.primary_column_pct -= 10;
        }
        self.set_layout_tile_horizontal();
    }
}

} // verus!
