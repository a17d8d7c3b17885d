//! Crate-level laws: properties that tie several operations together,
//! stated over the model step functions and proved once and for all.

use vstd::prelude::*;

use crate::action::{
    spec_relevant_flags, spec_resolve, Action, InputEvent, NORMAL_CHORD,
};
use crate::command::ScanModel;
use crate::display_state::{
    filter_windows, lemma_filter_windows_idents, lemma_filter_windows_nodup,
    lemma_find_group_props,
};
use crate::mode::Mode;
use crate::window::WindowHandle;
use crate::window_manager::{insert_all, lemma_find_display_state_props, WmModel};

verus! {

/// Popping the selected window keeps ownership duplicate-free, and the
/// popped window's identity is gone from every container.
pub proof fn lemma_pop_ownership(m: WmModel)
    requires
        m.wf(),
        m.distinct_ownership(),
    ensures
        m.step_pop_active().0.distinct_ownership(),
        m.step_pop_active().0.minimized_windows == m.minimized_windows,
        match m.step_pop_active().1 {
            Some(w) => (forall|d: int, g: int, wi: int|
                m.step_pop_active().0.valid_pos(d, g, wi) ==> !(
                #[trigger] m.step_pop_active().0.window_at(d, g, wi)).same_ident(w)) && (forall|
                k: int,
            |
                0 <= k < m.minimized_windows.len() ==> !(
                #[trigger] m.minimized_windows[k]).same_ident(w)),
            None => true,
        },
{
    let (m1, wopt) = m.step_pop_active();
    match m.active_display() {
        None => {},
        Some(i) => {
            if m.active_display_idx is Some {
                lemma_find_display_state_props(
                    m.displays,
                    m.display_info[m.active_display_idx->0].id,
                );
            }
            let d = m.displays[i];
            match d.active_group_idx() {
                None => {
                    lemma_unchanged_ownership(m, i, d);
                },
                Some(gi) => {
                    match d.active_group {
                        Some(agid) => {
                            lemma_find_group_props(d.groups, agid);
                        },
                        None => {},
                    }
                    let g = d.groups[gi].group;
                    match g.active_window_idx {
                        None => {
                            let d1 = d.with_group_at(gi, g.step_pop().0);
                            lemma_unchanged_ownership(m, i, d1);
                        },
                        Some(ai) => {
                            assert(g.wf());
                            let w = g.windows[ai];
                            g.windows.remove_ensures(ai);
                            assert forall|d2: int, g2: int, w2: int, d3: int, g3: int, w3: int|
                                m1.valid_pos(d2, g2, w2) && m1.valid_pos(d3, g3, w3) && !(d2 == d3
                                    && g2 == g3 && w2 == w3) implies !(#[trigger] m1.window_at(
                                d2,
                                g2,
                                w2,
                            )).same_ident(#[trigger] m1.window_at(d3, g3, w3)) by {
                                let a2 = if d2 == i && g2 == gi && w2 >= ai {
                                    w2 + 1
                                } else {
                                    w2
                                };
                                let a3 = if d3 == i && g3 == gi && w3 >= ai {
                                    w3 + 1
                                } else {
                                    w3
                                };
                                assert(m1.window_at(d2, g2, w2) == m.window_at(d2, g2, a2));
                                assert(m1.window_at(d3, g3, w3) == m.window_at(d3, g3, a3));
                                assert(m.valid_pos(d2, g2, a2) && m.valid_pos(d3, g3, a3));
                            }
                            assert forall|d2: int, g2: int, w2: int, k: int|
                                m1.valid_pos(d2, g2, w2) && 0 <= k
                                    < m1.minimized_windows.len() implies !(
                            #[trigger] m1.window_at(d2, g2, w2)).same_ident(
                                #[trigger] m1.minimized_windows[k],
                            ) by {
                                let a2 = if d2 == i && g2 == gi && w2 >= ai {
                                    w2 + 1
                                } else {
                                    w2
                                };
                                assert(m1.window_at(d2, g2, w2) == m.window_at(d2, g2, a2));
                                assert(m.valid_pos(d2, g2, a2));
                            }
                            assert forall|d2: int, g2: int, w2: int|
                                m1.valid_pos(d2, g2, w2) implies !(#[trigger] m1.window_at(
                                d2,
                                g2,
                                w2,
                            )).same_ident(w) by {
                                let a2 = if d2 == i && g2 == gi && w2 >= ai {
                                    w2 + 1
                                } else {
                                    w2
                                };
                                assert(m1.window_at(d2, g2, w2) == m.window_at(d2, g2, a2));
                                assert(m.valid_pos(d2, g2, a2));
                                assert(!(d2 == i && g2 == gi && a2 == ai));
                                assert(w == m.window_at(i, gi, ai));
                            }
                            assert forall|k: int| 0 <= k < m.minimized_windows.len() implies !(
                            #[trigger] m.minimized_windows[k]).same_ident(w) by {
                                assert(w == m.window_at(i, gi, ai));
                                assert(m.valid_pos(i, gi, ai));
                                assert(!m.window_at(i, gi, ai).same_ident(
                                    m.minimized_windows[k],
                                ));
                                lemma_same_ident_sym(m.minimized_windows[k], w);
                            }
                        },
                    }
                },
            }
        },
    }
}

/// Minimizing the selected window keeps ownership duplicate-free: the
/// window leaves its group in the same stroke in which it enters the pool.
pub proof fn lemma_minimize_ownership(m: WmModel)
    requires
        m.wf(),
        m.distinct_ownership(),
    ensures
        m.step_minimize_active().0.distinct_ownership(),
{
    lemma_pop_ownership(m);
    let (m1, wopt) = m.step_pop_active();
    match wopt {
        None => {},
        Some(w) => {
            let m2 = WmModel { minimized_windows: m1.minimized_windows.push(w), ..m1 };
            assert forall|d2: int, g2: int, w2: int, k: int|
                m2.valid_pos(d2, g2, w2) && 0 <= k < m2.minimized_windows.len() implies !(
            #[trigger] m2.window_at(d2, g2, w2)).same_ident(#[trigger] m2.minimized_windows[k]) by {
                assert(m2.window_at(d2, g2, w2) == m1.window_at(d2, g2, w2));
                assert(m1.valid_pos(d2, g2, w2));
                if k < m1.minimized_windows.len() {
                    assert(m2.minimized_windows[k] == m1.minimized_windows[k]);
                } else {
                    assert(m2.minimized_windows[k] == w);
                }
            }
            assert forall|k1: int, k2: int|
                0 <= k1 < k2 < m2.minimized_windows.len() implies !m2.minimized_windows[k1].same_ident(
                m2.minimized_windows[k2],
            ) by {
                assert(m2.minimized_windows[k1] == m1.minimized_windows[k1]);
                if k2 < m1.minimized_windows.len() {
                    assert(m2.minimized_windows[k2] == m1.minimized_windows[k2]);
                } else {
                    assert(m2.minimized_windows[k2] == w);
                    lemma_same_ident_sym(m1.minimized_windows[k1], w);
                }
            }
            assert forall|d2: int, g2: int, w2: int, d3: int, g3: int, w3: int|
                m2.valid_pos(d2, g2, w2) && m2.valid_pos(d3, g3, w3) && !(d2 == d3 && g2 == g3
                    && w2 == w3) implies !(#[trigger] m2.window_at(d2, g2, w2)).same_ident(
                #[trigger] m2.window_at(d3, g3, w3),
            ) by {
                assert(m2.window_at(d2, g2, w2) == m1.window_at(d2, g2, w2));
                assert(m2.window_at(d3, g3, w3) == m1.window_at(d3, g3, w3));
                assert(m1.valid_pos(d2, g2, w2) && m1.valid_pos(d3, g3, w3));
            }
        },
    }
}

/// Inserting a window whose identity no container holds keeps ownership
/// duplicate-free.
pub proof fn lemma_insert_open_ownership(m: WmModel, w: WindowHandle, did: u32)
    requires
        m.distinct_ownership(),
        forall|d: int, g: int, wi: int|
            m.valid_pos(d, g, wi) ==> !(#[trigger] m.window_at(d, g, wi)).same_ident(w),
        forall|k: int|
            0 <= k < m.minimized_windows.len() ==> !(#[trigger] m.minimized_windows[k]).same_ident(
                w,
            ),
    ensures
        m.step_insert_open_window(w, did).distinct_ownership(),
{
    let m1 = m.step_insert_open_window(w, did);
    lemma_find_display_state_props(m.displays, did);
    match crate::window_manager::find_display_state(m.displays, did) {
        Some(di) => {
            let d = m.displays[di];
            match d.active_group {
                Some(agid) => {
                    lemma_find_group_props(d.groups, agid);
                },
                None => {},
            }
            match d.active_group_idx() {
                Some(gi) => {
                    let g = d.groups[gi].group;
                    if g.windows.len() < crate::layout::MAX_WINDOWS {
                        g.windows.insert_ensures(0, w);
                        lemma_inserted_ownership(m, m1, di, gi, 0, w);
                    } else {
                        lemma_unchanged_ownership(m, di, d);
                    }
                },
                None => {
                    lemma_find_group_props(d.groups, 0u8);
                    match crate::display_state::find_group(d.groups, 0u8) {
                        Some(i0) => {
                            lemma_fresh_group_ownership(m, m1, di, i0, w);
                        },
                        None => {
                            lemma_fresh_group_ownership(m, m1, di, d.groups.len() as int, w);
                        },
                    }
                },
            }
        },
        None => {
            lemma_fresh_display_ownership(m, m1, w);
        },
    }
}

/// Ownership after inserting `w` at index `wi0` of group `(di, gi)`, all
/// other windows kept with their indices shifted past the insertion point.
proof fn lemma_inserted_ownership(
    m: WmModel,
    m1: WmModel,
    di: int,
    gi: int,
    wi0: int,
    w: WindowHandle,
)
    requires
        m.distinct_ownership(),
        forall|d: int, g: int, wi: int|
            m.valid_pos(d, g, wi) ==> !(#[trigger] m.window_at(d, g, wi)).same_ident(w),
        forall|k: int|
            0 <= k < m.minimized_windows.len() ==> !(#[trigger] m.minimized_windows[k]).same_ident(
                w,
            ),
        m1.minimized_windows == m.minimized_windows,
        m1.displays.len() == m.displays.len(),
        0 <= di < m.displays.len(),
        0 <= gi < m.displays[di].groups.len(),
        wi0 == 0,
        m1.displays[di].groups.len() == m.displays[di].groups.len(),
        forall|g: int|
            0 <= g < m1.displays[di].groups.len() && g != gi ==> (
            #[trigger] m1.displays[di].groups[g]).group.windows
                == m.displays[di].groups[g].group.windows,
        m1.displays[di].groups[gi].group.windows == m.displays[di].groups[gi].group.windows.insert(
            wi0,
            w,
        ),
        forall|d: int| 0 <= d < m.displays.len() && d != di ==> m1.displays[d] == m.displays[d],
    ensures
        m1.distinct_ownership(),
{
    m.displays[di].groups[gi].group.windows.insert_ensures(wi0, w);
    assert forall|d2: int, g2: int, w2: int, d3: int, g3: int, w3: int|
        m1.valid_pos(d2, g2, w2) && m1.valid_pos(d3, g3, w3) && !(d2 == d3 && g2 == g3 && w2
            == w3) implies !(#[trigger] m1.window_at(d2, g2, w2)).same_ident(
        #[trigger] m1.window_at(d3, g3, w3),
    ) by {
        let in2 = d2 == di && g2 == gi;
        let in3 = d3 == di && g3 == gi;
        if in2 && w2 == wi0 {
            assert(m1.window_at(d2, g2, w2) == w);
            if in3 && w3 == wi0 {
            } else {
                let a3 = if in3 && w3 > wi0 {
                    w3 - 1
                } else {
                    w3
                };
                assert(m1.window_at(d3, g3, w3) == m.window_at(d3, g3, a3));
                assert(m.valid_pos(d3, g3, a3));
                lemma_same_ident_sym(w, m.window_at(d3, g3, a3));
            }
        } else if in3 && w3 == wi0 {
            let a2 = if in2 && w2 > wi0 {
                w2 - 1
            } else {
                w2
            };
            assert(m1.window_at(d2, g2, w2) == m.window_at(d2, g2, a2));
            assert(m.valid_pos(d2, g2, a2));
            assert(m1.window_at(d3, g3, w3) == w);
        } else {
            let a2 = if in2 && w2 > wi0 {
                w2 - 1
            } else {
                w2
            };
            let a3 = if in3 && w3 > wi0 {
                w3 - 1
            } else {
                w3
            };
            assert(m1.window_at(d2, g2, w2) == m.window_at(d2, g2, a2));
            assert(m1.window_at(d3, g3, w3) == m.window_at(d3, g3, a3));
            assert(m.valid_pos(d2, g2, a2) && m.valid_pos(d3, g3, a3));
        }
    }
    assert forall|d2: int, g2: int, w2: int, k: int|
        m1.valid_pos(d2, g2, w2) && 0 <= k < m1.minimized_windows.len() implies !(
    #[trigger] m1.window_at(d2, g2, w2)).same_ident(#[trigger] m1.minimized_windows[k]) by {
        let in2 = d2 == di && g2 == gi;
        if in2 && w2 == wi0 {
            assert(m1.window_at(d2, g2, w2) == w);
            lemma_same_ident_sym(w, m.minimized_windows[k]);
            assert(!m.minimized_windows[k].same_ident(w));
        } else {
            let a2 = if in2 && w2 > wi0 {
                w2 - 1
            } else {
                w2
            };
            assert(m1.window_at(d2, g2, w2) == m.window_at(d2, g2, a2));
            assert(m.valid_pos(d2, g2, a2));
        }
    }
}

/// Ownership after placing `w` alone in a fresh (or wholesale-replaced)
/// group at index `gi0` of display `di`.
proof fn lemma_fresh_group_ownership(m: WmModel, m1: WmModel, di: int, gi0: int, w: WindowHandle)
    requires
        m.distinct_ownership(),
        forall|d: int, g: int, wi: int|
            m.valid_pos(d, g, wi) ==> !(#[trigger] m.window_at(d, g, wi)).same_ident(w),
        forall|k: int|
            0 <= k < m.minimized_windows.len() ==> !(#[trigger] m.minimized_windows[k]).same_ident(
                w,
            ),
        m1.minimized_windows == m.minimized_windows,
        m1.displays.len() == m.displays.len(),
        0 <= di < m.displays.len(),
        0 <= gi0 <= m.displays[di].groups.len(),
        m1.displays[di].groups.len() == if gi0 < m.displays[di].groups.len() {
            m.displays[di].groups.len()
        } else {
            m.displays[di].groups.len() + 1
        },
        forall|g: int|
            0 <= g < m.displays[di].groups.len() && g != gi0 ==> (
            #[trigger] m1.displays[di].groups[g]).group.windows
                == m.displays[di].groups[g].group.windows,
        m1.displays[di].groups[gi0].group.windows == seq![w],
        forall|d: int| 0 <= d < m.displays.len() && d != di ==> m1.displays[d] == m.displays[d],
    ensures
        m1.distinct_ownership(),
{
    assert forall|d2: int, g2: int, w2: int, d3: int, g3: int, w3: int|
        m1.valid_pos(d2, g2, w2) && m1.valid_pos(d3, g3, w3) && !(d2 == d3 && g2 == g3 && w2
            == w3) implies !(#[trigger] m1.window_at(d2, g2, w2)).same_ident(
        #[trigger] m1.window_at(d3, g3, w3),
    ) by {
        let in2 = d2 == di && g2 == gi0;
        let in3 = d3 == di && g3 == gi0;
        if in2 {
            assert(m1.window_at(d2, g2, w2) == w);
            if in3 {
            } else {
                assert(m1.window_at(d3, g3, w3) == m.window_at(d3, g3, w3));
                assert(m.valid_pos(d3, g3, w3));
                lemma_same_ident_sym(w, m.window_at(d3, g3, w3));
            }
        } else if in3 {
            assert(m1.window_at(d2, g2, w2) == m.window_at(d2, g2, w2));
            assert(m.valid_pos(d2, g2, w2));
            assert(m1.window_at(d3, g3, w3) == w);
        } else {
            assert(m1.window_at(d2, g2, w2) == m.window_at(d2, g2, w2));
            assert(m1.window_at(d3, g3, w3) == m.window_at(d3, g3, w3));
            assert(m.valid_pos(d2, g2, w2) && m.valid_pos(d3, g3, w3));
        }
    }
    assert forall|d2: int, g2: int, w2: int, k: int|
        m1.valid_pos(d2, g2, w2) && 0 <= k < m1.minimized_windows.len() implies !(
    #[trigger] m1.window_at(d2, g2, w2)).same_ident(#[trigger] m1.minimized_windows[k]) by {
        if d2 == di && g2 == gi0 {
            assert(m1.window_at(d2, g2, w2) == w);
            lemma_same_ident_sym(w, m.minimized_windows[k]);
        } else {
            assert(m1.window_at(d2, g2, w2) == m.window_at(d2, g2, w2));
            assert(m.valid_pos(d2, g2, w2));
        }
    }
}

/// Ownership after placing `w` alone on a freshly created display state.
proof fn lemma_fresh_display_ownership(m: WmModel, m1: WmModel, w: WindowHandle)
    requires
        m.distinct_ownership(),
        forall|d: int, g: int, wi: int|
            m.valid_pos(d, g, wi) ==> !(#[trigger] m.window_at(d, g, wi)).same_ident(w),
        forall|k: int|
            0 <= k < m.minimized_windows.len() ==> !(#[trigger] m.minimized_windows[k]).same_ident(
                w,
            ),
        m1.minimized_windows == m.minimized_windows,
        m1.displays.len() == m.displays.len() + 1,
        forall|d: int| 0 <= d < m.displays.len() ==> m1.displays[d] == m.displays[d],
        m1.displays.last().groups.len() == 1,
        m1.displays.last().groups[0].group.windows == seq![w],
    ensures
        m1.distinct_ownership(),
{
    let nd = m.displays.len() as int;
    assert forall|d2: int, g2: int, w2: int, d3: int, g3: int, w3: int|
        m1.valid_pos(d2, g2, w2) && m1.valid_pos(d3, g3, w3) && !(d2 == d3 && g2 == g3 && w2
            == w3) implies !(#[trigger] m1.window_at(d2, g2, w2)).same_ident(
        #[trigger] m1.window_at(d3, g3, w3),
    ) by {
        if d2 == nd {
            assert(m1.window_at(d2, g2, w2) == w);
            if d3 == nd {
            } else {
                assert(m1.window_at(d3, g3, w3) == m.window_at(d3, g3, w3));
                assert(m.valid_pos(d3, g3, w3));
                lemma_same_ident_sym(w, m.window_at(d3, g3, w3));
            }
        } else if d3 == nd {
            assert(m1.window_at(d2, g2, w2) == m.window_at(d2, g2, w2));
            assert(m.valid_pos(d2, g2, w2));
            assert(m1.window_at(d3, g3, w3) == w);
        } else {
            assert(m1.window_at(d2, g2, w2) == m.window_at(d2, g2, w2));
            assert(m1.window_at(d3, g3, w3) == m.window_at(d3, g3, w3));
            assert(m.valid_pos(d2, g2, w2) && m.valid_pos(d3, g3, w3));
        }
    }
    assert forall|d2: int, g2: int, w2: int, k: int|
        m1.valid_pos(d2, g2, w2) && 0 <= k < m1.minimized_windows.len() implies !(
    #[trigger] m1.window_at(d2, g2, w2)).same_ident(#[trigger] m1.minimized_windows[k]) by {
        if d2 == nd {
            assert(m1.window_at(d2, g2, w2) == w);
            lemma_same_ident_sym(w, m.minimized_windows[k]);
        } else {
            assert(m1.window_at(d2, g2, w2) == m.window_at(d2, g2, w2));
            assert(m.valid_pos(d2, g2, w2));
        }
    }
}

/// Restoring the most recently minimized window keeps ownership
/// duplicate-free: it leaves the pool in the same stroke in which it joins a
/// group.
pub proof fn lemma_unminimize_ownership(m: WmModel)
    requires
        m.wf(),
        m.distinct_ownership(),
    ensures
        m.step_unminimize().0.distinct_ownership(),
{
    if m.minimized_windows.len() > 0 {
        let w = m.minimized_windows.last();
        let m1 = WmModel { minimized_windows: m.minimized_windows.drop_last(), ..m };
        assert forall|k: int| 0 <= k < m1.minimized_windows.len() implies (
        #[trigger] m1.minimized_windows[k]) == m.minimized_windows[k] by {}
        assert forall|d: int, g: int, wi: int| m1.valid_pos(d, g, wi) implies !(
        #[trigger] m1.window_at(d, g, wi)).same_ident(w) by {
            assert(m1.window_at(d, g, wi) == m.window_at(d, g, wi));
            assert(m.valid_pos(d, g, wi));
            assert(m.minimized_windows[m.minimized_windows.len() - 1] == w);
        }
        assert forall|d2: int, g2: int, w2: int, k: int|
            m1.valid_pos(d2, g2, w2) && 0 <= k < m1.minimized_windows.len() implies !(
        #[trigger] m1.window_at(d2, g2, w2)).same_ident(#[trigger] m1.minimized_windows[k]) by {
            assert(m1.window_at(d2, g2, w2) == m.window_at(d2, g2, w2));
            assert(m.valid_pos(d2, g2, w2));
            assert(m1.minimized_windows[k] == m.minimized_windows[k]);
        }
        assert forall|d2: int, g2: int, w2: int, d3: int, g3: int, w3: int|
            m1.valid_pos(d2, g2, w2) && m1.valid_pos(d3, g3, w3) && !(d2 == d3 && g2 == g3 && w2
                == w3) implies !(#[trigger] m1.window_at(d2, g2, w2)).same_ident(
            #[trigger] m1.window_at(d3, g3, w3),
        ) by {
            assert(m1.window_at(d2, g2, w2) == m.window_at(d2, g2, w2));
            assert(m1.window_at(d3, g3, w3) == m.window_at(d3, g3, w3));
            assert(m.valid_pos(d2, g2, w2) && m.valid_pos(d3, g3, w3));
        }
        assert(m1.distinct_ownership());
        lemma_insert_open_ownership(m1, w, w.display_id);
    }
}

/// Moving the selected window to another display keeps ownership
/// duplicate-free.
pub proof fn lemma_move_display_ownership(m: WmModel, di: int)
    requires
        m.wf(),
        m.distinct_ownership(),
    ensures
        m.step_move_active_to_display_idx(di).distinct_ownership(),
{
    if 0 <= di < m.display_info.len() {
        lemma_pop_ownership(m);
        let (m1, wopt) = m.step_pop_active();
        match wopt {
            Some(w) => {
                lemma_insert_open_ownership(m1, w, m.display_info[di].id);
            },
            None => {},
        }
    }
}

/// Moving the selected window to another group of its display keeps
/// ownership duplicate-free.
pub proof fn lemma_move_group_ownership(m: WmModel, g_id: u8)
    requires
        m.wf(),
        m.distinct_ownership(),
    ensures
        m.step_move_active_to_group(g_id).distinct_ownership(),
{
    match m.active_display() {
        None => {},
        Some(i) => {
            if m.active_display_idx is Some {
                lemma_find_display_state_props(
                    m.displays,
                    m.display_info[m.active_display_idx->0].id,
                );
            }
            lemma_pop_ownership(m);
            let d = m.displays[i];
            let (d1, wopt) = d.step_pop();
            let m_pop = m.step_pop_active().0;
            let d2 = d.step_move_active_to_group(g_id);
            let m_fin = m.step_move_active_to_group(g_id);
            assert(m_fin == m.with_display_at(i, d2));
            assert(m_pop == m.with_display_at(i, d1));
            match wopt {
                None => {
                    assert(d2 == d1);
                },
                Some(w) => {
                    lemma_find_group_props(d1.groups, g_id);
                    match crate::display_state::find_group(d1.groups, g_id) {
                        Some(gi2) => {
                            let g2 = d1.groups[gi2].group;
                            if exists|k: int| 0 <= k < g2.windows.len() && g2.windows[k].id
                                == w.id {
                                assert(d2 == d1);
                            } else if g2.windows.len() < crate::layout::MAX_WINDOWS {
                                assert(m_pop.displays[i] == d1);
                                g2.windows.insert_ensures(0, w);
                                assert(m_fin.displays[i].groups[gi2].group.windows
                                    == m_pop.displays[i].groups[gi2].group.windows.insert(0, w));
                                lemma_inserted_ownership(m_pop, m_fin, i, gi2, 0, w);
                            } else {
                                assert(d2 == d1);
                            }
                        },
                        None => {
                            assert(m_pop.displays[i] == d1);
                            assert(m_fin.displays[i].groups.len() == d1.groups.len() + 1);
                            assert(m_fin.displays[i].groups[d1.groups.len() as int].group.windows
                                =~= seq![w]);
                            lemma_fresh_group_ownership(m_pop, m_fin, i, d1.groups.len() as int, w);
                        },
                    }
                },
            }
        },
    }
}

/// Two managers holding the very same windows and pool share their
/// ownership facts.
proof fn lemma_same_windows_ownership(m: WmModel, m2: WmModel)
    requires
        m.distinct_ownership(),
        m2.minimized_windows == m.minimized_windows,
        m2.displays.len() == m.displays.len(),
        forall|d: int|
            0 <= d < m.displays.len() ==> (#[trigger] m2.displays[d]).groups.len()
                == m.displays[d].groups.len(),
        forall|d: int, g: int|
            0 <= d < m.displays.len() && 0 <= g < m.displays[d].groups.len()
                ==> m2.displays[d].groups[g].group.windows
                == m.displays[d].groups[g].group.windows,
    ensures
        m2.distinct_ownership(),
{
    assert forall|d1: int, g1: int, w1: int, d2: int, g2: int, w2: int|
        m2.valid_pos(d1, g1, w1) && m2.valid_pos(d2, g2, w2) && !(d1 == d2 && g1 == g2 && w1
            == w2) implies !(#[trigger] m2.window_at(d1, g1, w1)).same_ident(
        #[trigger] m2.window_at(d2, g2, w2),
    ) by {
        assert(m2.window_at(d1, g1, w1) == m.window_at(d1, g1, w1));
        assert(m2.window_at(d2, g2, w2) == m.window_at(d2, g2, w2));
        assert(m.valid_pos(d1, g1, w1) && m.valid_pos(d2, g2, w2));
    }
    assert forall|d1: int, g1: int, w1: int, k: int|
        m2.valid_pos(d1, g1, w1) && 0 <= k < m2.minimized_windows.len() implies !(
    #[trigger] m2.window_at(d1, g1, w1)).same_ident(#[trigger] m2.minimized_windows[k]) by {
        assert(m2.window_at(d1, g1, w1) == m.window_at(d1, g1, w1));
        assert(m.valid_pos(d1, g1, w1));
    }
}

/// Re-deriving the selection moves no window: ownership facts carry over.
pub proof fn lemma_refresh_active_ownership(m: WmModel)
    requires
        m.distinct_ownership(),
    ensures
        m.step_refresh_active().distinct_ownership(),
{
    let m2 = m.step_refresh_active();
    match crate::window_manager::first_frontmost_displays(m.displays) {
        None => {
            lemma_same_windows_ownership(m, m2);
        },
        Some(t) => {
            crate::window_manager::lemma_first_frontmost_displays_props(m.displays);
            crate::display_state::lemma_first_frontmost_in_groups_props(
                m.displays[t.0].groups,
            );
            lemma_same_windows_ownership(m, m2);
        },
    }
}

/// Inserting a run of scanned windows, each only when no tracked window
/// claims its identity, keeps ownership duplicate-free, provided no scanned
/// window shares an identity with the minimized pool.
proof fn lemma_insert_all_ownership(m: WmModel, open: Seq<WindowHandle>, own_pid: i64, i: int)
    requires
        m.distinct_ownership(),
        forall|j: int, k: int|
            0 <= j < open.len() && 0 <= k < m.minimized_windows.len() ==> !open[j].same_ident(
                m.minimized_windows[k],
            ),
    ensures
        insert_all(m, open, own_pid, i).distinct_ownership(),
    decreases open.len() - i,
{
    if 0 <= i < open.len() {
        let w = open[i];
        let m1 = if w.pid != own_pid && !m.window_exists(w) {
            m.step_insert_open_window(w, w.display_id)
        } else {
            m
        };
        if w.pid != own_pid && !m.window_exists(w) {
            assert forall|k: int| 0 <= k < m.minimized_windows.len() implies !(
            #[trigger] m.minimized_windows[k]).same_ident(w) by {
                lemma_same_ident_sym(m.minimized_windows[k], w);
            }
            lemma_insert_open_ownership(m, w, w.display_id);
            assert(m1.minimized_windows == m.minimized_windows);
        }
        lemma_insert_all_ownership(m1, open, own_pid, i + 1);
    }
}

/// A full refresh keeps ownership duplicate-free, provided the scan claims
/// each identity at most once: kept windows keep distinct identities, the
/// pool is replaced by the scan's duplicate-free minimized list, and a
/// window is inserted only when nothing tracked claims its identity.
pub proof fn lemma_refresh_ownership(m: WmModel, scan: ScanModel)
    requires
        m.wf(),
        m.distinct_ownership(),
        scan.wf(),
    ensures
        m.step_refresh(scan).distinct_ownership(),
{
    let open = scan.open_windows;
    let pool = scan.minimized_windows;
    let kept = crate::window_manager::retain_refresh_displays(m.displays, scan.displays, open);
    let m1 = WmModel {
        active_display_idx: None,
        display_info: scan.displays,
        displays: kept,
        minimized_windows: pool,
        ..m
    };
    crate::window_manager::lemma_retain_refresh_wf(m.displays, scan.displays, open);

    // the scan claims every identity at most once, so its open and
    // minimized parts are internally and mutually distinct
    assert forall|j: int, k: int|
        0 <= j < open.len() && 0 <= k < pool.len() implies !(#[trigger] open[j]).same_ident(
        #[trigger] pool[k],
    ) by {
        assert(scan.all_windows()[j] == open[j]);
        assert(scan.all_windows()[open.len() + k] == pool[k]);
    }
    assert forall|k1: int, k2: int| 0 <= k1 < k2 < pool.len() implies !pool[k1].same_ident(
        pool[k2],
    ) by {
        assert(scan.all_windows()[open.len() + k1] == pool[k1]);
        assert(scan.all_windows()[open.len() + k2] == pool[k2]);
    }

    // every kept window corresponds, identity intact, to a window of the
    // same group of the same old display, and to an open scan entry
    assert forall|d1: int, g1: int, w1: int, d2: int, g2: int, w2: int|
        m1.valid_pos(d1, g1, w1) && m1.valid_pos(d2, g2, w2) && !(d1 == d2 && g1 == g2 && w1
            == w2) implies !(#[trigger] m1.window_at(d1, g1, w1)).same_ident(
        #[trigger] m1.window_at(d2, g2, w2),
    ) by {
        let j1 = choose|j: int|
            0 <= j < m.displays.len() && #[trigger] kept[d1] == m.displays[j].step_refresh(open);
        let j2 = choose|j: int|
            0 <= j < m.displays.len() && #[trigger] kept[d2] == m.displays[j].step_refresh(open);
        let ws1 = m.displays[j1].groups[g1].group.windows;
        let ws2 = m.displays[j2].groups[g2].group.windows;
        assert(m1.window_at(d1, g1, w1) == filter_windows(ws1, open)[w1]);
        assert(m1.window_at(d2, g2, w2) == filter_windows(ws2, open)[w2]);
        lemma_filter_windows_idents(ws1, open);
        lemma_filter_windows_idents(ws2, open);
        if d1 == d2 && g1 == g2 {
            assert(j1 == j2);
            assert forall|a: int, b: int| 0 <= a < b < ws1.len() implies !(
            #[trigger] ws1[a]).same_ident(#[trigger] ws1[b]) by {
                assert(m.valid_pos(j1, g1, a) && m.valid_pos(j1, g1, b));
                assert(!m.window_at(j1, g1, a).same_ident(m.window_at(j1, g1, b)));
            }
            lemma_filter_windows_nodup(ws1, open);
            if w1 < w2 {
            } else {
                lemma_same_ident_sym(
                    filter_windows(ws1, open)[w1],
                    filter_windows(ws1, open)[w2],
                );
            }
        } else {
            if d1 != d2 {
                assert(kept[d1].display_id != kept[d2].display_id);
                assert(m.displays[j1].display_id == kept[d1].display_id);
                assert(m.displays[j2].display_id == kept[d2].display_id);
                assert(j1 != j2);
            } else {
                assert(m.displays[j1].display_id == m.displays[j2].display_id);
                assert(j1 == j2);
            }
            let p1 = choose|p: int|
                0 <= p < ws1.len() && (#[trigger] filter_windows(ws1, open)[w1]).same_ident(
                    ws1[p],
                );
            let p2 = choose|p: int|
                0 <= p < ws2.len() && (#[trigger] filter_windows(ws2, open)[w2]).same_ident(
                    ws2[p],
                );
            assert(m.valid_pos(j1, g1, p1) && m.valid_pos(j2, g2, p2));
            assert(!(j1 == j2 && g1 == g2 && p1 == p2));
            assert(!m.window_at(j1, g1, p1).same_ident(m.window_at(j2, g2, p2)));
            assert(ws1[p1] == m.window_at(j1, g1, p1));
            assert(ws2[p2] == m.window_at(j2, g2, p2));
        }
    }
    assert forall|d1: int, g1: int, w1: int, k: int|
        m1.valid_pos(d1, g1, w1) && 0 <= k < m1.minimized_windows.len() implies !(
    #[trigger] m1.window_at(d1, g1, w1)).same_ident(#[trigger] m1.minimized_windows[k]) by {
        let j1 = choose|j: int|
            0 <= j < m.displays.len() && #[trigger] kept[d1] == m.displays[j].step_refresh(open);
        let ws1 = m.displays[j1].groups[g1].group.windows;
        assert(m1.window_at(d1, g1, w1) == filter_windows(ws1, open)[w1]);
        lemma_filter_windows_idents(ws1, open);
        let p1 = choose|p: int|
            0 <= p < open.len() && (#[trigger] filter_windows(ws1, open)[w1]).same_ident(
                open[p],
            );
        assert(!open[p1].same_ident(pool[k]));
    }
    assert(m1.distinct_ownership());

    lemma_insert_all_ownership(m1, open, scan.own_pid, 0);
    lemma_refresh_active_ownership(insert_all(m1, open, scan.own_pid, 0));
}

/// Identity comparison is symmetric.
pub proof fn lemma_same_ident_sym(a: WindowHandle, b: WindowHandle)
    ensures
        a.same_ident(b) == b.same_ident(a),
{
}

/// Replacing a display state with one holding the very same windows keeps
/// ownership facts intact.
proof fn lemma_unchanged_ownership(m: WmModel, i: int, d1: crate::display_state::DisplayModel)
    requires
        m.distinct_ownership(),
        0 <= i < m.displays.len(),
        d1.groups.len() == m.displays[i].groups.len(),
        forall|g: int|
            0 <= g < d1.groups.len() ==> (#[trigger] d1.groups[g]).group.windows
                == m.displays[i].groups[g].group.windows,
    ensures
        m.with_display_at(i, d1).distinct_ownership(),
{
    let m1 = m.with_display_at(i, d1);
    assert forall|d2: int, g2: int, w2: int, d3: int, g3: int, w3: int|
        m1.valid_pos(d2, g2, w2) && m1.valid_pos(d3, g3, w3) && !(d2 == d3 && g2 == g3 && w2
            == w3) implies !(#[trigger] m1.window_at(d2, g2, w2)).same_ident(
        #[trigger] m1.window_at(d3, g3, w3),
    ) by {
        assert(m1.window_at(d2, g2, w2) == m.window_at(d2, g2, w2));
        assert(m1.window_at(d3, g3, w3) == m.window_at(d3, g3, w3));
        assert(m.valid_pos(d2, g2, w2) && m.valid_pos(d3, g3, w3));
    }
    assert forall|d2: int, g2: int, w2: int, k: int|
        m1.valid_pos(d2, g2, w2) && 0 <= k < m1.minimized_windows.len() implies !(
    #[trigger] m1.window_at(d2, g2, w2)).same_ident(#[trigger] m1.minimized_windows[k]) by {
        assert(m1.window_at(d2, g2, w2) == m.window_at(d2, g2, w2));
        assert(m.valid_pos(d2, g2, w2));
    }
}

/// Inserting scanned windows touches only the display states: the mode and
/// the on-screen decorations are untouched.
pub proof fn lemma_insert_all_preserves_chrome(
    m: WmModel,
    open: Seq<WindowHandle>,
    own_pid: i64,
    i: int,
)
    ensures
        insert_all(m, open, own_pid, i).mode == m.mode,
        insert_all(m, open, own_pid, i).highlight_visible == m.highlight_visible,
        insert_all(m, open, own_pid, i).status_visible == m.status_visible,
    decreases open.len() - i,
{
    if 0 <= i < open.len() {
        let m1 = if open[i].pid != own_pid && !m.window_exists(open[i]) {
            m.step_insert_open_window(open[i], open[i].display_id)
        } else {
            m
        };
        lemma_insert_all_preserves_chrome(m1, open, own_pid, i + 1);
    }
}

/// A full refresh touches only the window model: the mode and the on-screen
/// decorations are untouched.
pub proof fn lemma_refresh_preserves_chrome(m: WmModel, scan: ScanModel)
    ensures
        m.step_refresh(scan).mode == m.mode,
        m.step_refresh(scan).highlight_visible == m.highlight_visible,
        m.step_refresh(scan).status_visible == m.status_visible,
{
    let m1 = WmModel {
        active_display_idx: None,
        display_info: scan.displays,
        displays: crate::window_manager::retain_refresh_displays(
            m.displays,
            scan.displays,
            scan.open_windows,
        ),
        minimized_windows: scan.minimized_windows,
        ..m
    };
    lemma_insert_all_preserves_chrome(m1, scan.open_windows, scan.own_pid, 0);
}

/// Mode round-trip. From `Insert`, the transient chord resolves to entering
/// the transient mode, and releasing it resolves to returning to `Insert`;
/// after the two steps the manager is back in `Insert` with no residual
/// Normal-mode state: neither the selection highlight nor the status window
/// is on screen.
pub proof fn lemma_mode_round_trip(
    m: WmModel,
    chord_flags: u64,
    release_flags: u64,
    tiling: bool,
    scan: Option<ScanModel>,
)
    requires
        m.mode == Mode::Insert,
        spec_relevant_flags(chord_flags) == NORMAL_CHORD,
        spec_relevant_flags(release_flags) != NORMAL_CHORD,
    ensures
        spec_resolve(InputEvent::FlagsChanged { flags: chord_flags }, m.mode, tiling) == Some(
            Action::ModeInsertNormal,
        ),
        m.step_do_action(Action::ModeInsertNormal, scan).0.mode == Mode::InsertNormal,
        spec_resolve(
            InputEvent::FlagsChanged { flags: release_flags },
            m.step_do_action(Action::ModeInsertNormal, scan).0.mode,
            tiling,
        ) == Some(Action::ModeInsert),
        m.step_do_action(Action::ModeInsertNormal, scan).0.step_do_action(
            Action::ModeInsert,
            None,
        ).0.mode == Mode::Insert,
        !m.step_do_action(Action::ModeInsertNormal, scan).0.step_do_action(
            Action::ModeInsert,
            None,
        ).0.highlight_visible,
        !m.step_do_action(Action::ModeInsertNormal, scan).0.step_do_action(
            Action::ModeInsert,
            None,
        ).0.status_visible,
{
    let entered = WmModel { mode: Mode::InsertNormal, ..m };
    match scan {
        Some(s) => {
            lemma_refresh_preserves_chrome(entered, s);
        },
        None => {},
    }
}

} // verus!
