use vstd::prelude::*;

use crate::action::{Dir, InsertAction};
use crate::app::{
    apply_edits, spec_apply_insert, spec_clamp, spec_insert_new, spec_move_item,
    spec_start_edit, swap_seq, AppView, ModeView,
};
use crate::tab::Tab;

verus! {

/// Law: the clamp pass touches nothing but the cursors; afterwards
/// each cursor is in `[0, len-1]`, at 0 for an empty list, and a state
/// whose cursors were already valid is unchanged. Since this holds of
/// every state, it holds after any sequence of insert, delete and move
/// operations.
pub proof fn lemma_clamp_pass(v: AppView)
    ensures
        spec_clamp(v).clamped(),
        spec_clamp(v).todos == v.todos,
        spec_clamp(v).dones == v.dones,
        spec_clamp(v).curr_tab == v.curr_tab,
        spec_clamp(v).mode == v.mode,
        spec_clamp(v).show_number == v.show_number,
        v.clamped() ==> spec_clamp(v) == v,
{
    if v.clamped() {
        assert(spec_clamp(v) =~= v);
    }
}

/// Law: beginning an insertion and cancelling it at once is a true
/// no-op on the document: both lists come back with the same items in
/// the same order, on either tab and in either direction.
pub proof fn lemma_insert_new_cancel_noop(v: AppView, dir: Dir)
    requires
        v.clamped(),
    ensures
        ({
            let v2 = spec_apply_insert(spec_insert_new(v, dir), InsertAction::Cancel);
            &&& v2.todos == v.todos
            &&& v2.dones == v.dones
            &&& v2.curr_tab == v.curr_tab
            &&& v2.mode is Normal
            &&& v2.show_number == v.show_number
        }),
{
    let v1 = spec_insert_new(v, dir);
    let at = v1.active_idx();
    assert(0 <= at <= v.active_list().len());
    assert(v1.active_list() == v.active_list().insert(at, Seq::empty()));
    assert(v1.active_list().remove(at) =~= v.active_list());
    match v.curr_tab {
        Tab::Todos => {
            assert(spec_apply_insert(v1, InsertAction::Cancel).todos == v.todos);
        },
        Tab::Dones => {
            assert(spec_apply_insert(v1, InsertAction::Cancel).dones == v.dones);
        },
    }
}

/// The edit actions that type into the buffer: append a character or
/// trim the last one.
pub open spec fn only_typing(edits: Seq<InsertAction>) -> bool {
    forall|i: int|
        0 <= i < edits.len() ==> (#[trigger] edits[i] is Char || edits[i] is DeleteChar)
}

/// While only typing actions run, an edit session touches nothing but
/// the text of the item under the cursor; the snapshot, the cursors,
/// the tab and the other list stay as they were.
proof fn lemma_edits_keep_shape(u: AppView, edits: Seq<InsertAction>)
    requires
        u.mode is InsertEdit,
        0 <= u.active_idx() < u.active_list().len(),
        only_typing(edits),
    ensures
        ({
            let w = apply_edits(u, edits);
            &&& w.mode == u.mode
            &&& w.curr_tab == u.curr_tab
            &&& w.todos_idx == u.todos_idx
            &&& w.dones_idx == u.dones_idx
            &&& w.show_number == u.show_number
            &&& w.active_list() =~= u.active_list().update(
                u.active_idx(),
                w.active_list()[u.active_idx()],
            )
            &&& (u.curr_tab is Todos ==> w.dones == u.dones)
            &&& (u.curr_tab is Dones ==> w.todos == u.todos)
        }),
    decreases edits.len(),
{
    if edits.len() == 0 {
        let w = apply_edits(u, edits);
        assert(w == u);
        assert(w.active_list() =~= u.active_list().update(
            u.active_idx(),
            w.active_list()[u.active_idx()],
        ));
    } else {
        let u1 = spec_apply_insert(u, edits[0]);
        assert(u1.mode == u.mode);
        assert(u1.active_list() == u.active_list().update(
            u.active_idx(),
            u1.active_list()[u.active_idx()],
        ));
        assert(only_typing(edits.drop_first()));
        lemma_edits_keep_shape(u1, edits.drop_first());
        let w = apply_edits(u, edits);
        assert(w == apply_edits(u1, edits.drop_first()));
        assert(w.active_list() =~= u.active_list().update(
            u.active_idx(),
            w.active_list()[u.active_idx()],
        ));
    }
}

/// Law: cancelling an edit restores the exact pre-edit text, after any
/// number of character insertions and deletions; the whole document
/// comes back as it was.
pub proof fn lemma_edit_cancel_restores(v: AppView, edits: Seq<InsertAction>)
    requires
        v.clamped(),
        v.mode is Normal,
        v.active_list().len() > 0,
        only_typing(edits),
    ensures
        ({
            let v2 = spec_apply_insert(
                apply_edits(spec_start_edit(v), edits),
                InsertAction::Cancel,
            );
            &&& v2.todos == v.todos
            &&& v2.dones == v.dones
            &&& v2.curr_tab == v.curr_tab
            &&& v2.mode is Normal
            &&& v2.show_number == v.show_number
        }),
{
    let u = spec_start_edit(v);
    let idx = v.active_idx();
    let snap = v.active_list()[idx];
    assert(u.mode == ModeView::InsertEdit(snap));
    assert(u.active_list() == v.active_list());
    lemma_edits_keep_shape(u, edits);
    let w = apply_edits(u, edits);
    let v2 = spec_apply_insert(w, InsertAction::Cancel);
    assert(v2.active_list() =~= w.active_list().update(idx, snap));
    assert(w.active_list().update(idx, snap) =~= v.active_list());
    match v.curr_tab {
        Tab::Todos => {
            assert(v2.todos == v.todos);
            assert(v2.dones == v.dones);
        },
        Tab::Dones => {
            assert(v2.todos == v.todos);
            assert(v2.dones == v.dones);
        },
    }
}

/// Law: moving an item is a stable adjacent swap. Moving the first
/// item down and then up brings the whole state back, cursor at index
/// 0 included.
pub proof fn lemma_move_item_down_up(v: AppView)
    requires
        v.clamped(),
        v.active_list().len() > 0,
        v.active_idx() == 0,
    ensures
        spec_move_item(spec_move_item(v, Dir::Down), Dir::Up) == v,
{
    let l = v.active_list();
    let v1 = spec_move_item(v, Dir::Down);
    let v2 = spec_move_item(v1, Dir::Up);
    if l.len() == 1 {
        assert(swap_seq(l, 0, 0) =~= l);
        assert(v1.active_list() =~= l);
        assert(v2.active_list() =~= l);
    } else {
        assert(v1.active_list() == swap_seq(l, 0, 1));
        assert(v1.active_idx() == 1);
        assert(v2.active_list() =~= l);
    }
    assert(v2 =~= v);
}

} // verus!
