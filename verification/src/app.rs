use vstd::prelude::*;

use crate::action::{Action, Dir, InsertAction, KeyInput, TabAction};
use crate::action::{spec_decode_insert, spec_decode_normal};
use crate::tab::Tab;
use crate::text::{push_char, trim_last_char};
use crate::text::{
    lemma_strings_view_insert, lemma_strings_view_push, lemma_strings_view_remove,
    lemma_strings_view_update, strings_view,
};
use vstd::pervasive::VecAdditionalExecFns;

verus! {

/// What an in-flight insertion is: a freshly inserted empty item, or
/// an in-place edit of an existing one, with the pre-edit text kept
/// for rollback.
pub enum InsertMode {
    New,
    Edit(String),
}

/// The global mode: exactly one at a time.
pub enum Mode {
    Normal,
    Insert(InsertMode),
    Help,
}

/// The mathematical shape of the mode, with the edit snapshot as a
/// character sequence.
pub enum ModeView {
    Normal,
    InsertNew,
    InsertEdit(Seq<char>),
    Help,
}

impl View for Mode {
    type V = ModeView;

    open spec fn view(&self) -> ModeView {
        match self {
            Mode::Normal => ModeView::Normal,
            Mode::Insert(InsertMode::New) => ModeView::InsertNew,
            Mode::Insert(InsertMode::Edit(snap)) => ModeView::InsertEdit(snap@),
            Mode::Help => ModeView::Help,
        }
    }
}

impl ModeView {
    /// An insertion (new or edit) is in flight.
    pub open spec fn is_insert(self) -> bool {
        self is InsertNew || self is InsertEdit
    }
}

/// What one handled key asks of the surrounding event loop: keep
/// going, or leave it, saving or not. The quit signals are values, not
/// errors.
#[derive(Clone, Copy, PartialEq, Eq, Structural, Debug)]
pub enum Flow {
    Continue,
    SaveQuit,
    NoSaveQuit,
}

impl Flow {
    /// Only a save-quit rewrites the file; a no-save quit discards all
    /// in-memory changes.
    pub fn should_save(self) -> (b: bool)
        ensures
            b == (self is SaveQuit),
    {
        matches!(self, Flow::SaveQuit)
    }
}

/// The mathematical state of the tracker: both lists as sequences of
/// character sequences, one cursor index per list, the active tab, the
/// mode and the numbering flag.
#[verifier::ext_equal]
pub struct AppView {
    pub todos: Seq<Seq<char>>,
    pub dones: Seq<Seq<char>>,
    pub todos_idx: int,
    pub dones_idx: int,
    pub curr_tab: Tab,
    pub mode: ModeView,
    pub show_number: bool,
}

impl AppView {
    pub open spec fn active_list(self) -> Seq<Seq<char>> {
        match self.curr_tab {
            Tab::Todos => self.todos,
            Tab::Dones => self.dones,
        }
    }

    pub open spec fn active_idx(self) -> int {
        match self.curr_tab {
            Tab::Todos => self.todos_idx,
            Tab::Dones => self.dones_idx,
        }
    }

    pub open spec fn with_active_list(self, l: Seq<Seq<char>>) -> AppView {
        match self.curr_tab {
            Tab::Todos => AppView { todos: l, ..self },
            Tab::Dones => AppView { dones: l, ..self },
        }
    }

    pub open spec fn with_active_idx(self, i: int) -> AppView {
        match self.curr_tab {
            Tab::Todos => AppView { todos_idx: i, ..self },
            Tab::Dones => AppView { dones_idx: i, ..self },
        }
    }

    /// Both cursors sit inside their lists (at 0 for an empty list).
    /// The clamp pass at the top of every tick establishes this; every
    /// action may assume it.
    pub open spec fn clamped(self) -> bool {
        &&& 0 <= self.todos_idx
        &&& 0 <= self.dones_idx
        &&& self.todos.len() == 0 ==> self.todos_idx == 0
        &&& self.todos.len() > 0 ==> self.todos_idx < self.todos.len()
        &&& self.dones.len() == 0 ==> self.dones_idx == 0
        &&& self.dones.len() > 0 ==> self.dones_idx < self.dones.len()
    }

    /// While an insertion is in flight the active cursor points at the
    /// item being typed into.
    pub open spec fn wf(self) -> bool {
        self.mode.is_insert() ==> 0 <= self.active_idx() < self.active_list().len()
    }
}

/// One cursor forced back into `[0, len-1]`, or to 0 for an empty
/// list.
pub open spec fn clamp_idx(i: int, len: int) -> int {
    if len == 0 || i < 0 {
        0
    } else if i < len {
        i
    } else {
        len - 1
    }
}

/// The clamp pass: both cursors forced into range.
pub open spec fn spec_clamp(v: AppView) -> AppView {
    AppView {
        todos_idx: clamp_idx(v.todos_idx, v.todos.len() as int),
        dones_idx: clamp_idx(v.dones_idx, v.dones.len() as int),
        ..v
    }
}

/// Transfer: the item under the cursor leaves the active list and is
/// appended at the end of the other one. Nothing happens on an empty
/// active list.
pub open spec fn spec_enter(v: AppView) -> AppView {
    match v.curr_tab {
        Tab::Todos => if v.todos.len() == 0 {
            v
        } else {
            AppView {
                todos: v.todos.remove(v.todos_idx),
                dones: v.dones.push(v.todos[v.todos_idx]),
                ..v
            }
        },
        Tab::Dones => if v.dones.len() == 0 {
            v
        } else {
            AppView {
                dones: v.dones.remove(v.dones_idx),
                todos: v.todos.push(v.dones[v.dones_idx]),
                ..v
            }
        },
    }
}

/// Tab switching never moves a cursor.
pub open spec fn spec_switch_tab(v: AppView, ta: TabAction) -> AppView {
    match ta {
        TabAction::Toggle => AppView { curr_tab: v.curr_tab.spec_toggle(), ..v },
        TabAction::Left => AppView { curr_tab: Tab::Todos, ..v },
        TabAction::Right => AppView { curr_tab: Tab::Dones, ..v },
    }
}

/// Cursor movement: down increments freely (the next clamp pass
/// corrects it), up saturates at 0.
pub open spec fn spec_move_cursor(v: AppView, dir: Dir) -> AppView {
    match dir {
        Dir::Down => v.with_active_idx(v.active_idx() + 1),
        Dir::Up => v.with_active_idx(if v.active_idx() > 0 {
            v.active_idx() - 1
        } else {
            0
        }),
    }
}

/// The active cursor set to an arbitrary position; `GotoEnd` uses a
/// sentinel beyond any list, resolved by the next clamp pass.
pub open spec fn spec_goto(v: AppView, pos: int) -> AppView {
    v.with_active_idx(pos)
}

/// The item under the cursor is removed; the cursor stays put until
/// the next clamp pass. Nothing happens on an empty active list.
pub open spec fn spec_delete(v: AppView) -> AppView {
    if v.active_list().len() == 0 {
        v
    } else {
        v.with_active_list(v.active_list().remove(v.active_idx()))
    }
}

/// Two positions of a sequence exchanged.
pub open spec fn swap_seq(l: Seq<Seq<char>>, i: int, j: int) -> Seq<Seq<char>> {
    l.update(i, l[j]).update(j, l[i])
}

/// The item under the cursor swapped with its neighbour, the cursor
/// following it; saturating at both ends of the list.
pub open spec fn spec_move_item(v: AppView, dir: Dir) -> AppView {
    if v.active_list().len() == 0 {
        v
    } else {
        let i = v.active_idx();
        let j = match dir {
            Dir::Down => if i + 1 < v.active_list().len() {
                i + 1
            } else {
                v.active_list().len() - 1
            },
            Dir::Up => if i > 0 {
                i - 1
            } else {
                0
            },
        };
        v.with_active_list(swap_seq(v.active_list(), i, j)).with_active_idx(j)
    }
}

/// A fresh empty item inserted at the cursor (above) or just after it
/// (below), the position capped at the list's end; the cursor moves
/// onto it and an insertion begins.
pub open spec fn spec_insert_new(v: AppView, dir: Dir) -> AppView {
    let raw = match dir {
        Dir::Up => v.active_idx(),
        Dir::Down => v.active_idx() + 1,
    };
    let at = if raw > v.active_list().len() {
        v.active_list().len() as int
    } else {
        raw
    };
    let v1 = v.with_active_list(v.active_list().insert(at, Seq::empty())).with_active_idx(at);
    AppView { mode: ModeView::InsertNew, ..v1 }
}

/// Editing the item under the cursor begins, its current text kept as
/// the rollback snapshot. Nothing happens on an empty active list.
pub open spec fn spec_start_edit(v: AppView) -> AppView {
    if v.active_list().len() == 0 {
        v
    } else {
        AppView { mode: ModeView::InsertEdit(v.active_list()[v.active_idx()]), ..v }
    }
}

/// A string with its last character removed, if it has one.
pub open spec fn trim_last(s: Seq<char>) -> Seq<char> {
    if s.len() == 0 {
        s
    } else {
        s.drop_last()
    }
}

/// One insert-mode action applied: append or trim the item under the
/// cursor, commit (keeping it as typed), or cancel. Cancelling an
/// insertion deletes the fresh item; cancelling an edit restores the
/// snapshot.
pub open spec fn spec_apply_insert(v: AppView, ia: InsertAction) -> AppView {
    match ia {
        InsertAction::Enter => AppView { mode: ModeView::Normal, ..v },
        InsertAction::Cancel => match v.mode {
            ModeView::InsertEdit(snap) => AppView {
                mode: ModeView::Normal,
                ..v.with_active_list(v.active_list().update(v.active_idx(), snap))
            },
            _ => AppView { mode: ModeView::Normal, ..spec_delete(v) },
        },
        InsertAction::Char(c) => v.with_active_list(
            v.active_list().update(
                v.active_idx(),
                v.active_list()[v.active_idx()].push(c),
            ),
        ),
        InsertAction::DeleteChar => v.with_active_list(
            v.active_list().update(
                v.active_idx(),
                trim_last(v.active_list()[v.active_idx()]),
            ),
        ),
    }
}

/// A whole sequence of insert-mode actions applied in order.
pub open spec fn apply_edits(v: AppView, edits: Seq<InsertAction>) -> AppView
    decreases edits.len(),
{
    if edits.len() == 0 {
        v
    } else {
        apply_edits(spec_apply_insert(v, edits[0]), edits.drop_first())
    }
}

/// One normal-mode action applied: the next state, and what the event
/// loop should do.
pub open spec fn spec_execute_action(v: AppView, action: Action) -> (AppView, Flow) {
    match action {
        Action::Enter => (spec_enter(v), Flow::Continue),
        Action::SwitchTab(ta) => (spec_switch_tab(v, ta), Flow::Continue),
        Action::Insert(dir) => (spec_insert_new(v, dir), Flow::Continue),
        Action::Edit => (spec_start_edit(v), Flow::Continue),
        Action::MoveCursor(dir) => (spec_move_cursor(v, dir), Flow::Continue),
        Action::MoveItem(dir) => (spec_move_item(v, dir), Flow::Continue),
        Action::GotoBegin => (spec_goto(v, 0), Flow::Continue),
        Action::GotoEnd => (spec_goto(v, usize::MAX as int), Flow::Continue),
        Action::Delete => (spec_delete(v), Flow::Continue),
        Action::SaveQuit => (v, Flow::SaveQuit),
        Action::NoSaveQuit => (v, Flow::NoSaveQuit),
        Action::ShowHelp => (AppView { mode: ModeView::Help, ..v }, Flow::Continue),
        Action::ShowNumber => (AppView { show_number: !v.show_number, ..v }, Flow::Continue),
    }
}

/// In help mode the quit keys leave the help screen and nothing else
/// reacts; the application never quits from here.
pub open spec fn spec_help_action(v: AppView, action: Action) -> AppView {
    match action {
        Action::SaveQuit => AppView { mode: ModeView::Normal, ..v },
        Action::NoSaveQuit => AppView { mode: ModeView::Normal, ..v },
        _ => v,
    }
}

/// One raw key handled: decoded by the decoder the current mode
/// selects, then applied.
pub open spec fn spec_step(v: AppView, input: KeyInput) -> (AppView, Flow) {
    match v.mode {
        ModeView::Normal => match spec_decode_normal(input) {
            Some(a) => spec_execute_action(v, a),
            None => (v, Flow::Continue),
        },
        ModeView::Help => match spec_decode_normal(input) {
            Some(a) => (spec_help_action(v, a), Flow::Continue),
            None => (v, Flow::Continue),
        },
        _ => match spec_decode_insert(input) {
            Some(ia) => (spec_apply_insert(v, ia), Flow::Continue),
            None => (v, Flow::Continue),
        },
    }
}

/// The interactive state: two lists of items, a cursor per list, the
/// active tab, the mode, and whether entries are numbered.
pub struct App {
    pub todos: Vec<String>,
    pub dones: Vec<String>,
    pub todos_idx: usize,
    pub dones_idx: usize,
    pub curr_tab: Tab,
    pub mode: Mode,
    pub show_number: bool,
}

impl View for App {
    type V = AppView;

    open spec fn view(&self) -> AppView {
        AppView {
            todos: strings_view(self.todos@),
            dones: strings_view(self.dones@),
            todos_idx: self.todos_idx as int,
            dones_idx: self.dones_idx as int,
            curr_tab: self.curr_tab,
            mode: self.mode@,
            show_number: self.show_number,
        }
    }
}

impl App {
    /// A fresh session over the given lists: cursors at 0, todo list
    /// active, normal mode, numbering off.
    pub fn new(todos: Vec<String>, dones: Vec<String>) -> (s: App)
        ensures
            s@ == (AppView {
                todos: strings_view(todos@),
                dones: strings_view(dones@),
                todos_idx: 0,
                dones_idx: 0,
                curr_tab: Tab::Todos,
                mode: ModeView::Normal,
                show_number: false,
            }),
            s@.wf(),
            s@.clamped(),
    {
        App {
            todos,
            dones,
            todos_idx: 0,
            dones_idx: 0,
            curr_tab: Tab::Todos,
            mode: Mode::Normal,
            show_number: false,
        }
    }

    /// The clamp pass, run once at the top of every tick.
    pub fn clamp_indexes(&mut self)
        ensures
            final(self)@ == spec_clamp(old(self)@),
            final(self)@.clamped(),
            old(self)@.wf() ==> final(self)@.wf(),
    {
        if self.todos.len() == 0 {
            self.todos_idx = 0;
        } else if self.todos_idx >= self.todos.len() {
            self.todos_idx = self.todos.len() - 1;
        }
        if self.dones.len() == 0 {
            self.dones_idx = 0;
        } else if self.dones_idx >= self.dones.len() {
            self.dones_idx = self.dones.len() - 1;
        }
        proof {
            assert(final(self)@ =~= spec_clamp(old(self)@));
        }
    }

    fn handle_enter_press(&mut self)
        requires
            old(self)@.clamped(),
        ensures
            final(self)@ == spec_enter(old(self)@),
    {
        match self.curr_tab {
            Tab::Todos => {
                if self.todos.is_empty() {
                    return;
                }
                let value = self.todos.remove(self.todos_idx);
                proof {
                    lemma_strings_view_remove(old(self).todos@, old(self).todos_idx as int);
                }
                self.dones.push(value);
                proof {
                    lemma_strings_view_push(old(self).dones@, value);
                    assert(final(self)@ =~= spec_enter(old(self)@));
                }
            },
            Tab::Dones => {
                if self.dones.is_empty() {
                    return;
                }
                let value = self.dones.remove(self.dones_idx);
                proof {
                    lemma_strings_view_remove(old(self).dones@, old(self).dones_idx as int);
                }
                self.todos.push(value);
                proof {
                    lemma_strings_view_push(old(self).todos@, value);
                    assert(final(self)@ =~= spec_enter(old(self)@));
                }
            },
        }
    }

    fn handle_cursor_move(&mut self, direction: Dir)
        requires
            old(self)@.clamped(),
        ensures
            final(self)@ == spec_move_cursor(old(self)@, direction),
    {
        match self.curr_tab {
            Tab::Todos => {
                // a clamped cursor sits below this length, so the
                // increment stays in range
                let _len = self.todos.len();
                match direction {
                    Dir::Down => self.todos_idx = self.todos_idx + 1,
                    Dir::Up => self.todos_idx = if self.todos_idx > 0 {
                        self.todos_idx - 1
                    } else {
                        0
                    },
                }
            },
            Tab::Dones => {
                let _len = self.dones.len();
                match direction {
                    Dir::Down => self.dones_idx = self.dones_idx + 1,
                    Dir::Up => self.dones_idx = if self.dones_idx > 0 {
                        self.dones_idx - 1
                    } else {
                        0
                    },
                }
            },
        }
        proof {
            assert(final(self)@ =~= spec_move_cursor(old(self)@, direction));
        }
    }

    fn handle_delete(&mut self)
        requires
            old(self)@.clamped() || (old(self)@.wf() && old(self)@.mode.is_insert()),
        ensures
            final(self)@ == spec_delete(old(self)@),
    {
        match self.curr_tab {
            Tab::Todos => {
                if self.todos.is_empty() {
                    return;
                }
                self.todos.remove(self.todos_idx);
                proof {
                    lemma_strings_view_remove(old(self).todos@, old(self).todos_idx as int);
                    assert(final(self)@ =~= spec_delete(old(self)@));
                }
            },
            Tab::Dones => {
                if self.dones.is_empty() {
                    return;
                }
                self.dones.remove(self.dones_idx);
                proof {
                    lemma_strings_view_remove(old(self).dones@, old(self).dones_idx as int);
                    assert(final(self)@ =~= spec_delete(old(self)@));
                }
            },
        }
    }

    fn handle_move_item(&mut self, direction: Dir)
        requires
            old(self)@.clamped(),
        ensures
            final(self)@ == spec_move_item(old(self)@, direction),
    {
        let len = match self.curr_tab {
            Tab::Todos => self.todos.len(),
            Tab::Dones => self.dones.len(),
        };
        if len == 0 {
            return;
        }
        let idx_val = match self.curr_tab {
            Tab::Todos => self.todos_idx,
            Tab::Dones => self.dones_idx,
        };
        let new_idx = match direction {
            Dir::Down => if idx_val + 1 < len {
                idx_val + 1
            } else {
                len - 1
            },
            Dir::Up => if idx_val > 0 {
                idx_val - 1
            } else {
                0
            },
        };
        match self.curr_tab {
            Tab::Todos => {
                let a = self.todos[idx_val].clone();
                let b = self.todos[new_idx].clone();
                self.todos.set(idx_val, b);
                self.todos.set(new_idx, a);
                self.todos_idx = new_idx;
                proof {
                    lemma_strings_view_update(old(self).todos@, idx_val as int, b);
                    lemma_strings_view_update(
                        old(self).todos@.update(idx_val as int, b),
                        new_idx as int,
                        a,
                    );
                    assert(final(self)@ =~= spec_move_item(old(self)@, direction));
                }
            },
            Tab::Dones => {
                let a = self.dones[idx_val].clone();
                let b = self.dones[new_idx].clone();
                self.dones.set(idx_val, b);
                self.dones.set(new_idx, a);
                self.dones_idx = new_idx;
                proof {
                    lemma_strings_view_update(old(self).dones@, idx_val as int, b);
                    lemma_strings_view_update(
                        old(self).dones@.update(idx_val as int, b),
                        new_idx as int,
                        a,
                    );
                    assert(final(self)@ =~= spec_move_item(old(self)@, direction));
                }
            },
        }
    }

    fn goto_list_pos(&mut self, pos: usize)
        ensures
            final(self)@ == spec_goto(old(self)@, pos as int),
    {
        match self.curr_tab {
            Tab::Todos => self.todos_idx = pos,
            Tab::Dones => self.dones_idx = pos,
        }
        proof {
            assert(final(self)@ =~= spec_goto(old(self)@, pos as int));
        }
    }

    fn start_insert_mode(&mut self, direction: Dir)
        requires
            old(self)@.clamped(),
        ensures
            final(self)@ == spec_insert_new(old(self)@, direction),
            final(self)@.wf(),
    {
        self.mode = Mode::Insert(InsertMode::New);
        let len = match self.curr_tab {
            Tab::Todos => self.todos.len(),
            Tab::Dones => self.dones.len(),
        };
        let idx_val = match self.curr_tab {
            Tab::Todos => self.todos_idx,
            Tab::Dones => self.dones_idx,
        };
        let raw = match direction {
            Dir::Up => idx_val,
            Dir::Down => idx_val + 1,
        };
        let at = if raw > len {
            len
        } else {
            raw
        };
        let fresh = String::new();
        let ghost gfresh: String = fresh;
        match self.curr_tab {
            Tab::Todos => {
                self.todos.insert(at, fresh);
                self.todos_idx = at;
                proof {
                    lemma_strings_view_insert(old(self).todos@, at as int, gfresh);
                    assert(final(self)@ =~= spec_insert_new(old(self)@, direction));
                }
            },
            Tab::Dones => {
                self.dones.insert(at, fresh);
                self.dones_idx = at;
                proof {
                    lemma_strings_view_insert(old(self).dones@, at as int, gfresh);
                    assert(final(self)@ =~= spec_insert_new(old(self)@, direction));
                }
            },
        }
    }

    fn start_edit_mode(&mut self)
        requires
            old(self)@.clamped(),
            old(self)@.mode is Normal,
        ensures
            final(self)@ == spec_start_edit(old(self)@),
            final(self)@.wf(),
    {
        let snap = match self.curr_tab {
            Tab::Todos => {
                if self.todos.is_empty() {
                    proof {
                        assert(final(self)@ =~= spec_start_edit(old(self)@));
                    }
                    return;
                }
                self.todos[self.todos_idx].clone()
            },
            Tab::Dones => {
                if self.dones.is_empty() {
                    proof {
                        assert(final(self)@ =~= spec_start_edit(old(self)@));
                    }
                    return;
                }
                self.dones[self.dones_idx].clone()
            },
        };
        self.mode = Mode::Insert(InsertMode::Edit(snap));
        proof {
            assert(final(self)@ =~= spec_start_edit(old(self)@));
        }
    }

    fn handle_help_mode(&mut self, action: Action)
        ensures
            final(self)@ == spec_help_action(old(self)@, action),
    {
        match action {
            Action::SaveQuit => self.mode = Mode::Normal,
            Action::NoSaveQuit => self.mode = Mode::Normal,
            _ => {},
        }
        proof {
            assert(final(self)@ =~= spec_help_action(old(self)@, action));
        }
    }

    fn handle_insert_mode(&mut self, code: InsertAction)
        requires
            old(self)@.clamped(),
            old(self)@.wf(),
            old(self)@.mode.is_insert(),
        ensures
            final(self)@ == spec_apply_insert(old(self)@, code),
            final(self)@.wf(),
    {
        let idx_val = match self.curr_tab {
            Tab::Todos => self.todos_idx,
            Tab::Dones => self.dones_idx,
        };
        match code {
            InsertAction::Enter => {
                self.mode = Mode::Normal;
                proof {
                    assert(final(self)@ =~= spec_apply_insert(old(self)@, code));
                }
            },
            InsertAction::Cancel => {
                let snap_opt = match &self.mode {
                    Mode::Insert(InsertMode::Edit(snap)) => Some(snap.clone()),
                    _ => None,
                };
                self.mode = Mode::Normal;
                match snap_opt {
                    Some(snap) => {
                        match self.curr_tab {
                            Tab::Todos => {
                                self.todos.set(idx_val, snap);
                                proof {
                                    lemma_strings_view_update(
                                        old(self).todos@,
                                        idx_val as int,
                                        snap,
                                    );
                                }
                            },
                            Tab::Dones => {
                                self.dones.set(idx_val, snap);
                                proof {
                                    lemma_strings_view_update(
                                        old(self).dones@,
                                        idx_val as int,
                                        snap,
                                    );
                                }
                            },
                        }
                        proof {
                            assert(final(self)@ =~= spec_apply_insert(old(self)@, code));
                        }
                    },
                    None => {
                        self.handle_delete();
                        proof {
                            assert(final(self)@ =~= spec_apply_insert(old(self)@, code));
                        }
                    },
                }
            },
            InsertAction::Char(c) => {
                match self.curr_tab {
                    Tab::Todos => {
                        let mut buf = self.todos[idx_val].clone();
                        push_char(&mut buf, c);
                        self.todos.set(idx_val, buf);
                        proof {
                            lemma_strings_view_update(old(self).todos@, idx_val as int, buf);
                            assert(final(self)@ =~= spec_apply_insert(old(self)@, code));
                        }
                    },
                    Tab::Dones => {
                        let mut buf = self.dones[idx_val].clone();
                        push_char(&mut buf, c);
                        self.dones.set(idx_val, buf);
                        proof {
                            lemma_strings_view_update(old(self).dones@, idx_val as int, buf);
                            assert(final(self)@ =~= spec_apply_insert(old(self)@, code));
                        }
                    },
                }
            },
            InsertAction::DeleteChar => {
                match self.curr_tab {
                    Tab::Todos => {
                        let buf = trim_last_char(&self.todos[idx_val]);
                        proof {
                            assert(buf@ =~= trim_last(old(self)@.todos[idx_val as int]));
                        }
                        self.todos.set(idx_val, buf);
                        proof {
                            lemma_strings_view_update(old(self).todos@, idx_val as int, buf);
                            assert(final(self)@ =~= spec_apply_insert(old(self)@, code));
                        }
                    },
                    Tab::Dones => {
                        let buf = trim_last_char(&self.dones[idx_val]);
                        proof {
                            assert(buf@ =~= trim_last(old(self)@.dones[idx_val as int]));
                        }
                        self.dones.set(idx_val, buf);
                        proof {
                            lemma_strings_view_update(old(self).dones@, idx_val as int, buf);
                            assert(final(self)@ =~= spec_apply_insert(old(self)@, code));
                        }
                    },
                }
            },
        }
    }

    /// One normal-mode action applied to the state; the returned flow
    /// tells the event loop whether to keep going or quit.
    pub fn execute_action(&mut self, action: Action) -> (f: Flow)
        requires
            old(self)@.clamped(),
            old(self)@.mode is Normal,
        ensures
            final(self)@ == spec_execute_action(old(self)@, action).0,
            f == spec_execute_action(old(self)@, action).1,
            final(self)@.wf(),
    {
        match action {
            Action::Enter => {
                self.handle_enter_press();
                Flow::Continue
            },
            Action::SwitchTab(ta) => {
                match ta {
                    TabAction::Toggle => self.curr_tab = self.curr_tab.toggle(),
                    TabAction::Left => self.curr_tab = Tab::Todos,
                    TabAction::Right => self.curr_tab = Tab::Dones,
                }
                proof {
                    assert(final(self)@ =~= spec_switch_tab(old(self)@, ta));
                }
                Flow::Continue
            },
            Action::Insert(dir) => {
                self.start_insert_mode(dir);
                Flow::Continue
            },
            Action::Edit => {
                self.start_edit_mode();
                Flow::Continue
            },
            Action::MoveCursor(dir) => {
                self.handle_cursor_move(dir);
                Flow::Continue
            },
            Action::MoveItem(dir) => {
                self.handle_move_item(dir);
                Flow::Continue
            },
            Action::GotoBegin => {
                self.goto_list_pos(0);
                Flow::Continue
            },
            Action::GotoEnd => {
                self.goto_list_pos(usize::MAX);
                Flow::Continue
            },
            Action::Delete => {
                self.handle_delete();
                Flow::Continue
            },
            Action::SaveQuit => Flow::SaveQuit,
            Action::NoSaveQuit => Flow::NoSaveQuit,
            Action::ShowHelp => {
                self.mode = Mode::Help;
                proof {
                    assert(final(self)@ =~= spec_execute_action(old(self)@, action).0);
                }
                Flow::Continue
            },
            Action::ShowNumber => {
                self.show_number = !self.show_number;
                proof {
                    assert(final(self)@ =~= spec_execute_action(old(self)@, action).0);
                }
                Flow::Continue
            },
        }
    }

    /// One raw key handled by whichever decoder the current mode
    /// selects. Unmapped input leaves the state untouched.
    pub fn handle_key(&mut self, input: KeyInput) -> (f: Flow)
        requires
            old(self)@.clamped(),
            old(self)@.wf(),
        ensures
            final(self)@ == spec_step(old(self)@, input).0,
            f == spec_step(old(self)@, input).1,
            final(self)@.wf(),
    {
        if matches!(self.mode, Mode::Normal) {
            match Action::from_key(input) {
                Some(a) => self.execute_action(a),
                None => Flow::Continue,
            }
        } else if matches!(self.mode, Mode::Help) {
            match Action::from_key(input) {
                Some(a) => {
                    self.handle_help_mode(a);
                    Flow::Continue
                },
                None => Flow::Continue,
            }
        } else {
            match InsertAction::from_key(input) {
                Some(ia) => {
                    self.handle_insert_mode(ia);
                    Flow::Continue
                },
                None => Flow::Continue,
            }
        }
    }

    /// The text of the item under the active cursor, if there is one.
    pub fn get_current_buffer(&self) -> (r: Option<&String>)
        ensures
            match r {
                Some(s) => 0 <= self@.active_idx() < self@.active_list().len() && s@
                    == self@.active_list()[self@.active_idx()],
                None => !(0 <= self@.active_idx() < self@.active_list().len()),
            },
    {
        match self.curr_tab {
            Tab::Todos => {
                if self.todos_idx < self.todos.len() {
                    Some(&self.todos[self.todos_idx])
                } else {
                    None
                }
            },
            Tab::Dones => {
                if self.dones_idx < self.dones.len() {
                    Some(&self.dones[self.dones_idx])
                } else {
                    None
                }
            },
        }
    }
}

} // verus!
