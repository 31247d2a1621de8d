use todo_tui::{Action, App, Dir, Flow, Key, KeyInput, Tab};

fn strings(v: &[&str]) -> Vec<String> {
    v.iter().map(|s| s.to_string()).collect()
}

fn key(code: Key) -> KeyInput {
    KeyInput { code, shift: false, ctrl: false }
}

/// One tick of the event loop: the clamp pass, then the key.
fn tick(app: &mut App, code: Key) -> Flow {
    app.clamp_indexes();
    app.handle_key(key(code))
}

fn type_str(app: &mut App, text: &str) {
    for c in text.chars() {
        tick(app, Key::Char(c));
    }
}

#[test]
fn new_app_starts_clean() {
    let app = App::new(strings(&["a"]), strings(&["b"]));
    assert_eq!(app.todos, strings(&["a"]));
    assert_eq!(app.dones, strings(&["b"]));
    assert_eq!(app.todos_idx, 0);
    assert_eq!(app.dones_idx, 0);
    assert!(matches!(app.curr_tab, Tab::Todos));
    assert!(!app.show_number);
}

#[test]
fn enter_transfers_to_end_of_other_list() {
    let mut app = App::new(strings(&["a", "b", "c"]), strings(&["x"]));
    tick(&mut app, Key::Char('j'));
    tick(&mut app, Key::Enter);
    assert_eq!(app.todos, strings(&["a", "c"]));
    assert_eq!(app.dones, strings(&["x", "b"]));
}

#[test]
fn enter_on_empty_list_does_nothing() {
    let mut app = App::new(strings(&[]), strings(&["x"]));
    tick(&mut app, Key::Enter);
    assert_eq!(app.todos, strings(&[]));
    assert_eq!(app.dones, strings(&["x"]));
}

#[test]
fn delete_removes_item_under_cursor() {
    let mut app = App::new(strings(&["a", "b", "c"]), strings(&[]));
    tick(&mut app, Key::Char('j'));
    tick(&mut app, Key::Char('d'));
    assert_eq!(app.todos, strings(&["a", "c"]));
}

#[test]
fn cursor_clamps_into_range_after_operations() {
    let mut app = App::new(strings(&["a", "b", "c"]), strings(&[]));
    tick(&mut app, Key::Char('G'));
    app.clamp_indexes();
    assert_eq!(app.todos_idx, 2);
    tick(&mut app, Key::Char('d'));
    app.clamp_indexes();
    assert_eq!(app.todos_idx, 1);
    tick(&mut app, Key::Char('d'));
    tick(&mut app, Key::Char('d'));
    app.clamp_indexes();
    assert_eq!(app.todos_idx, 0);
    assert!(app.todos.is_empty());
}

#[test]
fn cursor_up_saturates_at_zero() {
    let mut app = App::new(strings(&["a", "b"]), strings(&[]));
    tick(&mut app, Key::Char('k'));
    app.clamp_indexes();
    assert_eq!(app.todos_idx, 0);
}

#[test]
fn goto_begin_and_end() {
    let mut app = App::new(strings(&["a", "b", "c", "d"]), strings(&[]));
    tick(&mut app, Key::Char('G'));
    app.clamp_indexes();
    assert_eq!(app.todos_idx, 3);
    tick(&mut app, Key::Char('g'));
    app.clamp_indexes();
    assert_eq!(app.todos_idx, 0);
}

#[test]
fn tab_switching() {
    let mut app = App::new(strings(&["a"]), strings(&["b"]));
    tick(&mut app, Key::Tab);
    assert!(matches!(app.curr_tab, Tab::Dones));
    tick(&mut app, Key::Tab);
    assert!(matches!(app.curr_tab, Tab::Todos));
    tick(&mut app, Key::Char('l'));
    assert!(matches!(app.curr_tab, Tab::Dones));
    tick(&mut app, Key::Char('h'));
    assert!(matches!(app.curr_tab, Tab::Todos));
}

#[test]
fn insert_below_commit_keeps_typed_text() {
    let mut app = App::new(strings(&["a", "b"]), strings(&[]));
    tick(&mut app, Key::Char('o'));
    assert_eq!(app.todos, strings(&["a", "", "b"]));
    assert_eq!(app.todos_idx, 1);
    type_str(&mut app, "new item");
    tick(&mut app, Key::Enter);
    assert_eq!(app.todos, strings(&["a", "new item", "b"]));
}

#[test]
fn insert_above_lands_on_the_cursor_position() {
    let mut app = App::new(strings(&["a", "b"]), strings(&[]));
    tick(&mut app, Key::Char('j'));
    tick(&mut app, Key::Char('i'));
    assert_eq!(app.todos, strings(&["a", "", "b"]));
    assert_eq!(app.todos_idx, 1);
}

#[test]
fn only_save_quit_triggers_a_save() {
    assert!(Flow::SaveQuit.should_save());
    assert!(!Flow::NoSaveQuit.should_save());
    assert!(!Flow::Continue.should_save());
}

#[test]
fn insert_commit_of_empty_item_is_allowed() {
    let mut app = App::new(strings(&[]), strings(&[]));
    tick(&mut app, Key::Char('o'));
    tick(&mut app, Key::Enter);
    assert_eq!(app.todos, strings(&[""]));
}

#[test]
fn insert_new_cancel_is_a_true_noop() {
    let before_todos = strings(&["a", "b", "c"]);
    let before_dones = strings(&["x", "y"]);
    let mut app = App::new(before_todos.clone(), before_dones.clone());
    tick(&mut app, Key::Char('j'));
    tick(&mut app, Key::Char('i'));
    tick(&mut app, Key::Esc);
    assert_eq!(app.todos, before_todos);
    assert_eq!(app.dones, before_dones);
}

#[test]
fn edit_commit_keeps_edits() {
    let mut app = App::new(strings(&["task"]), strings(&[]));
    tick(&mut app, Key::Char('e'));
    type_str(&mut app, "!!");
    tick(&mut app, Key::Enter);
    assert_eq!(app.todos, strings(&["task!!"]));
}

#[test]
fn edit_cancel_restores_exact_pre_edit_text() {
    let mut app = App::new(strings(&["keep me"]), strings(&[]));
    tick(&mut app, Key::Char('e'));
    type_str(&mut app, " changed");
    tick(&mut app, Key::Backspace);
    tick(&mut app, Key::Backspace);
    type_str(&mut app, "more");
    tick(&mut app, Key::Esc);
    assert_eq!(app.todos, strings(&["keep me"]));
}

#[test]
fn edit_backspace_trims_the_end() {
    let mut app = App::new(strings(&["abc"]), strings(&[]));
    tick(&mut app, Key::Char('e'));
    tick(&mut app, Key::Backspace);
    tick(&mut app, Key::Enter);
    assert_eq!(app.todos, strings(&["ab"]));
}

#[test]
fn edit_backspace_on_empty_buffer_is_harmless() {
    let mut app = App::new(strings(&[""]), strings(&[]));
    tick(&mut app, Key::Char('e'));
    tick(&mut app, Key::Backspace);
    tick(&mut app, Key::Backspace);
    tick(&mut app, Key::Enter);
    assert_eq!(app.todos, strings(&[""]));
}

#[test]
fn edit_on_empty_list_does_nothing() {
    let mut app = App::new(strings(&[]), strings(&[]));
    tick(&mut app, Key::Char('e'));
    tick(&mut app, Key::Char('x'));
    assert_eq!(app.todos, strings(&[]));
}

#[test]
fn move_item_down_then_up_restores_order() {
    let mut app = App::new(strings(&["first", "second", "third"]), strings(&[]));
    tick(&mut app, Key::Char('J'));
    assert_eq!(app.todos, strings(&["second", "first", "third"]));
    assert_eq!(app.todos_idx, 1);
    tick(&mut app, Key::Char('K'));
    assert_eq!(app.todos, strings(&["first", "second", "third"]));
    assert_eq!(app.todos_idx, 0);
}

#[test]
fn move_item_saturates_at_the_ends() {
    let mut app = App::new(strings(&["a", "b"]), strings(&[]));
    tick(&mut app, Key::Char('K'));
    assert_eq!(app.todos, strings(&["a", "b"]));
    assert_eq!(app.todos_idx, 0);
    tick(&mut app, Key::Char('J'));
    tick(&mut app, Key::Char('J'));
    assert_eq!(app.todos, strings(&["b", "a"]));
    assert_eq!(app.todos_idx, 1);
}

#[test]
fn quits_are_signalled_not_applied() {
    let mut app = App::new(strings(&["a"]), strings(&[]));
    assert_eq!(tick(&mut app, Key::Char('q')), Flow::SaveQuit);
    assert_eq!(tick(&mut app, Key::Char('Q')), Flow::NoSaveQuit);
    let ctrl_c = KeyInput { code: Key::Char('c'), shift: false, ctrl: true };
    app.clamp_indexes();
    assert_eq!(app.handle_key(ctrl_c), Flow::NoSaveQuit);
    assert_eq!(app.todos, strings(&["a"]));
}

#[test]
fn help_mode_swallows_quit_keys() {
    let mut app = App::new(strings(&["a"]), strings(&[]));
    tick(&mut app, Key::F(1));
    assert!(matches!(app.mode, todo_tui::Mode::Help));
    assert_eq!(tick(&mut app, Key::Char('q')), Flow::Continue);
    assert!(matches!(app.mode, todo_tui::Mode::Normal));
    tick(&mut app, Key::F(1));
    assert_eq!(tick(&mut app, Key::Char('Q')), Flow::Continue);
    assert!(matches!(app.mode, todo_tui::Mode::Normal));
}

#[test]
fn help_mode_ignores_other_actions() {
    let mut app = App::new(strings(&["a"]), strings(&[]));
    tick(&mut app, Key::F(1));
    tick(&mut app, Key::Char('d'));
    assert!(matches!(app.mode, todo_tui::Mode::Help));
    assert_eq!(app.todos, strings(&["a"]));
}

#[test]
fn unmapped_keys_change_nothing() {
    let mut app = App::new(strings(&["a"]), strings(&["b"]));
    assert_eq!(tick(&mut app, Key::Char('z')), Flow::Continue);
    assert_eq!(app.todos, strings(&["a"]));
    assert_eq!(app.dones, strings(&["b"]));
}

#[test]
fn get_current_buffer_follows_tab_and_cursor() {
    let mut app = App::new(strings(&["a", "b"]), strings(&["x"]));
    tick(&mut app, Key::Char('j'));
    app.clamp_indexes();
    assert_eq!(app.get_current_buffer().unwrap(), "b");
    tick(&mut app, Key::Tab);
    assert_eq!(app.get_current_buffer().unwrap(), "x");
}

#[test]
fn execute_action_applies_directly() {
    let mut app = App::new(strings(&["a", "b"]), strings(&[]));
    assert_eq!(app.execute_action(Action::MoveCursor(Dir::Down)), Flow::Continue);
    app.clamp_indexes();
    assert_eq!(app.todos_idx, 1);
}

#[test]
fn end_to_end_scenario_from_empty_document() {
    // Empty document, as an absent file loads.
    let mut app = App::new(strings(&[]), strings(&[]));
    assert!(app.todos.is_empty());
    assert!(app.dones.is_empty());
    // Insert below on the todo list, type, commit.
    tick(&mut app, Key::Char('o'));
    type_str(&mut app, "buy milk");
    tick(&mut app, Key::Enter);
    assert_eq!(app.todos, strings(&["buy milk"]));
    // Transfer it to the done list.
    tick(&mut app, Key::Enter);
    assert!(app.todos.is_empty());
    assert_eq!(app.dones, strings(&["buy milk"]));
    // Save-quit; the file holds exactly one done-prefixed line.
    assert_eq!(tick(&mut app, Key::Char('q')), Flow::SaveQuit);
    let lines = todo_tui::serialize_lines(&app.todos, &app.dones);
    assert_eq!(lines, strings(&["DONE: buy milk"]));
}
