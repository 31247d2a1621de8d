use todo_tui::{App, DrawCmd, Key, KeyInput};

fn strings(v: &[&str]) -> Vec<String> {
    v.iter().map(|s| s.to_string()).collect()
}

fn press(app: &mut App, code: Key) {
    app.clamp_indexes();
    app.handle_key(KeyInput { code, shift: false, ctrl: false });
}

fn frame(app: &App, cols: u16, rows: u16) -> Vec<DrawCmd> {
    todo_tui::render_frame(app, cols, rows).expect("layout fits the screen")
}

fn find_at(cmds: &[DrawCmd], x: u16, y: u16) -> &DrawCmd {
    cmds.iter()
        .find(|c| c.x == x && c.y == y)
        .unwrap_or_else(|| panic!("no draw command at ({}, {})", x, y))
}

#[test]
fn header_names_both_lists_and_inverts_the_active_one() {
    let app = App::new(strings(&["a"]), strings(&["b"]));
    let cmds = frame(&app, 20, 10);
    let todo = find_at(&cmds, 0, 0);
    assert_eq!(todo.text, "TODO");
    assert!(todo.inverted);
    let done = find_at(&cmds, 10, 0);
    assert_eq!(done.text, "DONE");
    assert!(!done.inverted);
}

#[test]
fn status_line_reports_the_mode() {
    let mut app = App::new(strings(&["a"]), strings(&[]));
    let cmds = frame(&app, 20, 10);
    let status = find_at(&cmds, 0, 9);
    assert_eq!(status.text, "NORMAL");
    assert!(status.inverted);

    press(&mut app, Key::Char('o'));
    let cmds = frame(&app, 20, 10);
    assert_eq!(find_at(&cmds, 0, 9).text, "INSERT");

    press(&mut app, Key::Enter);
    press(&mut app, Key::Char('e'));
    let cmds = frame(&app, 20, 10);
    assert_eq!(find_at(&cmds, 0, 9).text, "EDIT");

    press(&mut app, Key::Esc);
    press(&mut app, Key::F(1));
    // In help mode the status row must clear the help text itself.
    let cmds = frame(&app, 20, 40);
    assert_eq!(find_at(&cmds, 0, 39).text, "HELP");
}

#[test]
fn items_are_drawn_with_bullets_in_both_panes() {
    let app = App::new(strings(&["alpha"]), strings(&["beta"]));
    let cmds = frame(&app, 30, 10);
    let left = find_at(&cmds, 0, 1);
    assert_eq!(left.text, "[ ] alpha");
    assert!(left.inverted);
    let right = find_at(&cmds, 15, 1);
    assert_eq!(right.text, "[x] beta");
    assert!(!right.inverted);
}

#[test]
fn only_the_active_selection_is_inverted() {
    let mut app = App::new(strings(&["a", "b"]), strings(&["x"]));
    press(&mut app, Key::Char('j'));
    app.clamp_indexes();
    let cmds = frame(&app, 30, 10);
    assert!(!find_at(&cmds, 0, 1).inverted);
    assert!(find_at(&cmds, 0, 2).inverted);
    assert!(!find_at(&cmds, 15, 1).inverted);
}

#[test]
fn numbering_right_aligns_ordinals() {
    let mut app = App::new(
        strings(&[
            "one", "two", "three", "four", "five", "six", "seven", "eight", "nine", "ten",
        ]),
        strings(&[]),
    );
    press(&mut app, Key::Char('n'));
    let cmds = frame(&app, 60, 20);
    assert_eq!(find_at(&cmds, 0, 1).text, " 1. one");
    assert_eq!(find_at(&cmds, 0, 10).text, "10. ten");
}

#[test]
fn long_items_wrap_with_indented_continuations() {
    // Left pane budget is cols/2 - 1 = 9 columns; the bullet and space
    // take four of them.
    let app = App::new(strings(&["abcdefghij"]), strings(&[]));
    let cmds = frame(&app, 20, 10);
    assert_eq!(find_at(&cmds, 0, 1).text, "[ ] abcde");
    assert_eq!(find_at(&cmds, 0, 2).text, "    fghij");
    assert!(find_at(&cmds, 0, 2).inverted);
}

#[test]
fn wrapped_item_shifts_later_items_down() {
    let app = App::new(strings(&["abcdefghij", "short"]), strings(&[]));
    let cmds = frame(&app, 20, 10);
    assert_eq!(find_at(&cmds, 0, 3).text, "[ ] short");
    assert!(!find_at(&cmds, 0, 3).inverted);
}

#[test]
fn help_screen_shows_dividers_and_aligned_keys() {
    let mut app = App::new(strings(&["a"]), strings(&[]));
    press(&mut app, Key::F(1));
    let cmds = frame(&app, 12, 30);
    assert_eq!(find_at(&cmds, 0, 0).text, "============");
    assert_eq!(find_at(&cmds, 0, 1).text, "HELP");
    assert_eq!(find_at(&cmds, 0, 2).text, "============");
    assert_eq!(find_at(&cmds, 0, 4).text, "ACTIONS");
    // All keys share one padding width: that of "(type normally)".
    assert_eq!(find_at(&cmds, 0, 5).text, "  f1               - Show this screen");
    assert_eq!(find_at(&cmds, 0, 26).text, "============");
}

#[test]
fn degenerate_width_still_renders() {
    let app = App::new(strings(&["abc"]), strings(&[]));
    let cmds = frame(&app, 0, 40);
    // Zero budget forces one-character segments; the frame still comes
    // out, one character per line, and the status line still shows.
    assert_eq!(find_at(&cmds, 0, 1).text, "[");
    assert_eq!(find_at(&cmds, 0, 39).text, "NORMAL");
}
