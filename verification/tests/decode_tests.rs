use todo_tui::{Action, Dir, InsertAction, Key, KeyInput, TabAction};

fn key(code: Key) -> KeyInput {
    KeyInput { code, shift: false, ctrl: false }
}

fn shift(code: Key) -> KeyInput {
    KeyInput { code, shift: true, ctrl: false }
}

fn ctrl(code: Key) -> KeyInput {
    KeyInput { code, shift: false, ctrl: true }
}

#[test]
fn normal_mode_core_actions() {
    assert_eq!(Action::from_key(key(Key::Enter)), Some(Action::Enter));
    assert_eq!(
        Action::from_key(key(Key::Tab)),
        Some(Action::SwitchTab(TabAction::Toggle))
    );
    assert_eq!(Action::from_key(key(Key::F(1))), Some(Action::ShowHelp));
    assert_eq!(Action::from_key(key(Key::Char('n'))), Some(Action::ShowNumber));
}

#[test]
fn normal_mode_tab_switches() {
    assert_eq!(
        Action::from_key(key(Key::Char('l'))),
        Some(Action::SwitchTab(TabAction::Right))
    );
    assert_eq!(
        Action::from_key(key(Key::Char('h'))),
        Some(Action::SwitchTab(TabAction::Left))
    );
    assert_eq!(
        Action::from_key(key(Key::Right)),
        Some(Action::SwitchTab(TabAction::Right))
    );
    assert_eq!(
        Action::from_key(key(Key::Left)),
        Some(Action::SwitchTab(TabAction::Left))
    );
}

#[test]
fn shift_left_right_are_reserved() {
    assert_eq!(Action::from_key(shift(Key::Left)), None);
    assert_eq!(Action::from_key(shift(Key::Right)), None);
}

#[test]
fn normal_mode_insert_and_edit() {
    assert_eq!(Action::from_key(key(Key::Char('i'))), Some(Action::Insert(Dir::Up)));
    assert_eq!(Action::from_key(key(Key::Char('o'))), Some(Action::Insert(Dir::Down)));
    assert_eq!(Action::from_key(key(Key::Char('e'))), Some(Action::Edit));
}

#[test]
fn normal_mode_cursor_movement() {
    assert_eq!(
        Action::from_key(key(Key::Char('j'))),
        Some(Action::MoveCursor(Dir::Down))
    );
    assert_eq!(Action::from_key(key(Key::Char('k'))), Some(Action::MoveCursor(Dir::Up)));
    assert_eq!(Action::from_key(key(Key::Down)), Some(Action::MoveCursor(Dir::Down)));
    assert_eq!(Action::from_key(key(Key::Up)), Some(Action::MoveCursor(Dir::Up)));
}

#[test]
fn normal_mode_item_movement() {
    assert_eq!(
        Action::from_key(key(Key::Char('J'))),
        Some(Action::MoveItem(Dir::Down))
    );
    assert_eq!(Action::from_key(key(Key::Char('K'))), Some(Action::MoveItem(Dir::Up)));
    assert_eq!(Action::from_key(shift(Key::Down)), Some(Action::MoveItem(Dir::Down)));
    assert_eq!(Action::from_key(shift(Key::Up)), Some(Action::MoveItem(Dir::Up)));
}

#[test]
fn normal_mode_jumps_delete_quits() {
    assert_eq!(Action::from_key(key(Key::Char('g'))), Some(Action::GotoBegin));
    assert_eq!(Action::from_key(key(Key::Char('G'))), Some(Action::GotoEnd));
    assert_eq!(Action::from_key(key(Key::Char('d'))), Some(Action::Delete));
    assert_eq!(Action::from_key(key(Key::Char('q'))), Some(Action::SaveQuit));
    assert_eq!(Action::from_key(key(Key::Char('Q'))), Some(Action::NoSaveQuit));
    assert_eq!(Action::from_key(ctrl(Key::Char('c'))), Some(Action::NoSaveQuit));
}

#[test]
fn normal_mode_ignores_unmapped_input() {
    assert_eq!(Action::from_key(key(Key::Char('z'))), None);
    assert_eq!(Action::from_key(key(Key::Char('c'))), None);
    assert_eq!(Action::from_key(key(Key::F(2))), None);
    assert_eq!(Action::from_key(key(Key::Backspace)), None);
    assert_eq!(Action::from_key(key(Key::Esc)), None);
}

#[test]
fn insert_mode_decoding() {
    assert_eq!(
        InsertAction::from_key(key(Key::Char('x'))),
        Some(InsertAction::Char('x'))
    );
    assert_eq!(InsertAction::from_key(key(Key::Backspace)), Some(InsertAction::DeleteChar));
    assert_eq!(InsertAction::from_key(key(Key::Enter)), Some(InsertAction::Enter));
    assert_eq!(InsertAction::from_key(key(Key::Esc)), Some(InsertAction::Cancel));
    assert_eq!(InsertAction::from_key(key(Key::Up)), None);
    assert_eq!(InsertAction::from_key(key(Key::F(1))), None);
}
