use vstd::prelude::*;

verus! {

/// A key, as the decoder sees it: the keypad and character keys the
/// tracker reacts to. Terminal input is turned into this shape at the
/// edge of the program.
#[derive(Clone, Copy, PartialEq, Eq, Structural, Debug)]
pub enum Key {
    Char(char),
    F(u8),
    Enter,
    Tab,
    Backspace,
    Esc,
    Up,
    Down,
    Left,
    Right,
}

/// One raw input event: a key together with the modifiers that matter
/// to the decoder.
#[derive(Clone, Copy, PartialEq, Eq, Structural, Debug)]
pub struct KeyInput {
    pub code: Key,
    pub shift: bool,
    pub ctrl: bool,
}

/// How the active tab is to change.
#[derive(Clone, Copy, PartialEq, Eq, Structural, Debug)]
pub enum TabAction {
    Toggle,
    Left,
    Right,
}

/// A direction for cursor movement, item movement and insertion.
#[derive(Clone, Copy, PartialEq, Eq, Structural, Debug)]
pub enum Dir {
    Up,
    Down,
}

/// A semantic action in normal (and help) mode.
#[derive(Clone, Copy, PartialEq, Eq, Structural, Debug)]
pub enum Action {
    Enter,
    SwitchTab(TabAction),
    Insert(Dir),
    Edit,
    MoveCursor(Dir),
    MoveItem(Dir),
    GotoBegin,
    GotoEnd,
    Delete,
    SaveQuit,
    NoSaveQuit,
    ShowHelp,
    ShowNumber,
}

/// A semantic action while inserting or editing an item.
#[derive(Clone, Copy, PartialEq, Eq, Structural, Debug)]
pub enum InsertAction {
    Char(char),
    DeleteChar,
    Enter,
    Cancel,
}

/// The normal-mode key table. Unmapped input decodes to `None` and is
/// ignored. Shift+arrow moves the item instead of the cursor;
/// shift+left/right is reserved and maps to nothing.
pub open spec fn spec_decode_normal(input: KeyInput) -> Option<Action> {
    match input.code {
        Key::Enter => Some(Action::Enter),
        Key::Tab => Some(Action::SwitchTab(TabAction::Toggle)),
        Key::F(n) => if n == 1 {
            Some(Action::ShowHelp)
        } else {
            None
        },
        Key::Right => if !input.shift {
            Some(Action::SwitchTab(TabAction::Right))
        } else {
            None
        },
        Key::Left => if !input.shift {
            Some(Action::SwitchTab(TabAction::Left))
        } else {
            None
        },
        Key::Up => if input.shift {
            Some(Action::MoveItem(Dir::Up))
        } else {
            Some(Action::MoveCursor(Dir::Up))
        },
        Key::Down => if input.shift {
            Some(Action::MoveItem(Dir::Down))
        } else {
            Some(Action::MoveCursor(Dir::Down))
        },
        Key::Char(c) => if c == 'l' {
            Some(Action::SwitchTab(TabAction::Right))
        } else if c == 'h' {
            Some(Action::SwitchTab(TabAction::Left))
        } else if c == 'n' {
            Some(Action::ShowNumber)
        } else if c == 'i' {
            Some(Action::Insert(Dir::Up))
        } else if c == 'o' {
            Some(Action::Insert(Dir::Down))
        } else if c == 'e' {
            Some(Action::Edit)
        } else if c == 'k' {
            Some(Action::MoveCursor(Dir::Up))
        } else if c == 'j' {
            Some(Action::MoveCursor(Dir::Down))
        } else if c == 'K' {
            Some(Action::MoveItem(Dir::Up))
        } else if c == 'J' {
            Some(Action::MoveItem(Dir::Down))
        } else if c == 'g' {
            Some(Action::GotoBegin)
        } else if c == 'G' {
            Some(Action::GotoEnd)
        } else if c == 'd' {
            Some(Action::Delete)
        } else if c == 'q' {
            Some(Action::SaveQuit)
        } else if c == 'Q' {
            Some(Action::NoSaveQuit)
        } else if c == 'c' && input.ctrl {
            Some(Action::NoSaveQuit)
        } else {
            None
        },
        Key::Backspace => None,
        Key::Esc => None,
    }
}

/// The insert-mode key table: printable characters append, backspace
/// trims the end, enter commits, escape cancels. Modifiers are ignored.
pub open spec fn spec_decode_insert(input: KeyInput) -> Option<InsertAction> {
    match input.code {
        Key::Char(c) => Some(InsertAction::Char(c)),
        Key::Backspace => Some(InsertAction::DeleteChar),
        Key::Enter => Some(InsertAction::Enter),
        Key::Esc => Some(InsertAction::Cancel),
        _ => None,
    }
}

impl Action {
    /// Decodes one normal-mode key. Never fails: unmapped input yields
    /// no action.
    pub fn from_key(input: KeyInput) -> (r: Option<Action>)
        ensures
            r == spec_decode_normal(input),
    {
        match input.code {
            Key::Enter => Some(Action::Enter),
            Key::Tab => Some(Action::SwitchTab(TabAction::Toggle)),
            Key::F(n) => if n == 1 {
                Some(Action::ShowHelp)
            } else {
                None
            },
            Key::Right => if !input.shift {
                Some(Action::SwitchTab(TabAction::Right))
            } else {
                None
            },
            Key::Left => if !input.shift {
                Some(Action::SwitchTab(TabAction::Left))
            } else {
                None
            },
            Key::Up => if input.shift {
                Some(Action::MoveItem(Dir::Up))
            } else {
                Some(Action::MoveCursor(Dir::Up))
            },
            Key::Down => if input.shift {
                Some(Action::MoveItem(Dir::Down))
            } else {
                Some(Action::MoveCursor(Dir::Down))
            },
            Key::Char(c) => if c == 'l' {
                Some(Action::SwitchTab(TabAction::Right))
            } else if c == 'h' {
                Some(Action::SwitchTab(TabAction::Left))
            } else if c == 'n' {
                Some(Action::ShowNumber)
            } else if c == 'i' {
                Some(Action::Insert(Dir::Up))
            } else if c == 'o' {
                Some(Action::Insert(Dir::Down))
            } else if c == 'e' {
                Some(Action::Edit)
            } else if c == 'k' {
                Some(Action::MoveCursor(Dir::Up))
            } else if c == 'j' {
                Some(Action::MoveCursor(Dir::Down))
            } else if c == 'K' {
                Some(Action::MoveItem(Dir::Up))
            } else if c == 'J' {
                Some(Action::MoveItem(Dir::Down))
            } else if c == 'g' {
                Some(Action::GotoBegin)
            } else if c == 'G' {
                Some(Action::GotoEnd)
            } else if c == 'd' {
                Some(Action::Delete)
            } else if c == 'q' {
                Some(Action::SaveQuit)
            } else if c == 'Q' {
                Some(Action::NoSaveQuit)
            } else if c == 'c' && input.ctrl {
                Some(Action::NoSaveQuit)
            } else {
                None
            },
            Key::Backspace => None,
            Key::Esc => None,
        }
    }
}

impl InsertAction {
    /// Decodes one insert-mode key. Never fails: unmapped input yields
    /// no action.
    pub fn from_key(input: KeyInput) -> (r: Option<InsertAction>)
        ensures
            r == spec_decode_insert(input),
    {
        match input.code {
            Key::Char(c) => Some(InsertAction::Char(c)),
            Key::Backspace => Some(InsertAction::DeleteChar),
            Key::Enter => Some(InsertAction::Enter),
            Key::Esc => Some(InsertAction::Cancel),
            _ => None,
        }
    }
}

} // verus!
