//! The navigation state machine as a mathematical object: the state of a session, and
//! what each command makes of it.

use crate::model::{
    all_ids, child_id, distinct_ids, find_path, lookup, next_sibling_id, parent_id,
    prev_sibling_id, shown, NodeShape,
};
use vstd::prelude::*;

verus! {

/// A command of the user.
#[derive(Clone, Copy, Debug, PartialEq, Eq, Structural)]
pub enum Command {
    MoveDown,
    MoveUp,
    MoveLeft,
    MoveRight,
    ToggleFold,
    ToggleSelect,
    ScrollUp,
    ScrollDown,
    Quit,
}

/// A key of the keyboard, as far as the commands tell keys apart.
#[derive(Clone, Copy, Debug, PartialEq, Eq, Structural)]
pub enum KeyCode {
    Char(char),
    Enter,
    Other,
}

/// A key press: the key, and whether Control, and nothing but Control, was held.
#[derive(Clone, Copy, Debug, PartialEq, Eq, Structural)]
pub struct KeyPress {
    pub code: KeyCode,
    pub control: bool,
}

/// The command that a key press stands for.
pub open spec fn command_of(key: KeyPress) -> Option<Command> {
    match key.code {
        KeyCode::Char(c) => if c == 'q' {
            Some(Command::Quit)
        } else if c == 'k' {
            Some(Command::MoveUp)
        } else if c == 'j' {
            Some(Command::MoveDown)
        } else if c == 'h' {
            Some(Command::MoveLeft)
        } else if c == 'l' {
            Some(Command::MoveRight)
        } else if c == ' ' {
            Some(Command::ToggleSelect)
        } else if c == 'u' && key.control {
            Some(Command::ScrollUp)
        } else if c == 'd' && key.control {
            Some(Command::ScrollDown)
        } else {
            None
        },
        KeyCode::Enter => Some(Command::ToggleFold),
        KeyCode::Other => None,
    }
}

impl Command {
    /// The command that a key press stands for, if it stands for one.
    pub fn from_key(key: KeyPress) -> (command: Option<Command>)
        ensures
            command == command_of(key),
    {
        match key.code {
            KeyCode::Char(c) => {
                if c == 'q' {
                    Some(Command::Quit)
                } else if c == 'k' {
                    Some(Command::MoveUp)
                } else if c == 'j' {
                    Some(Command::MoveDown)
                } else if c == 'h' {
                    Some(Command::MoveLeft)
                } else if c == 'l' {
                    Some(Command::MoveRight)
                } else if c == ' ' {
                    Some(Command::ToggleSelect)
                } else if c == 'u' && key.control {
                    Some(Command::ScrollUp)
                } else if c == 'd' && key.control {
                    Some(Command::ScrollDown)
                } else {
                    None
                }
            },
            KeyCode::Enter => Some(Command::ToggleFold),
            KeyCode::Other => None,
        }
    }
}

/// The state of a session: the tree and its source, the cursor, the selection, the
/// folded nodes, and the first row of the window.
pub struct Session {
    pub root: NodeShape,
    pub source: Seq<u8>,
    pub cursor: usize,
    pub selection: Option<usize>,
    pub collapsed: Set<usize>,
    pub offset: nat,
}

/// What holds of every session: identities are distinct, cursor and selection are nodes
/// of the tree, and the cursor is displayed.
pub open spec fn session_wf(s: Session) -> bool {
    &&& distinct_ids(s.root)
    &&& all_ids(s.root).len() <= usize::MAX
    &&& find_path(s.root, s.cursor) is Some
    &&& (s.selection matches Some(id) ==> find_path(s.root, id) is Some)
    &&& shown(s.root, s.collapsed, s.cursor)
    &&& s.offset <= usize::MAX
}

/// The session at its start: cursor on the root, nothing selected or folded, window at
/// the top.
pub open spec fn initial(root: NodeShape, source: Seq<u8>) -> Session {
    Session {
        root,
        source,
        cursor: root.id,
        selection: None,
        collapsed: Set::empty(),
        offset: 0,
    }
}

/// The session with the cursor on `target`, or unchanged where there is no target.
pub open spec fn cursor_to(s: Session, target: Option<usize>) -> Session {
    match target {
        Some(id) => Session { cursor: id, ..s },
        None => s,
    }
}

/// To the first child, unless the cursor is folded or a leaf.
pub open spec fn moved_down(s: Session) -> Session {
    if s.collapsed.contains(s.cursor) {
        s
    } else {
        cursor_to(s, child_id(s.root, s.cursor, 0))
    }
}

/// To the parent, unless the cursor is the root.
pub open spec fn moved_up(s: Session) -> Session {
    cursor_to(s, parent_id(s.root, s.cursor))
}

/// To the sibling before; to the parent from a first child; nowhere from the root.
pub open spec fn moved_left(s: Session) -> Session {
    match prev_sibling_id(s.root, s.cursor) {
        Some(id) => Session { cursor: id, ..s },
        None => cursor_to(s, parent_id(s.root, s.cursor)),
    }
}

/// To the sibling after, if there is one.
pub open spec fn moved_right(s: Session) -> Session {
    cursor_to(s, next_sibling_id(s.root, s.cursor))
}

/// `collapsed` with the membership of `id` flipped.
pub open spec fn toggled(collapsed: Set<usize>, id: usize) -> Set<usize> {
    if collapsed.contains(id) {
        collapsed.remove(id)
    } else {
        collapsed.insert(id)
    }
}

/// The cursor folded or unfolded, if it has children.
pub open spec fn fold_toggled(s: Session) -> Session {
    if lookup(s.root, s.cursor)->0.children.len() > 0 {
        Session { collapsed: toggled(s.collapsed, s.cursor), ..s }
    } else {
        s
    }
}

/// The cursor selected, or nothing selected if the cursor was.
pub open spec fn select_toggled(s: Session) -> Session {
    if s.selection == Some(s.cursor) {
        Session { selection: None, ..s }
    } else {
        Session { selection: Some(s.cursor), ..s }
    }
}

/// The window one row up, if it is not at the top.
pub open spec fn scrolled_up(s: Session) -> Session {
    if s.offset > 0 {
        Session { offset: (s.offset - 1) as nat, ..s }
    } else {
        s
    }
}

/// The window one row down; it stays where the offset would no longer fit the machine's
/// integers.
pub open spec fn scrolled_down(s: Session) -> Session {
    if s.offset < usize::MAX {
        Session { offset: s.offset + 1, ..s }
    } else {
        s
    }
}

/// What a command makes of a session.
pub open spec fn step(s: Session, command: Command) -> Session {
    match command {
        Command::MoveDown => moved_down(s),
        Command::MoveUp => moved_up(s),
        Command::MoveLeft => moved_left(s),
        Command::MoveRight => moved_right(s),
        Command::ToggleFold => fold_toggled(s),
        Command::ToggleSelect => select_toggled(s),
        Command::ScrollUp => scrolled_up(s),
        Command::ScrollDown => scrolled_down(s),
        Command::Quit => s,
    }
}

} // verus!
