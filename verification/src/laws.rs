//! What holds of the explorer as a whole, stated over the model and proved.

use crate::language::{detected, language_of_extension, lower_case_keeps};
use crate::lemmas::{
    lemma_find_path_complete, lemma_find_path_exact, lemma_find_path_valid,
    lemma_first_index_of_element, lemma_path_drop_last, lemma_path_push, lemma_shown_child,
    lemma_shown_fold, lemma_shown_parent, lemma_shown_sibling, lemma_visible_distinct,
};
use crate::model::{
    child_id, distinct_ids, find_path, lookup, next_sibling_id, node_at, parent_id, parent_of,
    position, prev_sibling_id, scrolled, visible_ids, walk, NodeShape,
};
use crate::session::{moved_down, moved_up, session_wf, step, toggled, Command, Session};
use vstd::prelude::*;

verus! {

/// Resolution is total: in a tree with distinct identities, whatever `parent`, `child`,
/// `prev_sibling` or `next_sibling` gives from a node of the tree is again a node of the
/// tree.
pub proof fn law_navigation_resolves(root: NodeShape, id: usize, index: int)
    requires
        distinct_ids(root),
        lookup(root, id) is Some,
    ensures
        parent_id(root, id) matches Some(to) ==> lookup(root, to) is Some,
        child_id(root, id, index) matches Some(to) ==> lookup(root, to) is Some,
        prev_sibling_id(root, id) matches Some(to) ==> lookup(root, to) is Some,
        next_sibling_id(root, id) matches Some(to) ==> lookup(root, to) is Some,
{
    let path = find_path(root, id)->0;
    lemma_find_path_valid(root, id);
    if 0 <= index < node_at(root, path).children.len() {
        lemma_path_push(root, path, index);
        lemma_find_path_complete(root, path.push(index));
    }
    if path.len() > 0 {
        let upper = path.drop_last();
        lemma_path_drop_last(root, path);
        lemma_find_path_complete(root, upper);
        if path.last() > 0 {
            lemma_path_push(root, upper, path.last() - 1);
            lemma_find_path_complete(root, upper.push(path.last() - 1));
        }
        if path.last() + 1 < node_at(root, upper).children.len() {
            lemma_path_push(root, upper, path.last() + 1);
            lemma_find_path_complete(root, upper.push(path.last() + 1));
        }
    }
}

/// The parent of a child is the node itself.
pub proof fn law_parent_of_child(root: NodeShape, id: usize, index: int)
    requires
        distinct_ids(root),
        child_id(root, id, index) is Some,
    ensures
        parent_id(root, child_id(root, id, index)->0) == Some(id),
{
    let path = find_path(root, id)->0;
    lemma_find_path_valid(root, id);
    lemma_path_push(root, path, index);
    lemma_find_path_exact(root, path.push(index));
    assert(path.push(index).drop_last() =~= path);
}

/// Moving down and then up brings the cursor back, from any node that has children and
/// is not folded.
pub proof fn law_down_then_up(s: Session)
    requires
        session_wf(s),
        lookup(s.root, s.cursor)->0.children.len() > 0,
        !s.collapsed.contains(s.cursor),
    ensures
        moved_down(s).cursor != s.cursor,
        moved_up(moved_down(s)) == s,
{
    law_parent_of_child(s.root, s.cursor, 0);
    let path = find_path(s.root, s.cursor)->0;
    lemma_find_path_valid(s.root, s.cursor);
    lemma_path_push(s.root, path, 0);
    lemma_find_path_exact(s.root, path.push(0));
}

/// Toggling the fold of a node twice restores the folds, and with them the rows that are
/// displayed and their number.
pub proof fn law_fold_twice(root: NodeShape, collapsed: Set<usize>, id: usize)
    ensures
        toggled(toggled(collapsed, id), id) == collapsed,
        walk(root, toggled(toggled(collapsed, id), id)) == walk(root, collapsed),
        walk(root, toggled(toggled(collapsed, id), id)).len() == walk(root, collapsed).len(),
{
    assert(toggled(toggled(collapsed, id), id) =~= collapsed);
}

/// Two fold commands in a row leave the session as it was.
pub proof fn law_fold_command_twice(s: Session)
    ensures
        step(step(s, Command::ToggleFold), Command::ToggleFold) == s,
{
    law_fold_twice(s.root, s.collapsed, s.cursor);
}

/// Positions count the rows: under fixed folds, the node in row `i` of the display has
/// position `i`. So positions grow strictly along the display and no two displayed
/// nodes share one.
pub proof fn law_position_of_row(root: NodeShape, collapsed: Set<usize>, i: int)
    requires
        distinct_ids(root),
        0 <= i < walk(root, collapsed).len(),
    ensures
        position(root, collapsed, walk(root, collapsed)[i].id) == i,
{
    lemma_visible_distinct(root, collapsed);
    assert(visible_ids(root, collapsed)[i] == walk(root, collapsed)[i].id);
    lemma_first_index_of_element(visible_ids(root, collapsed), i);
}

/// Positions are strictly increasing along the display.
pub proof fn law_position_increases(root: NodeShape, collapsed: Set<usize>, i: int, j: int)
    requires
        distinct_ids(root),
        0 <= i < j < walk(root, collapsed).len(),
    ensures
        position(root, collapsed, walk(root, collapsed)[i].id) < position(
            root,
            collapsed,
            walk(root, collapsed)[j].id,
        ),
{
    law_position_of_row(root, collapsed, i);
    law_position_of_row(root, collapsed, j);
}

/// After the window has followed the cursor, the cursor lies in the window, whatever
/// the offset was, as long as the window has a row.
pub proof fn law_viewport_contains(offset: nat, position: nat, rows: nat)
    requires
        rows >= 1,
    ensures
        scrolled(offset, position, rows) <= position < scrolled(offset, position, rows) + rows,
{
}

/// Every command keeps a session well formed: the cursor stays a node of the tree, and
/// it stays displayed.
pub proof fn law_step_keeps_session(s: Session, command: Command)
    requires
        session_wf(s),
    ensures
        session_wf(step(s, command)),
{
    let path = find_path(s.root, s.cursor)->0;
    lemma_find_path_valid(s.root, s.cursor);
    law_navigation_resolves(s.root, s.cursor, 0);
    if path.len() > 0 {
        lemma_path_drop_last(s.root, path);
    }
    match command {
        Command::MoveDown => {
            if !s.collapsed.contains(s.cursor) && child_id(s.root, s.cursor, 0) is Some {
                lemma_shown_child(s.root, s.collapsed, s.cursor, 0);
            }
        },
        Command::MoveUp => {
            if parent_of(s.root, s.cursor) is Some {
                lemma_shown_parent(s.root, s.collapsed, s.cursor);
            }
        },
        Command::MoveLeft => {
            if prev_sibling_id(s.root, s.cursor) is Some {
                lemma_shown_sibling(s.root, s.collapsed, s.cursor, path.last() - 1);
            } else if parent_of(s.root, s.cursor) is Some {
                lemma_shown_parent(s.root, s.collapsed, s.cursor);
            }
        },
        Command::MoveRight => {
            if next_sibling_id(s.root, s.cursor) is Some {
                lemma_shown_sibling(s.root, s.collapsed, s.cursor, path.last() + 1);
            }
        },
        Command::ToggleFold => {
            lemma_shown_fold(s.root, s.collapsed, s.cursor);
        },
        _ => {},
    }
}

/// A file whose extension is `xyz` and whose name is not `justfile` has no language that
/// the explorer knows, given what the standard library says of lower case: that it
/// leaves a text of lower-case letters as it is.
pub proof fn law_unknown_extension(file_name: Option<Seq<char>>)
    requires
        lower_case_keeps("xyz"@),
        file_name != Some("justfile"@),
    ensures
        detected(Some("xyz"@), file_name) is None,
{
    reveal_strlit("xyz");
    reveal_strlit("go");
    reveal_strlit("java");
    reveal_strlit("js");
    reveal_strlit("json");
    reveal_strlit("just");
    reveal_strlit("rs");
    reveal_strlit("ts");
    reveal_strlit("tsx");
    assert("xyz"@[0] == 'x');
    assert("tsx"@[0] == 't');
    assert(language_of_extension("xyz"@) is None);
}

} // verus!
