use std::rc::Rc;
use syntax_explorer::app::App;
use syntax_explorer::display::{Fold, NodeColor};
use syntax_explorer::model::Span;
use syntax_explorer::node_handle::NodeHandle;
use syntax_explorer::parse::{parsed_tree, ParseError};
use syntax_explorer::session::{Command, KeyCode, KeyPress};
use syntax_explorer::tree::{SyntaxNode, SyntaxTree};

const ROOT: usize = 10;
const ASSIGNMENT: usize = 20;
const IDENTIFIER: usize = 30;
const NUMBER: usize = 40;
const COMMENT: usize = 50;

fn span(start_byte: usize, end_byte: usize, start: (usize, usize), end: (usize, usize)) -> Span {
    Span {
        start_byte,
        end_byte,
        start_row: start.0,
        start_column: start.1,
        end_row: end.0,
        end_column: end.1,
    }
}

fn source() -> Vec<u8> {
    b"a = 1\n# note".to_vec()
}

fn sample_root() -> SyntaxNode {
    let identifier = SyntaxNode::new(IDENTIFIER, "identifier", span(0, 1, (0, 0), (0, 1)), vec![]);
    let number = SyntaxNode::new(NUMBER, "number", span(4, 5, (0, 4), (0, 5)), vec![]);
    let assignment = SyntaxNode::new(
        ASSIGNMENT,
        "assignment",
        span(0, 5, (0, 0), (0, 5)),
        vec![identifier, number],
    );
    let comment = SyntaxNode::new(COMMENT, "comment", span(6, 12, (1, 0), (1, 6)), vec![]);
    SyntaxNode::new(ROOT, "source_file", span(0, 12, (0, 0), (1, 6)), vec![assignment, comment])
}

fn sample_tree() -> SyntaxTree {
    SyntaxTree::new(sample_root()).unwrap()
}

fn sample_app() -> App {
    App::with_tree(source(), sample_tree())
}

fn position_of(app: &App, id: usize) -> (bool, usize) {
    let handle = NodeHandle::new(Rc::clone(app.cursor().tree()));
    let mut position = 0;
    let found = app.calculate_node_position(handle.node(), id, &mut position);
    (found, position)
}

fn row_count(app: &App) -> usize {
    app.draw(u16::MAX).lines.len()
}

#[test]
fn rows_and_positions_without_folds() {
    let app = sample_app();
    let root = NodeHandle::new(Rc::clone(app.cursor().tree()));
    assert_eq!(root.node().kind, "source_file");
    assert_eq!(root.node().child_count(), 2);
    let assignment = root.child(0).unwrap();
    assert_eq!(assignment.node().kind, "assignment");
    assert_eq!(assignment.child(0).unwrap().node().kind, "identifier");
    assert_eq!(assignment.child(1).unwrap().node().kind, "number");
    assert_eq!(root.child(1).unwrap().node().kind, "comment");

    assert_eq!(row_count(&app), 5);
    assert_eq!(position_of(&app, ROOT), (true, 0));
    assert_eq!(position_of(&app, ASSIGNMENT), (true, 1));
    assert_eq!(position_of(&app, IDENTIFIER), (true, 2));
    assert_eq!(position_of(&app, NUMBER), (true, 3));
    assert_eq!(position_of(&app, COMMENT), (true, 4));
}

#[test]
fn folding_hides_the_children() {
    let mut app = sample_app();
    app.move_down();
    assert_eq!(app.cursor().id(), ASSIGNMENT);
    app.toggle_collapse();
    assert!(app.is_collapsed(ASSIGNMENT));

    assert_eq!(row_count(&app), 3);
    assert_eq!(position_of(&app, COMMENT), (true, 2));
    assert_eq!(position_of(&app, ASSIGNMENT), (true, 1));
    assert_eq!(position_of(&app, IDENTIFIER), (false, 3));
    assert_eq!(position_of(&app, NUMBER), (false, 3));
}

#[test]
fn left_and_right_among_siblings() {
    let mut app = sample_app();
    app.move_down();
    app.move_down();
    assert_eq!(app.cursor().id(), IDENTIFIER);
    assert!(app.cursor().prev_sibling().is_none());
    app.move_right();
    assert_eq!(app.cursor().id(), NUMBER);
    app.move_right();
    assert_eq!(app.cursor().id(), NUMBER);
    app.move_left();
    assert_eq!(app.cursor().id(), IDENTIFIER);
}

#[test]
fn move_left_from_a_first_child_goes_to_the_parent() {
    let mut app = sample_app();
    app.move_down();
    app.move_down();
    assert_eq!(app.cursor().id(), IDENTIFIER);
    app.move_left();
    assert_eq!(app.cursor().id(), ASSIGNMENT);
    app.move_left();
    assert_eq!(app.cursor().id(), ROOT);
    app.move_left();
    assert_eq!(app.cursor().id(), ROOT);
}

#[test]
fn session_starts_at_the_root() {
    let app = sample_app();
    assert_eq!(app.cursor().id(), ROOT);
    assert_eq!(app.selected_id(), None);
    assert_eq!(app.scroll_offset(), 0);
    assert!(!app.is_collapsed(ROOT));
}

#[test]
fn handles_resolve_after_every_navigation() {
    let root = NodeHandle::new(Rc::new(sample_tree()));
    assert_eq!(root.id(), ROOT);
    assert!(root.parent().is_none());
    assert!(root.prev_sibling().is_none());
    assert!(root.next_sibling().is_none());

    let assignment = root.child(0).unwrap();
    assert_eq!(assignment.node().id, ASSIGNMENT);
    assert_eq!(assignment.parent().unwrap().node().id, ROOT);
    assert_eq!(assignment.next_sibling().unwrap().node().id, COMMENT);
    assert!(assignment.prev_sibling().is_none());

    let comment = root.child(1).unwrap();
    assert_eq!(comment.prev_sibling().unwrap().node().id, ASSIGNMENT);
    assert!(comment.next_sibling().is_none());
    assert!(comment.child(0).is_none());
    assert!(root.child(2).is_none());

    let number = assignment.child(1).unwrap();
    assert_eq!(number.node().id, NUMBER);
    assert_eq!(number.parent().unwrap().id(), ASSIGNMENT);
    assert_eq!(number.prev_sibling().unwrap().id(), IDENTIFIER);
}

#[test]
fn duplicate_handle_shares_the_tree() {
    let root = NodeHandle::new(Rc::new(sample_tree()));
    let child = root.child(0).unwrap();
    let copy = child.duplicate();
    assert_eq!(copy.id(), ASSIGNMENT);
    assert!(Rc::ptr_eq(copy.tree(), root.tree()));
    assert_eq!(copy.node().kind, "assignment");
}

#[test]
fn find_node_by_id_searches_the_subtree() {
    let root = sample_root();
    assert_eq!(NodeHandle::find_node_by_id(NUMBER, &root).unwrap().kind, "number");
    assert_eq!(NodeHandle::find_node_by_id(ROOT, &root).unwrap().kind, "source_file");
    assert!(NodeHandle::find_node_by_id(99, &root).is_none());
    assert!(NodeHandle::find_node_by_id(COMMENT, &root.children[0]).is_none());
}

#[test]
fn find_node_by_id_returns_the_first_in_pre_order() {
    let first = SyntaxNode::new(7, "first", span(0, 0, (0, 0), (0, 0)), vec![]);
    let second = SyntaxNode::new(7, "second", span(0, 0, (0, 0), (0, 0)), vec![]);
    let inner = SyntaxNode::new(2, "inner", span(0, 0, (0, 0), (0, 0)), vec![first]);
    let root = SyntaxNode::new(1, "root", span(0, 0, (0, 0), (0, 0)), vec![inner, second]);
    assert_eq!(NodeHandle::find_node_by_id(7, &root).unwrap().kind, "first");
}

#[test]
fn tree_with_a_repeated_identity_is_refused() {
    let first = SyntaxNode::new(7, "first", span(0, 0, (0, 0), (0, 0)), vec![]);
    let second = SyntaxNode::new(7, "second", span(0, 0, (0, 0), (0, 0)), vec![]);
    let root = SyntaxNode::new(1, "root", span(0, 0, (0, 0), (0, 0)), vec![first, second]);
    assert!(SyntaxTree::new(root).is_none());

    let child = SyntaxNode::new(1, "child", span(0, 0, (0, 0), (0, 0)), vec![]);
    let root = SyntaxNode::new(1, "root", span(0, 0, (0, 0), (0, 0)), vec![child]);
    assert!(SyntaxTree::new(root).is_none());

    assert!(SyntaxTree::new(sample_root()).is_some());
}

#[test]
fn missing_tree_is_the_identities_error() {
    assert!(matches!(parsed_tree(None), Err(ParseError::Identities)));
    assert!(parsed_tree(Some(sample_tree())).is_ok());
    assert_eq!(ParseError::NoTree.message(), "Failed to parse code");
}

#[test]
fn down_then_up_restores_the_cursor() {
    let mut app = sample_app();
    app.move_down();
    assert_eq!(app.cursor().id(), ASSIGNMENT);
    app.move_up();
    assert_eq!(app.cursor().id(), ROOT);

    app.move_down();
    app.move_down();
    assert_eq!(app.cursor().id(), IDENTIFIER);
    app.move_up();
    assert_eq!(app.cursor().id(), ASSIGNMENT);
}

#[test]
fn move_down_stops_at_leaves_and_folds() {
    let mut app = sample_app();
    app.move_down();
    app.toggle_collapse();
    app.move_down();
    assert_eq!(app.cursor().id(), ASSIGNMENT);
    app.toggle_collapse();
    app.move_down();
    assert_eq!(app.cursor().id(), IDENTIFIER);
    app.move_down();
    assert_eq!(app.cursor().id(), IDENTIFIER);
}

#[test]
fn toggling_a_leaf_folds_nothing() {
    let mut app = sample_app();
    app.move_down();
    app.move_right();
    assert_eq!(app.cursor().id(), COMMENT);
    app.toggle_collapse();
    assert!(!app.is_collapsed(COMMENT));
    assert_eq!(row_count(&app), 5);
}

#[test]
fn folding_twice_restores_the_rows() {
    let mut app = sample_app();
    let before: Vec<String> = app.draw(u16::MAX).lines.iter().map(|l| l.kind.clone()).collect();
    app.toggle_collapse();
    assert_eq!(row_count(&app), 1);
    app.toggle_collapse();
    let after: Vec<String> = app.draw(u16::MAX).lines.iter().map(|l| l.kind.clone()).collect();
    assert_eq!(before, after);
    assert_eq!(after.len(), 5);
}

#[test]
fn positions_increase_along_the_rows() {
    let mut app = sample_app();
    let order = [ROOT, ASSIGNMENT, IDENTIFIER, NUMBER, COMMENT];
    for (row, id) in order.iter().enumerate() {
        assert_eq!(position_of(&app, *id), (true, row));
    }
    app.move_down();
    app.toggle_collapse();
    let order = [ROOT, ASSIGNMENT, COMMENT];
    for (row, id) in order.iter().enumerate() {
        assert_eq!(position_of(&app, *id), (true, row));
    }
}

#[test]
fn position_counts_on_from_the_given_start() {
    let app = sample_app();
    let root = NodeHandle::new(Rc::clone(app.cursor().tree()));
    let mut position = 7;
    assert!(app.calculate_node_position(root.node(), NUMBER, &mut position));
    assert_eq!(position, 10);
    let mut position = 7;
    assert!(!app.calculate_node_position(root.node(), 99, &mut position));
    assert_eq!(position, 12);
    let assignment = root.child(0).unwrap();
    let mut position = 0;
    assert!(app.calculate_node_position(assignment.node(), NUMBER, &mut position));
    assert_eq!(position, 2);
}

#[test]
fn window_follows_the_cursor_down_and_up() {
    let mut app = sample_app();
    app.move_down();
    app.move_right();
    assert_eq!(app.cursor().id(), COMMENT);
    app.ensure_cursor_in_view(4);
    assert_eq!(app.scroll_offset(), 3);
    app.ensure_cursor_in_view(5);
    assert_eq!(app.scroll_offset(), 3);
    app.ensure_cursor_in_view(20);
    assert_eq!(app.scroll_offset(), 3);
    app.scroll_up();
    app.scroll_up();
    app.ensure_cursor_in_view(3);
    assert_eq!(app.scroll_offset(), 4);
    app.move_up();
    app.ensure_cursor_in_view(20);
    assert_eq!(app.scroll_offset(), 0);
}

#[test]
fn window_contains_the_cursor_for_every_height() {
    for height in 3..12u16 {
        for scrolls in 0..8 {
            let mut app = sample_app();
            app.move_down();
            app.move_down();
            app.move_right();
            for _ in 0..scrolls {
                app.scroll_down();
            }
            app.ensure_cursor_in_view(height);
            let rows = (height - 2) as usize;
            let offset = app.scroll_offset();
            assert!(offset <= 3 && 3 < offset + rows);
        }
    }
}

#[test]
fn window_without_rows_moves_past_the_cursor() {
    let mut app = sample_app();
    app.ensure_cursor_in_view(2);
    assert_eq!(app.scroll_offset(), 1);
    let mut app = sample_app();
    app.ensure_cursor_in_view(0);
    assert_eq!(app.scroll_offset(), 1);
}

#[test]
fn scrolling_stops_at_the_top() {
    let mut app = sample_app();
    app.scroll_up();
    assert_eq!(app.scroll_offset(), 0);
    app.scroll_down();
    app.scroll_down();
    assert_eq!(app.scroll_offset(), 2);
    app.scroll_up();
    assert_eq!(app.scroll_offset(), 1);
    assert_eq!(app.cursor().id(), ROOT);
}

#[test]
fn select_toggles_on_the_cursor() {
    let mut app = sample_app();
    app.toggle_select();
    assert_eq!(app.selected_id(), Some(ROOT));
    app.move_down();
    assert_eq!(app.selected_id(), Some(ROOT));
    app.toggle_select();
    assert_eq!(app.selected_id(), Some(ASSIGNMENT));
    app.toggle_select();
    assert_eq!(app.selected_id(), None);
}

#[test]
fn records_describe_the_rows() {
    let mut app = sample_app();
    app.move_down();
    app.toggle_select();
    app.move_down();
    let frame = app.draw(10);
    assert_eq!(frame.lines.len(), 5);

    let root = &frame.lines[0];
    assert_eq!(root.depth, 0);
    assert_eq!(root.kind, "source_file");
    assert_eq!(root.fold, Fold::Expanded);
    assert_eq!(root.child_count, 2);
    assert_eq!(root.text, None);
    assert_eq!(root.span, span(0, 12, (0, 0), (1, 6)));
    assert!(!root.is_cursor && !root.is_selected);

    let assignment = &frame.lines[1];
    assert_eq!(assignment.depth, 1);
    assert!(assignment.is_selected && !assignment.is_cursor);

    let identifier = &frame.lines[2];
    assert_eq!(identifier.depth, 2);
    assert_eq!(identifier.fold, Fold::Leaf);
    assert_eq!(identifier.child_count, 0);
    assert_eq!(identifier.text, Some(b"\"a\"".to_vec()));
    assert!(identifier.is_cursor && !identifier.is_selected);

    assert_eq!(frame.lines[3].text, Some(b"\"1\"".to_vec()));
    let comment = &frame.lines[4];
    assert_eq!(comment.depth, 1);
    assert_eq!(comment.text, Some(b"\"# note\"".to_vec()));
}

#[test]
fn folded_row_is_marked() {
    let mut app = sample_app();
    app.move_down();
    app.toggle_collapse();
    let frame = app.draw(10);
    assert_eq!(frame.lines.len(), 3);
    assert_eq!(frame.lines[1].fold, Fold::Collapsed);
    assert_eq!(frame.lines[1].child_count, 2);
    assert_eq!(frame.lines[2].kind, "comment");
}

#[test]
fn frame_holds_the_window() {
    let mut app = sample_app();
    app.scroll_down();
    let frame = app.draw(2);
    let kinds: Vec<&str> = frame.lines.iter().map(|l| l.kind.as_str()).collect();
    assert_eq!(kinds, vec!["assignment", "identifier"]);

    app.scroll_down();
    app.scroll_down();
    app.scroll_down();
    let frame = app.draw(2);
    let kinds: Vec<&str> = frame.lines.iter().map(|l| l.kind.as_str()).collect();
    assert_eq!(kinds, vec!["comment"]);

    app.scroll_down();
    assert!(app.draw(2).lines.is_empty());
    assert!(sample_app().draw(0).lines.is_empty());
}

#[test]
fn details_show_the_selection() {
    let mut app = sample_app();
    assert!(app.draw(10).details.is_none());
    app.move_down();
    app.toggle_select();
    app.move_up();
    let details = app.draw(10).details.unwrap();
    assert_eq!(details.kind, "assignment");
    assert_eq!(details.span, span(0, 5, (0, 0), (0, 5)));
    assert_eq!(details.text, b"a = 1".to_vec());
}

#[test]
fn colours_of_kinds() {
    assert_eq!(App::get_node_color("source_file"), NodeColor::Cyan);
    assert_eq!(App::get_node_color("assignment"), NodeColor::Magenta);
    assert_eq!(App::get_node_color("comment"), NodeColor::DarkGray);
    assert_eq!(App::get_node_color("string"), NodeColor::Green);
    assert_eq!(App::get_node_color("identifier"), NodeColor::Yellow);
    assert_eq!(App::get_node_color("number"), NodeColor::Blue);
    assert_eq!(App::get_node_color("function"), NodeColor::Red);
    assert_eq!(App::get_node_color("parameter"), NodeColor::Yellow);
    assert_eq!(App::get_node_color("argument"), NodeColor::Cyan);
    assert_eq!(App::get_node_color("array"), NodeColor::White);
    assert_eq!(App::get_node_color(""), NodeColor::White);
}

#[test]
fn format_node_fills_the_record() {
    let root = sample_root();
    let code = source();
    let record = App::format_node(&root.children[1], &code, 3, true, false, false, false);
    assert_eq!(record.depth, 3);
    assert_eq!(record.fold, Fold::Leaf);
    assert_eq!(record.kind, "comment");
    assert_eq!(record.text, Some(b"\"# note\"".to_vec()));
    assert!(record.is_cursor && !record.is_selected);

    let record = App::format_node(&root, &code, 0, false, true, true, true);
    assert_eq!(record.fold, Fold::Collapsed);
    assert_eq!(record.text, None);
    assert_eq!(record.child_count, 2);
    assert!(record.is_selected);
}

#[test]
fn keys_stand_for_commands() {
    let plain = |c: char| KeyPress { code: KeyCode::Char(c), control: false };
    let control = |c: char| KeyPress { code: KeyCode::Char(c), control: true };
    assert_eq!(Command::from_key(plain('q')), Some(Command::Quit));
    assert_eq!(Command::from_key(plain('k')), Some(Command::MoveUp));
    assert_eq!(Command::from_key(plain('j')), Some(Command::MoveDown));
    assert_eq!(Command::from_key(plain('h')), Some(Command::MoveLeft));
    assert_eq!(Command::from_key(plain('l')), Some(Command::MoveRight));
    assert_eq!(Command::from_key(plain(' ')), Some(Command::ToggleSelect));
    assert_eq!(Command::from_key(control('u')), Some(Command::ScrollUp));
    assert_eq!(Command::from_key(control('d')), Some(Command::ScrollDown));
    assert_eq!(Command::from_key(plain('u')), None);
    assert_eq!(Command::from_key(plain('d')), None);
    assert_eq!(Command::from_key(control('j')), Some(Command::MoveDown));
    assert_eq!(
        Command::from_key(KeyPress { code: KeyCode::Enter, control: false }),
        Some(Command::ToggleFold)
    );
    assert_eq!(Command::from_key(KeyPress { code: KeyCode::Other, control: true }), None);
    assert_eq!(Command::from_key(plain('x')), None);
}

#[test]
fn commands_drive_the_session() {
    let mut app = sample_app();
    assert!(app.apply(Command::MoveDown));
    assert_eq!(app.cursor().id(), ASSIGNMENT);
    assert!(app.apply(Command::ToggleFold));
    assert!(app.is_collapsed(ASSIGNMENT));
    assert!(app.apply(Command::ToggleSelect));
    assert_eq!(app.selected_id(), Some(ASSIGNMENT));
    assert!(app.apply(Command::MoveRight));
    assert_eq!(app.cursor().id(), COMMENT);
    assert!(app.apply(Command::MoveLeft));
    assert_eq!(app.cursor().id(), ASSIGNMENT);
    assert!(app.apply(Command::ScrollDown));
    assert_eq!(app.scroll_offset(), 1);
    assert!(app.apply(Command::ScrollUp));
    assert_eq!(app.scroll_offset(), 0);
    assert!(app.apply(Command::MoveUp));
    assert_eq!(app.cursor().id(), ROOT);
    assert!(!app.apply(Command::Quit));
    assert_eq!(app.cursor().id(), ROOT);
}
