//! A session: the tree, the cursor, the selection, the folds and the scroll offset, and
//! the commands that change them.

use crate::display::{
    color_of, details_of, record_of, row_record, shapes, window, Details, DisplayRecord, Fold,
    Frame, NodeColor, RecordShape,
};
use crate::language::{
    detected, lower_case_keeps, path_extension, path_file_name, DetectionError, SourceLanguage,
};
use crate::lemmas::{
    ids_upto, lemma_child_depths_len, lemma_child_walk_prefix, lemma_child_walk_segment,
    lemma_depths_len, lemma_find_path_valid, lemma_first_index, lemma_first_index_concat,
    lemma_first_index_prefix, lemma_ids_upto, lemma_path_drop_last, lemma_shown_child,
    lemma_shown_fold, lemma_shown_parent, lemma_shown_root, lemma_shown_sibling,
    lemma_shown_unfold, lemma_shown_visible, lemma_walk_len,
};
use crate::model::{
    child_depths, child_walk, depths, display_rows, find_path, first_index, lookup, parent_of,
    position, scrolled, visible_ids, walk, NodeShape, RESERVED_ROWS,
};
use crate::node_handle::{share, NodeHandle};
use crate::parse::{accepted, grammar, is_built_in, parse, refusal_for, ParseError};
use crate::session::{
    fold_toggled, initial, moved_down, moved_left, moved_right, moved_up, scrolled_down,
    scrolled_up, select_toggled, session_wf, step, Command, Session,
};
use crate::strings::same_text;
use crate::text::{detail_text, display_text, slice_text};
use crate::tree::{lemma_child_view, SyntaxNode, SyntaxTree};
use std::collections::HashSet;
use std::rc::Rc;
use vstd::prelude::*;

verus! {

/// The records of `nodes` at the depths `levels`.
pub open spec fn records_of(
    nodes: Seq<NodeShape>,
    levels: Seq<nat>,
    code: Seq<u8>,
    cursor: usize,
    selected: Option<usize>,
    hidden: Set<usize>,
) -> Seq<RecordShape> {
    Seq::new(
        nodes.len(),
        |i: int| row_record(nodes[i], levels[i], code, cursor, selected, hidden),
    )
}

/// The records of the display of `node`, which lies at `depth`: one for each node of
/// the fold-aware walk, in order.
pub open spec fn records(
    node: NodeShape,
    hidden: Set<usize>,
    depth: nat,
    code: Seq<u8>,
    cursor: usize,
    selected: Option<usize>,
) -> Seq<RecordShape> {
    records_of(walk(node, hidden), depths(node, hidden, depth), code, cursor, selected, hidden)
}

/// The records of a session, from the root down.
pub open spec fn session_records(s: Session) -> Seq<RecordShape> {
    records(s.root, s.collapsed, 0, s.source, s.cursor, s.selection)
}

/// Records are made node by node.
proof fn lemma_records_concat(
    a: Seq<NodeShape>,
    la: Seq<nat>,
    b: Seq<NodeShape>,
    lb: Seq<nat>,
    code: Seq<u8>,
    cursor: usize,
    selected: Option<usize>,
    hidden: Set<usize>,
)
    requires
        a.len() == la.len(),
        b.len() == lb.len(),
    ensures
        records_of(a + b, la + lb, code, cursor, selected, hidden) == records_of(
            a,
            la,
            code,
            cursor,
            selected,
            hidden,
        ) + records_of(b, lb, code, cursor, selected, hidden),
{
    let whole = records_of(a + b, la + lb, code, cursor, selected, hidden);
    let first = records_of(a, la, code, cursor, selected, hidden);
    let second = records_of(b, lb, code, cursor, selected, hidden);
    assert forall|i: int| 0 <= i < whole.len() implies whole[i] == (first + second)[i] by {
        if i < a.len() {
            assert((a + b)[i] == a[i] && (la + lb)[i] == la[i]);
        } else {
            assert((a + b)[i] == b[i - a.len()] && (la + lb)[i] == lb[i - a.len()]);
        }
    }
    assert(records_of(a + b, la + lb, code, cursor, selected, hidden) =~= records_of(
        a,
        la,
        code,
        cursor,
        selected,
        hidden,
    ) + records_of(b, lb, code, cursor, selected, hidden));
}

/// Why a session did not start.
#[derive(Clone, Copy, Debug, PartialEq, Eq, Structural)]
pub enum StartupError {
    /// The language of the file is not known.
    Language(DetectionError),
    /// No grammar is built in for the language of the file.
    Grammar,
    /// The code could not be parsed.
    Parse(ParseError),
}

/// A session is owed: the language of the file is known, and the grammar for it is
/// built in or, for `Just`, was brought and is one that tree-sitter accepts.
pub open spec fn startup_owed(
    language: Option<SourceLanguage>,
    just_grammar: Option<tree_sitter::Language>,
) -> bool {
    match language {
        Some(SourceLanguage::Just) => match just_grammar {
            Some(brought) => accepted(brought),
            None => false,
        },
        Some(_) => true,
        None => false,
    }
}

/// A session of the explorer.
#[derive(Debug)]
pub struct App {
    code: Vec<u8>,
    collapsed_nodes: HashSet<usize>,
    cursor_node: NodeHandle,
    scroll_offset: usize,
    selected_node: Option<NodeHandle>,
    tree: Rc<SyntaxTree>,
}

impl View for App {
    type V = Session;

    closed spec fn view(&self) -> Session {
        Session {
            root: self.tree@,
            source: self.code@,
            cursor: self.cursor_node.id(),
            selection: match self.selected_node {
                Some(handle) => Some(handle.id()),
                None => None,
            },
            collapsed: self.collapsed_nodes@,
            offset: self.scroll_offset as nat,
        }
    }
}

impl App {
    #[verifier::type_invariant]
    spec fn inv(self) -> bool {
        &&& session_wf(self@)
        &&& self.cursor_node.root() == self.tree@
        &&& match self.selected_node {
            Some(handle) => handle.root() == self.tree@,
            None => true,
        }
    }

    /// A session on the file called `filename` that holds `code`: the language is told
    /// from the name, and the code is parsed with the grammar that is built in for that
    /// language. For `Just`, for which none is built in, the caller brings the grammar.
    /// A session starts for every language with a built-in grammar, and for `Just` where
    /// the grammar that was brought is one that tree-sitter accepts.
    pub fn new(
        filename: &str,
        code: Vec<u8>,
        just_grammar: Option<tree_sitter::Language>,
    ) -> (app: Result<App, StartupError>)
        ensures
            app == Err::<App, StartupError>(StartupError::Language(DetectionError::Undetected))
                <==> detected(path_extension(filename@), path_file_name(filename@)) is None,
            app == Err::<App, StartupError>(StartupError::Grammar) <==> detected(
                path_extension(filename@),
                path_file_name(filename@),
            ) == Some(SourceLanguage::Just) && just_grammar is None,
            startup_owed(detected(path_extension(filename@), path_file_name(filename@)), just_grammar)
                ==> app is Ok,
            match just_grammar {
                Some(brought) => (detected(
                    path_extension(filename@),
                    path_file_name(filename@),
                ) == Some(SourceLanguage::Just) && !accepted(brought)) ==> app == Err::<
                    App,
                    StartupError,
                >(StartupError::Parse(ParseError::Grammar(refusal_for(brought)))),
                None => true,
            },
            app matches Ok(session) ==> session_wf(session@) && session@ == initial(
                session@.root,
                code@,
            ),
            path_extension(filename@) matches Some(text) ==> lower_case_keeps(text),
    {
        let language = match SourceLanguage::try_from(filename) {
            Ok(language) => language,
            Err(error) => {
                return Err(StartupError::Language(error));
            },
        };
        match Self::grammar_for(language, just_grammar) {
            Some(grammar) => {
                let parsed = parse(&code, &grammar);
                Self::started(code, parsed)
            },
            None => Err(StartupError::Grammar),
        }
    }

    /// The grammar to parse `language` with: the one that is built in, or, for `Just`,
    /// the one that the caller brought.
    pub fn grammar_for(
        language: SourceLanguage,
        just_grammar: Option<tree_sitter::Language>,
    ) -> (grammar: Option<tree_sitter::Language>)
        ensures
            language == SourceLanguage::Just ==> grammar == just_grammar,
            language != SourceLanguage::Just ==> (grammar matches Some(built_in) && is_built_in(
                built_in,
                language,
            ) && accepted(built_in)),
    {
        match grammar(language) {
            Some(built_in) => Some(built_in),
            None => just_grammar,
        }
    }

    /// The session on what parsing returned for `code`: a session at its start on the
    /// tree, or the error of the parser.
    pub fn started(code: Vec<u8>, parsed: Result<SyntaxTree, ParseError>) -> (app: Result<
        App,
        StartupError,
    >)
        ensures
            match parsed {
                Ok(tree) => app matches Ok(session) && session@ == initial(tree@, code@)
                    && session_wf(session@),
                Err(error) => app == Err::<App, StartupError>(StartupError::Parse(error)),
            },
    {
        match parsed {
            Ok(tree) => Ok(Self::with_tree(code, tree)),
            Err(error) => Err(StartupError::Parse(error)),
        }
    }

    /// A session on `tree`, the syntax tree of `code`.
    pub fn with_tree(code: Vec<u8>, tree: SyntaxTree) -> (app: App)
        ensures
            app@ == initial(tree@, code@),
            session_wf(app@),
    {
        let _ = tree.root();
        let tree = Rc::new(tree);
        let cursor_node = NodeHandle::new(share(&tree));
        proof {
            lemma_shown_root(tree@, Set::empty());
        }
        App {
            code,
            collapsed_nodes: HashSet::new(),
            cursor_node,
            scroll_offset: 0,
            selected_node: None,
            tree,
        }
    }

    /// The handle of the cursor.
    pub fn cursor(&self) -> (handle: &NodeHandle)
        ensures
            handle.id() == self@.cursor,
            handle.root() == self@.root,
            handle.wf(),
            session_wf(self@),
    {
        proof {
            use_type_invariant(self);
        }
        &self.cursor_node
    }

    /// The identity of the selected node, if one is selected.
    pub fn selected_id(&self) -> (id: Option<usize>)
        ensures
            id == self@.selection,
    {
        match &self.selected_node {
            Some(handle) => Some(handle.id()),
            None => None,
        }
    }

    /// The first row of the window.
    pub fn scroll_offset(&self) -> (offset: usize)
        ensures
            offset == self@.offset,
    {
        self.scroll_offset
    }

    /// Whether the node with identity `id` is folded.
    pub fn is_collapsed(&self, id: usize) -> (folded: bool)
        ensures
            folded == self@.collapsed.contains(id),
    {
        broadcast use vstd::std_specs::hash::group_hash_axioms;

        self.collapsed_nodes.contains(&id)
    }

    /// Walks the display of `node` up to the node with identity `target_id`, counting
    /// the rows before it into `position`. Says whether the target is displayed there;
    /// where it is not, all rows were counted.
    pub fn calculate_node_position(
        &self,
        node: &SyntaxNode,
        target_id: usize,
        position: &mut usize,
    ) -> (found: bool)
        requires
            *old(position) + walk(node@, self@.collapsed).len() <= usize::MAX,
        ensures
            found == visible_ids(node@, self@.collapsed).contains(target_id),
            *final(position) == *old(position) + first_index(
                visible_ids(node@, self@.collapsed),
                target_id,
            ),
        decreases node,
    {
        broadcast use vstd::std_specs::hash::group_hash_axioms;

        let ghost hidden = self@.collapsed;
        let ghost start = *position;
        let ghost whole = visible_ids(node@, hidden);
        proof {
            assert(whole[0] == node.id);
            lemma_first_index(whole, target_id);
        }
        if node.id == target_id {
            return true;
        }
        *position = *position + 1;
        if self.collapsed_nodes.contains(&node.id) {
            proof {
                assert(whole =~= seq![node.id]);
                assert(whole.drop_first() =~= Seq::<usize>::empty());
            }
            return false;
        }
        proof {
            lemma_ids_upto(node@, hidden, 0);
            assert(ids_upto(node@, hidden, 0) =~= seq![node.id]);
            lemma_first_index(seq![node.id], target_id);
        }
        let mut i: usize = 0;
        while i < node.children.len()
            invariant
                i <= node.children.len(),
                hidden == self@.collapsed,
                whole == visible_ids(node@, hidden),
                !hidden.contains(node.id),
                start + walk(node@, hidden).len() <= usize::MAX,
                !ids_upto(node@, hidden, i as nat).contains(target_id),
                *position == start + ids_upto(node@, hidden, i as nat).len(),
                start == *old(position),
            decreases node.children.len() - i,
        {
            let ghost done = ids_upto(node@, hidden, i as nat);
            let ghost own = visible_ids(node.children[i as int]@, hidden);
            proof {
                lemma_child_view(node, i as int);
                lemma_ids_upto(node@, hidden, i as nat);
                lemma_ids_upto(node@, hidden, (i + 1) as nat);
                lemma_ids_upto(node@, hidden, node@.children.len());
                lemma_child_walk_prefix(
                    node@.children,
                    (i + 1) as nat,
                    node@.children.len(),
                    hidden,
                );
                lemma_first_index_concat(done, own, target_id);
                lemma_first_index(done, target_id);
                lemma_first_index(own, target_id);
            }
            if self.calculate_node_position(&node.children[i], target_id, position) {
                proof {
                    let upto = done + own;
                    assert(whole.subrange(0, upto.len() as int) =~= upto);
                    let k = choose|k: int| 0 <= k < own.len() && own[k] == target_id;
                    assert(upto[done.len() + k] == target_id);
                    lemma_first_index_prefix(whole, upto.len() as int, target_id);
                }
                return true;
            }
            proof {
                let upto = done + own;
                assert forall|k: int| 0 <= k < upto.len() implies upto[k] != target_id by {
                    if k < done.len() {
                        assert(done.contains(done[k]));
                    } else {
                        assert(own.contains(own[k - done.len()]));
                    }
                }
            }
            i = i + 1;
        }
        proof {
            lemma_ids_upto(node@, hidden, i as nat);
        }
        false
    }

    /// The row of the cursor in the display.
    fn cursor_position(&self) -> (row: usize)
        ensures
            row == position(self@.root, self@.collapsed, self@.cursor),
            row < walk(self@.root, self@.collapsed).len(),
    {
        proof {
            use_type_invariant(self);
            lemma_walk_len(self@.root, self@.collapsed);
            lemma_shown_visible(self@.root, self@.collapsed, self@.cursor);
            lemma_first_index(visible_ids(self@.root, self@.collapsed), self@.cursor);
        }
        let mut row: usize = 0;
        let root = self.tree.root();
        self.calculate_node_position(root, self.cursor_node.id(), &mut row);
        row
    }

    /// Moves the window by no more than it takes to show the cursor on a terminal
    /// `terminal_height` rows high. Where the terminal leaves a row for the tree, the
    /// cursor then lies in the window.
    pub fn ensure_cursor_in_view(&mut self, terminal_height: u16)
        ensures
            final(self)@ == (Session {
                offset: scrolled(
                    old(self)@.offset,
                    position(old(self)@.root, old(self)@.collapsed, old(self)@.cursor),
                    display_rows(terminal_height),
                ),
                ..old(self)@
            }),
            display_rows(terminal_height) >= 1 ==> final(self)@.offset <= position(
                final(self)@.root,
                final(self)@.collapsed,
                final(self)@.cursor,
            ) < final(self)@.offset + display_rows(terminal_height),
    {
        proof {
            use_type_invariant(&*self);
            lemma_walk_len(self@.root, self@.collapsed);
        }
        let row = self.cursor_position();
        let rows: usize = if terminal_height >= RESERVED_ROWS {
            (terminal_height - RESERVED_ROWS) as usize
        } else {
            0
        };
        if row < self.scroll_offset {
            self.scroll_offset = row;
        } else if row - self.scroll_offset >= rows {
            self.scroll_offset = row - rows + 1;
        }
    }

    /// The record of `node` for a row at `depth`.
    pub fn format_node(
        node: &SyntaxNode,
        code: &Vec<u8>,
        depth: usize,
        is_cursor: bool,
        is_selected: bool,
        is_collapsed: bool,
        has_children: bool,
    ) -> (record: DisplayRecord)
        ensures
            record@ == record_of(
                node@,
                code@,
                depth as nat,
                is_cursor,
                is_selected,
                is_collapsed,
                has_children,
            ),
    {
        let fold = if !has_children {
            Fold::Leaf
        } else if is_collapsed {
            Fold::Collapsed
        } else {
            Fold::Expanded
        };
        let text = if node.children.len() == 0 {
            let own = slice_text(code, node.span);
            Some(display_text(&own))
        } else {
            None
        };
        DisplayRecord {
            depth,
            fold,
            kind: node.kind.clone(),
            span: node.span,
            child_count: node.children.len(),
            text,
            is_cursor,
            is_selected,
        }
    }

    /// The colour of a kind of node.
    pub fn get_node_color(node_kind: &str) -> (color: NodeColor)
        ensures
            color == color_of(node_kind@),
    {
        if same_text(node_kind, "source_file") {
            NodeColor::Cyan
        } else if same_text(node_kind, "assignment") {
            NodeColor::Magenta
        } else if same_text(node_kind, "comment") {
            NodeColor::DarkGray
        } else if same_text(node_kind, "string") {
            NodeColor::Green
        } else if same_text(node_kind, "identifier") {
            NodeColor::Yellow
        } else if same_text(node_kind, "number") {
            NodeColor::Blue
        } else if same_text(node_kind, "function") {
            NodeColor::Red
        } else if same_text(node_kind, "parameter") {
            NodeColor::Yellow
        } else if same_text(node_kind, "argument") {
            NodeColor::Cyan
        } else {
            NodeColor::White
        }
    }

    /// Appends to `lines` the records of the display of `node`, which lies at `depth`.
    pub fn render_tree(
        node: &SyntaxNode,
        code: &Vec<u8>,
        cursor_id: usize,
        selected_id: Option<usize>,
        collapsed_nodes: &HashSet<usize>,
        depth: usize,
        lines: &mut Vec<DisplayRecord>,
    )
        requires
            depth + walk(node@, collapsed_nodes@).len() <= usize::MAX,
        ensures
            shapes(final(lines)@) == shapes(old(lines)@) + records(
                node@,
                collapsed_nodes@,
                depth as nat,
                code@,
                cursor_id,
                selected_id,
            ),
        decreases node,
    {
        broadcast use vstd::std_specs::hash::group_hash_axioms;

        let ghost hidden = collapsed_nodes@;
        let ghost before = shapes(lines@);
        let is_cursor = node.id == cursor_id;
        let is_selected = match selected_id {
            Some(id) => node.id == id,
            None => false,
        };
        let is_collapsed = collapsed_nodes.contains(&node.id);
        let has_children = node.children.len() > 0;
        let record = Self::format_node(
            node,
            code,
            depth,
            is_cursor,
            is_selected,
            is_collapsed,
            has_children,
        );
        lines.push(record);
        proof {
            assert(shapes(lines@) =~= before + records_of(
                seq![node@],
                seq![depth as nat],
                code@,
                cursor_id,
                selected_id,
                hidden,
            ));
        }
        if is_collapsed {
            return ;
        }
        let mut i: usize = 0;
        while i < node.children.len()
            invariant
                i <= node.children.len(),
                hidden == collapsed_nodes@,
                !hidden.contains(node.id),
                depth + walk(node@, hidden).len() <= usize::MAX,
                shapes(lines@) == before + records_of(
                    seq![node@] + child_walk(node@.children, i as nat, hidden),
                    seq![depth as nat] + child_depths(
                        node@.children,
                        i as nat,
                        hidden,
                        (depth + 1) as nat,
                    ),
                    code@,
                    cursor_id,
                    selected_id,
                    hidden,
                ),
            decreases node.children.len() - i,
        {
            let ghost nodes = seq![node@] + child_walk(node@.children, i as nat, hidden);
            let ghost levels = seq![depth as nat] + child_depths(
                node@.children,
                i as nat,
                hidden,
                (depth + 1) as nat,
            );
            let ghost own = walk(node.children[i as int]@, hidden);
            let ghost own_levels = depths(node.children[i as int]@, hidden, (depth + 1) as nat);
            proof {
                lemma_child_view(node, i as int);
                lemma_child_walk_segment(node@.children, i as int, node@.children.len(), hidden);
                lemma_child_depths_len(node@.children, i as nat, hidden, (depth + 1) as nat);
                lemma_depths_len(node.children[i as int]@, hidden, (depth + 1) as nat);
                lemma_records_concat(
                    nodes,
                    levels,
                    own,
                    own_levels,
                    code@,
                    cursor_id,
                    selected_id,
                    hidden,
                );
            }
            Self::render_tree(
                &node.children[i],
                code,
                cursor_id,
                selected_id,
                collapsed_nodes,
                depth + 1,
                lines,
            );
            proof {
                assert(nodes + own =~= seq![node@] + child_walk(
                    node@.children,
                    (i + 1) as nat,
                    hidden,
                ));
                assert(levels + own_levels =~= seq![depth as nat] + child_depths(
                    node@.children,
                    (i + 1) as nat,
                    hidden,
                    (depth + 1) as nat,
                ));
            }
            i = i + 1;
        }
    }

    /// One frame for a terminal `height` rows high: the records of the rows from the
    /// scroll offset on, `height` of them at most, and the details of the selection.
    pub fn draw(&self, height: u16) -> (frame: Frame)
        ensures
            shapes(frame.lines@) == window(session_records(self@), self@.offset, height as nat),
            match self@.selection {
                Some(id) => frame.details matches Some(details) && (
                    details.kind@,
                    details.span,
                    details.text@,
                ) == details_of(lookup(self@.root, id)->0, self@.source),
                None => frame.details is None,
            },
    {
        proof {
            use_type_invariant(self);
            lemma_walk_len(self@.root, self@.collapsed);
        }
        let mut all: Vec<DisplayRecord> = Vec::new();
        let selected_id = self.selected_id();
        Self::render_tree(
            self.tree.root(),
            &self.code,
            self.cursor_node.id(),
            selected_id,
            &self.collapsed_nodes,
            0,
            &mut all,
        );
        let ghost rendered = all@;
        proof {
            assert(shapes(rendered) =~= session_records(self@));
        }
        let mut lines: Vec<DisplayRecord> = if self.scroll_offset >= all.len() {
            Vec::new()
        } else {
            all.split_off(self.scroll_offset)
        };
        lines.truncate(height as usize);
        proof {
            assert(shapes(lines@) =~= window(
                session_records(self@),
                self@.offset,
                height as nat,
            ));
        }
        let details = match &self.selected_node {
            Some(handle) => {
                let node = handle.node();
                let own = slice_text(&self.code, node.span);
                Some(Details { kind: node.kind.clone(), span: node.span, text: detail_text(&own) })
            },
            None => None,
        };
        Frame { lines, details }
    }

    /// To the first child, unless the cursor is folded or a leaf.
    pub fn move_down(&mut self)
        ensures
            final(self)@ == moved_down(old(self)@),
    {
        broadcast use vstd::std_specs::hash::group_hash_axioms;

        proof {
            use_type_invariant(&*self);
            lemma_find_path_valid(self@.root, self@.cursor);
        }
        let current = self.cursor_node.node();
        if current.children.len() > 0 && !self.collapsed_nodes.contains(&current.id) {
            match self.cursor_node.child(0) {
                Some(child) => {
                    proof {
                        lemma_shown_child(self@.root, self@.collapsed, self@.cursor, 0);
                    }
                    self.cursor_node = child;
                },
                None => {},
            }
        }
    }

    /// To the sibling before; to the parent from a first child; nowhere from the root.
    pub fn move_left(&mut self)
        ensures
            final(self)@ == moved_left(old(self)@),
    {
        proof {
            use_type_invariant(&*self);
            lemma_find_path_valid(self@.root, self@.cursor);
            if find_path(self@.root, self@.cursor)->0.len() > 0 {
                lemma_path_drop_last(self@.root, find_path(self@.root, self@.cursor)->0);
            }
        }
        match self.cursor_node.prev_sibling() {
            Some(prev) => {
                proof {
                    let at = (parent_of(self@.root, self@.cursor)->0).1;
                    lemma_shown_sibling(self@.root, self@.collapsed, self@.cursor, at - 1);
                }
                self.cursor_node = prev;
            },
            None => {
                match self.cursor_node.parent() {
                    Some(parent) => {
                        proof {
                            lemma_shown_parent(self@.root, self@.collapsed, self@.cursor);
                        }
                        self.cursor_node = parent;
                    },
                    None => {},
                }
            },
        }
    }

    /// To the sibling after, if there is one.
    pub fn move_right(&mut self)
        ensures
            final(self)@ == moved_right(old(self)@),
    {
        proof {
            use_type_invariant(&*self);
            lemma_find_path_valid(self@.root, self@.cursor);
            if find_path(self@.root, self@.cursor)->0.len() > 0 {
                lemma_path_drop_last(self@.root, find_path(self@.root, self@.cursor)->0);
            }
        }
        match self.cursor_node.next_sibling() {
            Some(next) => {
                proof {
                    let at = (parent_of(self@.root, self@.cursor)->0).1;
                    lemma_shown_sibling(self@.root, self@.collapsed, self@.cursor, at + 1);
                }
                self.cursor_node = next;
            },
            None => {},
        }
    }

    /// To the parent, unless the cursor is the root.
    pub fn move_up(&mut self)
        ensures
            final(self)@ == moved_up(old(self)@),
    {
        proof {
            use_type_invariant(&*self);
        }
        match self.cursor_node.parent() {
            Some(parent) => {
                proof {
                    lemma_shown_parent(self@.root, self@.collapsed, self@.cursor);
                }
                self.cursor_node = parent;
            },
            None => {},
        }
    }

    /// The window one row down; it stays where the offset would no longer fit the
    /// machine's integers.
    pub fn scroll_down(&mut self)
        ensures
            final(self)@ == scrolled_down(old(self)@),
    {
        proof {
            use_type_invariant(&*self);
        }
        if self.scroll_offset < usize::MAX {
            self.scroll_offset = self.scroll_offset + 1;
        }
    }

    /// The window one row up, if it is not at the top.
    pub fn scroll_up(&mut self)
        ensures
            final(self)@ == scrolled_up(old(self)@),
    {
        proof {
            use_type_invariant(&*self);
        }
        if self.scroll_offset > 0 {
            self.scroll_offset = self.scroll_offset - 1;
        }
    }

    /// Folds or unfolds the cursor, if it has children.
    pub fn toggle_collapse(&mut self)
        ensures
            final(self)@ == fold_toggled(old(self)@),
    {
        broadcast use vstd::std_specs::hash::group_hash_axioms;

        proof {
            use_type_invariant(&*self);
            lemma_find_path_valid(self@.root, self@.cursor);
        }
        let node = self.cursor_node.node();
        let node_id = node.id;
        let has_children = node.children.len() > 0;
        if has_children {
            proof {
                lemma_shown_fold(self@.root, self@.collapsed, self@.cursor);
                lemma_shown_unfold(self@.root, self@.collapsed, self@.cursor, node_id);
            }
            let mut folds: HashSet<usize> = HashSet::new();
            std::mem::swap(&mut self.collapsed_nodes, &mut folds);
            if folds.contains(&node_id) {
                folds.remove(&node_id);
            } else {
                folds.insert(node_id);
            }
            std::mem::swap(&mut self.collapsed_nodes, &mut folds);
        }
    }

    /// Selects the cursor, or clears the selection if the cursor is selected.
    pub fn toggle_select(&mut self)
        ensures
            final(self)@ == select_toggled(old(self)@),
    {
        proof {
            use_type_invariant(&*self);
        }
        let is_selected = match &self.selected_node {
            Some(handle) => handle.id() == self.cursor_node.id(),
            None => false,
        };
        if is_selected {
            self.selected_node = None;
        } else {
            self.selected_node = Some(self.cursor_node.duplicate());
        }
    }

    /// Carries out `command`, and says whether the session goes on: it does after every
    /// command but `Quit`.
    pub fn apply(&mut self, command: Command) -> (running: bool)
        ensures
            final(self)@ == step(old(self)@, command),
            running == (command != Command::Quit),
    {
        match command {
            Command::MoveDown => self.move_down(),
            Command::MoveUp => self.move_up(),
            Command::MoveLeft => self.move_left(),
            Command::MoveRight => self.move_right(),
            Command::ToggleFold => self.toggle_collapse(),
            Command::ToggleSelect => self.toggle_select(),
            Command::ScrollUp => self.scroll_up(),
            Command::ScrollDown => self.scroll_down(),
            Command::Quit => {
                return false;
            },
        }
        true
    }
}

} // verus!
