//! What the renderer hands to the presentation layer: one record per displayed node, and
//! the details of the selected node. Nothing here is styled.

use crate::model::{NodeShape, Span};
use crate::text::{plain_text, quoted_text, span_text};
use vstd::prelude::*;

verus! {

/// Whether a row can be folded, and if so, whether it is.
#[derive(Clone, Copy, Debug, PartialEq, Eq, Structural)]
pub enum Fold {
    /// The node has no children: there is nothing to fold.
    Leaf,
    /// The node has children and they are displayed.
    Expanded,
    /// The node has children and they are hidden.
    Collapsed,
}

/// The colour the presentation layer gives to a kind of node.
#[derive(Clone, Copy, Debug, PartialEq, Eq, Structural)]
pub enum NodeColor {
    Cyan,
    Magenta,
    DarkGray,
    Green,
    Yellow,
    Blue,
    Red,
    White,
}

/// One row of the display: a node, how deep it lies, and how it relates to cursor,
/// selection and folds. `text` is present exactly for leaves.
#[derive(Debug)]
pub struct DisplayRecord {
    pub depth: usize,
    pub fold: Fold,
    pub kind: String,
    pub span: Span,
    pub child_count: usize,
    pub text: Option<Vec<u8>>,
    pub is_cursor: bool,
    pub is_selected: bool,
}

/// A display record as a mathematical value.
pub struct RecordShape {
    pub depth: nat,
    pub fold: Fold,
    pub kind: Seq<char>,
    pub span: Span,
    pub child_count: nat,
    pub text: Option<Seq<u8>>,
    pub is_cursor: bool,
    pub is_selected: bool,
}

impl View for DisplayRecord {
    type V = RecordShape;

    open spec fn view(&self) -> RecordShape {
        RecordShape {
            depth: self.depth as nat,
            fold: self.fold,
            kind: self.kind@,
            span: self.span,
            child_count: self.child_count as nat,
            text: match self.text {
                Some(text) => Some(text@),
                None => None,
            },
            is_cursor: self.is_cursor,
            is_selected: self.is_selected,
        }
    }
}

/// What the details panel shows of the selected node.
#[derive(Debug)]
pub struct Details {
    pub kind: String,
    pub span: Span,
    pub text: Vec<u8>,
}

/// One frame: the rows that fall into the window, and the details of the selection.
#[derive(Debug)]
pub struct Frame {
    pub lines: Vec<DisplayRecord>,
    pub details: Option<Details>,
}

/// The views of `records`, in order.
pub open spec fn shapes(records: Seq<DisplayRecord>) -> Seq<RecordShape> {
    records.map_values(|record: DisplayRecord| record@)
}

/// The fold marker of a row.
pub open spec fn fold_of(has_children: bool, is_collapsed: bool) -> Fold {
    if !has_children {
        Fold::Leaf
    } else if is_collapsed {
        Fold::Collapsed
    } else {
        Fold::Expanded
    }
}

/// The record of `node` at `depth`, given what the caller found out about the row.
pub open spec fn record_of(
    node: NodeShape,
    code: Seq<u8>,
    depth: nat,
    is_cursor: bool,
    is_selected: bool,
    is_collapsed: bool,
    has_children: bool,
) -> RecordShape {
    RecordShape {
        depth,
        fold: fold_of(has_children, is_collapsed),
        kind: node.kind,
        span: node.span,
        child_count: node.children.len(),
        text: if node.children.len() == 0 {
            Some(quoted_text(span_text(code, node.span)))
        } else {
            None
        },
        is_cursor,
        is_selected,
    }
}

/// The record of a row of the display: `node` at `depth`, with cursor `cursor`,
/// selection `selected` and folds `hidden`.
pub open spec fn row_record(
    node: NodeShape,
    depth: nat,
    code: Seq<u8>,
    cursor: usize,
    selected: Option<usize>,
    hidden: Set<usize>,
) -> RecordShape {
    record_of(
        node,
        code,
        depth,
        node.id == cursor,
        selected == Some(node.id),
        hidden.contains(node.id),
        node.children.len() > 0,
    )
}

/// The rows `from .. from + count` of `all`, as far as there are such rows.
pub open spec fn window<T>(all: Seq<T>, from: nat, count: nat) -> Seq<T> {
    if from >= all.len() {
        Seq::empty()
    } else if from + count >= all.len() {
        all.subrange(from as int, all.len() as int)
    } else {
        all.subrange(from as int, (from + count) as int)
    }
}

/// The colour of a kind of node.
pub open spec fn color_of(kind: Seq<char>) -> NodeColor {
    if kind == "source_file"@ {
        NodeColor::Cyan
    } else if kind == "assignment"@ {
        NodeColor::Magenta
    } else if kind == "comment"@ {
        NodeColor::DarkGray
    } else if kind == "string"@ {
        NodeColor::Green
    } else if kind == "identifier"@ {
        NodeColor::Yellow
    } else if kind == "number"@ {
        NodeColor::Blue
    } else if kind == "function"@ {
        NodeColor::Red
    } else if kind == "parameter"@ {
        NodeColor::Yellow
    } else if kind == "argument"@ {
        NodeColor::Cyan
    } else {
        NodeColor::White
    }
}

/// What the details panel shows of `node`.
pub open spec fn details_of(node: NodeShape, code: Seq<u8>) -> (Seq<char>, Span, Seq<u8>) {
    (node.kind, node.span, plain_text(span_text(code, node.span)))
}

} // verus!
