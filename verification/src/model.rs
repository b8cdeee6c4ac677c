//! The mathematical model of a syntax tree and of its flattened, fold-aware display order.
//!
//! Nothing here runs: the contracts elsewhere in the crate are stated over these
//! definitions.

use vstd::prelude::*;

verus! {

/// Where a node lies in the source: a byte range and the two positions that bound it.
#[derive(Clone, Copy, Debug, PartialEq, Eq, Structural)]
pub struct Span {
    pub start_byte: usize,
    pub end_byte: usize,
    pub start_row: usize,
    pub start_column: usize,
    pub end_row: usize,
    pub end_column: usize,
}

/// A syntax node as a mathematical value: identity, kind tag, span, and children in
/// source order.
pub struct NodeShape {
    pub id: usize,
    pub kind: Seq<char>,
    pub span: Span,
    pub children: Seq<NodeShape>,
}

/// The pre-order walk of `node` that does not descend below a node whose identity is in
/// `hidden`. With an empty `hidden` this lists every node of the subtree.
pub open spec fn walk(node: NodeShape, hidden: Set<usize>) -> Seq<NodeShape>
    decreases node, 0nat,
{
    seq![node] + if hidden.contains(node.id) {
        Seq::empty()
    } else {
        child_walk(node.children, node.children.len(), hidden)
    }
}

/// The walks of the first `upto` nodes of `children`, one after the other.
pub open spec fn child_walk(children: Seq<NodeShape>, upto: nat, hidden: Set<usize>) -> Seq<
    NodeShape,
>
    decreases children, upto,
{
    if upto == 0 || upto > children.len() {
        Seq::empty()
    } else {
        child_walk(children, (upto - 1) as nat, hidden) + walk(children[upto - 1], hidden)
    }
}

/// The depth of each node of `walk(node, hidden)`, where `node` itself lies at `depth`.
pub open spec fn depths(node: NodeShape, hidden: Set<usize>, depth: nat) -> Seq<nat>
    decreases node, 0nat,
{
    seq![depth] + if hidden.contains(node.id) {
        Seq::empty()
    } else {
        child_depths(node.children, node.children.len(), hidden, depth + 1)
    }
}

/// The depth of each node of `child_walk(children, upto, hidden)`, where the children lie
/// at `depth`.
pub open spec fn child_depths(
    children: Seq<NodeShape>,
    upto: nat,
    hidden: Set<usize>,
    depth: nat,
) -> Seq<nat>
    decreases children, upto,
{
    if upto == 0 || upto > children.len() {
        Seq::empty()
    } else {
        child_depths(children, (upto - 1) as nat, hidden, depth) + depths(
            children[upto - 1],
            hidden,
            depth,
        )
    }
}

/// The identities of `nodes`, in order.
pub open spec fn ids(nodes: Seq<NodeShape>) -> Seq<usize> {
    nodes.map_values(|n: NodeShape| n.id)
}

/// The identities of all nodes of the subtree, in pre-order.
pub open spec fn all_ids(node: NodeShape) -> Seq<usize> {
    ids(walk(node, Set::empty()))
}

/// No two nodes of the subtree share an identity.
pub open spec fn distinct_ids(node: NodeShape) -> bool {
    all_ids(node).no_duplicates()
}

/// The identities of the visible rows, in display order.
pub open spec fn visible_ids(root: NodeShape, hidden: Set<usize>) -> Seq<usize> {
    ids(walk(root, hidden))
}

/// How many elements of `s` come before the first `x`; all of them if `x` does not occur.
pub open spec fn first_index(s: Seq<usize>, x: usize) -> nat
    decreases s.len(),
{
    if s.len() == 0 || s[0] == x {
        0
    } else {
        1 + first_index(s.drop_first(), x)
    }
}

/// The row of the node with identity `id` in the display order of `root` under `hidden`.
/// A node that is not displayed gets the number of rows.
pub open spec fn position(root: NodeShape, hidden: Set<usize>, id: usize) -> nat {
    first_index(visible_ids(root, hidden), id)
}

/// `path` leads from `node` down to one of the nodes of its subtree: each step is the
/// index of a child.
pub open spec fn valid_path(node: NodeShape, path: Seq<int>) -> bool
    decreases path.len(),
{
    path.len() == 0 || (0 <= path[0] < node.children.len() && valid_path(
        node.children[path[0]],
        path.drop_first(),
    ))
}

/// The node that `path` leads to from `node`.
pub open spec fn node_at(node: NodeShape, path: Seq<int>) -> NodeShape
    decreases path.len(),
{
    if path.len() == 0 {
        node
    } else {
        node_at(node.children[path[0]], path.drop_first())
    }
}

/// The path to the first node, in pre-order, of the subtree of `node` that has identity
/// `id`.
pub open spec fn find_path(node: NodeShape, id: usize) -> Option<Seq<int>>
    decreases node, 0nat,
{
    if node.id == id {
        Some(Seq::empty())
    } else {
        find_path_from(node.children, 0, id)
    }
}

/// The path, starting with the index of a child, to the first node with identity `id`
/// that lies in the subtree of one of `children[from..]`.
pub open spec fn find_path_from(children: Seq<NodeShape>, from: nat, id: usize) -> Option<
    Seq<int>,
>
    decreases children, children.len() - from,
{
    if from >= children.len() {
        None
    } else {
        match find_path(children[from as int], id) {
            Some(rest) => Some(seq![from as int] + rest),
            None => find_path_from(children, from + 1, id),
        }
    }
}

/// The node with identity `id`, where the tree has one.
pub open spec fn lookup(root: NodeShape, id: usize) -> Option<NodeShape> {
    match find_path(root, id) {
        Some(path) => Some(node_at(root, path)),
        None => None,
    }
}

/// The parent of the node with identity `id`, together with the index of that node among
/// the parent's children. `None` for the root and for an identity that does not occur.
pub open spec fn parent_of(root: NodeShape, id: usize) -> Option<(NodeShape, int)> {
    match find_path(root, id) {
        Some(path) => if path.len() > 0 {
            Some((node_at(root, path.drop_last()), path.last()))
        } else {
            None
        },
        None => None,
    }
}

/// The identity of the parent of the node with identity `id`.
pub open spec fn parent_id(root: NodeShape, id: usize) -> Option<usize> {
    match parent_of(root, id) {
        Some((parent, _)) => Some(parent.id),
        None => None,
    }
}

/// The identity of child `index` of the node with identity `id`.
pub open spec fn child_id(root: NodeShape, id: usize, index: int) -> Option<usize> {
    match lookup(root, id) {
        Some(node) => if 0 <= index < node.children.len() {
            Some(node.children[index].id)
        } else {
            None
        },
        None => None,
    }
}

/// The identity of the sibling just before the node with identity `id`.
pub open spec fn prev_sibling_id(root: NodeShape, id: usize) -> Option<usize> {
    match parent_of(root, id) {
        Some((parent, index)) => if index > 0 {
            Some(parent.children[index - 1].id)
        } else {
            None
        },
        None => None,
    }
}

/// The identity of the sibling just after the node with identity `id`.
pub open spec fn next_sibling_id(root: NodeShape, id: usize) -> Option<usize> {
    match parent_of(root, id) {
        Some((parent, index)) => if index + 1 < parent.children.len() {
            Some(parent.children[index + 1].id)
        } else {
            None
        },
        None => None,
    }
}

/// The node with identity `id` is displayed: none of the nodes above it is in `hidden`.
pub open spec fn shown(root: NodeShape, hidden: Set<usize>, id: usize) -> bool {
    match find_path(root, id) {
        Some(path) => forall|k: int|
            0 <= k < path.len() ==> !hidden.contains(#[trigger] node_at(root, path.take(k)).id),
        None => false,
    }
}

/// The rows of a terminal that are kept for borders and help.
pub const RESERVED_ROWS: u16 = 2;

/// The rows left for the tree on a terminal `height` rows high.
pub open spec fn display_rows(height: u16) -> nat {
    if height >= RESERVED_ROWS {
        (height - RESERVED_ROWS) as nat
    } else {
        0
    }
}

/// The scroll offset that shows row `position` in a window of `rows` rows, moved from
/// `offset` by no more than it takes.
pub open spec fn scrolled(offset: nat, position: nat, rows: nat) -> nat {
    if position < offset {
        position
    } else if position >= offset + rows {
        (position - rows + 1) as nat
    } else {
        offset
    }
}

} // verus!
