//! Syntax trees as plain values: nodes that own their children, and a tree that is known
//! to give every node an identity of its own.

use crate::lemmas::{
    fresh, ids_upto, lemma_fresh_concat, lemma_fresh_prefix, lemma_ids_upto, lemma_to_set_concat,
};
use crate::model::{all_ids, distinct_ids, NodeShape, Span};
use std::collections::HashSet;
use vstd::prelude::*;

verus! {

/// A node of a syntax tree: an identity, a kind tag, a span in the source, and the
/// children in source order.
#[derive(Debug)]
pub struct SyntaxNode {
    pub id: usize,
    pub kind: String,
    pub span: Span,
    pub children: Vec<SyntaxNode>,
}

/// The model of a node: its own fields, and the models of its children.
pub open spec fn shape_of(node: SyntaxNode) -> NodeShape
    decreases node,
{
    NodeShape {
        id: node.id,
        kind: node.kind@,
        span: node.span,
        children: Seq::new(
            node.children@.len(),
            |i: int|
                if 0 <= i < node.children@.len() {
                    shape_of(node.children@[i])
                } else {
                    arbitrary()
                },
        ),
    }
}

impl View for SyntaxNode {
    type V = NodeShape;

    open spec fn view(&self) -> NodeShape {
        shape_of(*self)
    }
}

/// The model of a child is the child of the model.
pub proof fn lemma_child_view(node: &SyntaxNode, k: int)
    requires
        0 <= k < node.children@.len(),
    ensures
        node@.children.len() == node.children@.len(),
        node@.children[k] == node.children@[k]@,
        node@.children[k].id == node.children@[k].id,
{
}

impl SyntaxNode {
    /// A node with the given identity, kind, span and children.
    pub fn new(id: usize, kind: &str, span: Span, children: Vec<SyntaxNode>) -> (node: SyntaxNode)
        ensures
            node@.id == id,
            node@.kind == kind@,
            node@.span == span,
            node@.children.len() == children@.len(),
            forall|i: int| 0 <= i < children@.len() ==> node@.children[i] == children@[i]@,
    {
        SyntaxNode { id, kind: kind.to_owned(), span, children }
    }

    /// The number of children.
    pub fn child_count(&self) -> (count: usize)
        ensures
            count == self@.children.len(),
    {
        self.children.len()
    }
}

/// Adds the identities of the subtree of `node` to `seen`, and says whether all of them
/// were new. Where one was not, `seen` is left with some of them added.
fn register(node: &SyntaxNode, seen: &mut HashSet<usize>) -> (new: bool)
    ensures
        new <==> fresh(all_ids(node@), old(seen)@),
        new ==> final(seen)@ == old(seen)@.union(all_ids(node@).to_set()),
    decreases node,
{
    broadcast use vstd::std_specs::hash::group_hash_axioms;

    let ghost before = seen@;
    proof {
        lemma_ids_upto(node@, Set::empty(), 0);
        assert(all_ids(node@)[0] == node.id);
    }
    if seen.contains(&node.id) {
        return false;
    }
    seen.insert(node.id);
    proof {
        assert(ids_upto(node@, Set::empty(), 0) =~= seq![node.id]);
        assert(seen@ =~= before.union(ids_upto(node@, Set::empty(), 0).to_set()));
    }
    let mut i: usize = 0;
    while i < node.children.len()
        invariant
            i <= node.children.len(),
            before == old(seen)@,
            fresh(ids_upto(node@, Set::empty(), i as nat), before),
            seen@ == before.union(ids_upto(node@, Set::empty(), i as nat).to_set()),
        decreases node.children.len() - i,
    {
        let ghost done = ids_upto(node@, Set::empty(), i as nat);
        let ghost own = all_ids(node.children[i as int]@);
        proof {
            lemma_ids_upto(node@, Set::empty(), i as nat);
            lemma_ids_upto(node@, Set::empty(), (i + 1) as nat);
            lemma_fresh_concat(done, own, before);
            lemma_to_set_concat(done, own);
        }
        if !register(&node.children[i], seen) {
            proof {
                if fresh(all_ids(node@), before) {
                    lemma_fresh_prefix(all_ids(node@), (done + own).len() as int, before);
                    assert(all_ids(node@).subrange(0, (done + own).len() as int) =~= done + own);
                }
            }
            return false;
        }
        proof {
            assert(seen@ =~= before.union((done + own).to_set()));
        }
        i = i + 1;
    }
    proof {
        lemma_ids_upto(node@, Set::empty(), i as nat);
    }
    true
}

/// A syntax tree: a root node under which no two nodes share an identity.
#[derive(Debug)]
pub struct SyntaxTree {
    root: SyntaxNode,
}

impl View for SyntaxTree {
    type V = NodeShape;

    closed spec fn view(&self) -> NodeShape {
        self.root@
    }
}

impl SyntaxTree {
    #[verifier::type_invariant]
    spec fn inv(self) -> bool {
        distinct_ids(self.root@) && all_ids(self.root@).len() <= usize::MAX
    }

    /// The tree under `root`, where no two of its nodes share an identity.
    pub fn new(root: SyntaxNode) -> (tree: Option<SyntaxTree>)
        ensures
            tree is Some <==> distinct_ids(root@),
            tree matches Some(t) ==> t@ == root@,
    {
        broadcast use vstd::std_specs::hash::group_hash_axioms;

        let mut seen: HashSet<usize> = HashSet::new();
        if register(&root, &mut seen) {
            let count = seen.len();
            proof {
                assert(seen@ =~= all_ids(root@).to_set());
                all_ids(root@).unique_seq_to_set();
            }
            Some(SyntaxTree { root })
        } else {
            None
        }
    }

    /// The root node. Its subtree has distinct identities, and fewer nodes than `usize`
    /// can count.
    pub fn root(&self) -> (root: &SyntaxNode)
        ensures
            root@ == self@,
            distinct_ids(self@),
            all_ids(self@).len() <= usize::MAX,
    {
        proof {
            use_type_invariant(self);
        }
        &self.root
    }
}

} // verus!
