//! Handles: a shared reference to a tree together with the identity of one of its nodes.
//!
//! A handle holds no node. It finds its node again, by identity, each time one is asked
//! for, so it can be stored and copied freely.

use crate::lemmas::{
    lemma_find_path_complete, lemma_find_path_from, lemma_find_path_valid, lemma_path_drop_last,
    lemma_path_push,
};
use crate::model::{
    all_ids, child_id, distinct_ids, find_path, find_path_from, lookup, next_sibling_id, node_at,
    parent_id, prev_sibling_id, NodeShape,
};
use crate::tree::{lemma_child_view, SyntaxNode, SyntaxTree};
use std::rc::Rc;
use vstd::prelude::*;

verus! {

/// `Rc::clone`: another reference to the same tree. The contract says that the new
/// reference points to an equal value, which is what sharing a reference-counted value
/// means.
#[verifier::external_body]
pub(crate) fn share(tree: &Rc<SyntaxTree>) -> (shared: Rc<SyntaxTree>)
    ensures
        shared == *tree,
{
    Rc::clone(tree)
}

/// The parent of the first node below `node`, in pre-order, that has identity `id`, and
/// the index of that node among the parent's children.
fn find_parent<'a>(id: usize, node: &'a SyntaxNode) -> (found: Option<(&'a SyntaxNode, usize)>)
    ensures
        match find_path_from(node@.children, 0, id) {
            Some(path) => found matches Some((parent, index)) && parent@ == node_at(
                node@,
                path.drop_last(),
            ) && index == path.last(),
            None => found is None,
        },
    decreases node,
{
    let mut i: usize = 0;
    while i < node.children.len()
        invariant
            i <= node.children.len(),
            find_path_from(node@.children, 0, id) == find_path_from(node@.children, i as nat, id),
        decreases node.children.len() - i,
    {
        let child = &node.children[i];
        proof {
            lemma_child_view(node, i as int);
            assert(find_path(child@, id) is Some <==> child.id == id || find_path_from(
                child@.children,
                0,
                id,
            ) is Some);
        }
        if child.id == id {
            proof {
                let path = seq![i as int] + Seq::<int>::empty();
                assert(path.drop_last() =~= Seq::<int>::empty());
                assert(find_path(child@, id) == Some(Seq::<int>::empty()));
            }
            return Some((node, i));
        }
        let below = find_parent(id, child);
        if below.is_some() {
            proof {
                lemma_find_path_from(child@.children, 0, id);
                let rest = find_path_from(child@.children, 0, id)->0;
                let path = seq![i as int] + rest;
                let upper = path.drop_last();
                assert(upper =~= seq![i as int] + rest.drop_last());
                assert(upper.drop_first() =~= rest.drop_last());
                assert(node_at(node@, upper) == node_at(node@.children[upper[0]], upper.drop_first()));
            }
            return below;
        }
        i = i + 1;
    }
    None
}

/// A reference to one node of a tree: the tree, shared, and the identity of the node.
#[derive(Debug)]
pub struct NodeHandle {
    id: usize,
    tree: Rc<SyntaxTree>,
}

impl NodeHandle {
    /// The identity of the node that the handle refers to.
    pub closed spec fn spec_id(&self) -> usize {
        self.id
    }

    /// The root of the tree that the handle refers into.
    pub closed spec fn root(&self) -> NodeShape {
        self.tree@
    }

    /// The handle resolves: its tree has distinct identities and holds a node with the
    /// identity of the handle. Every handle that this library hands out is such.
    pub open spec fn wf(&self) -> bool {
        &&& distinct_ids(self.root())
        &&& all_ids(self.root()).len() <= usize::MAX
        &&& find_path(self.root(), self.id()) is Some
    }

    /// The node that the handle refers to.
    pub open spec fn target(&self) -> NodeShape {
        lookup(self.root(), self.id())->0
    }

    #[verifier::type_invariant]
    spec fn inv(self) -> bool {
        self.wf()
    }

    /// A handle to the root of `tree`.
    pub fn new(tree: Rc<SyntaxTree>) -> (handle: NodeHandle)
        ensures
            handle.wf(),
            handle.root() == tree@,
            handle.id() == tree@.id,
    {
        let id = tree.root().id;
        NodeHandle { id, tree }
    }

    /// The identity of the node that the handle refers to.
    #[verifier::when_used_as_spec(spec_id)]
    pub fn id(&self) -> (id: usize)
        ensures
            id == self.id(),
            self.wf(),
    {
        proof {
            use_type_invariant(self);
        }
        self.id
    }

    /// The tree that the handle refers into.
    pub fn tree(&self) -> (tree: &Rc<SyntaxTree>)
        ensures
            tree@ == self.root(),
    {
        &self.tree
    }

    /// A second handle to the same node.
    pub fn duplicate(&self) -> (handle: NodeHandle)
        ensures
            handle.wf(),
            handle.root() == self.root(),
            handle.id() == self.id(),
    {
        proof {
            use_type_invariant(self);
        }
        NodeHandle { id: self.id, tree: share(&self.tree) }
    }

    /// The node that the handle refers to. The search for it cannot fail.
    pub fn node(&self) -> (node: &SyntaxNode)
        ensures
            lookup(self.root(), self.id()) == Some(node@),
    {
        proof {
            use_type_invariant(self);
        }
        match Self::find_node_by_id(self.id, self.tree.root()) {
            Some(node) => node,
            None => vstd::pervasive::unreached(),
        }
    }

    /// The parent of the node; `None` exactly for the root.
    pub fn parent(&self) -> (parent: Option<NodeHandle>)
        ensures
            parent is None <==> self.id() == self.root().id,
            match parent {
                Some(handle) => handle.wf() && handle.root() == self.root() && parent_id(
                    self.root(),
                    self.id(),
                ) == Some(handle.id()),
                None => parent_id(self.root(), self.id()) is None,
            },
    {
        proof {
            use_type_invariant(self);
        }
        let root = self.tree.root();
        if root.id == self.id {
            return None;
        }
        match find_parent(self.id, root) {
            Some((parent, _)) => {
                proof {
                    let path = find_path(root@, self.id)->0;
                    lemma_find_path_valid(root@, self.id);
                    lemma_path_drop_last(root@, path);
                    lemma_find_path_complete(root@, path.drop_last());
                }
                Some(NodeHandle { id: parent.id, tree: share(&self.tree) })
            },
            None => vstd::pervasive::unreached(),
        }
    }

    /// Child `index` of the node; `None` exactly where the node has no such child.
    pub fn child(&self, index: usize) -> (child: Option<NodeHandle>)
        ensures
            child is Some <==> index < self.target().children.len(),
            match child {
                Some(handle) => handle.wf() && handle.root() == self.root() && child_id(
                    self.root(),
                    self.id(),
                    index as int,
                ) == Some(handle.id()),
                None => child_id(self.root(), self.id(), index as int) is None,
            },
    {
        proof {
            use_type_invariant(self);
        }
        let node = self.node();
        if index < node.children.len() {
            proof {
                let root = self.root();
                let path = find_path(root, self.id)->0;
                lemma_child_view(node, index as int);
                lemma_find_path_valid(root, self.id);
                lemma_path_push(root, path, index as int);
                lemma_find_path_complete(root, path.push(index as int));
            }
            Some(NodeHandle { id: node.children[index].id, tree: share(&self.tree) })
        } else {
            None
        }
    }

    /// The sibling just before the node; `None` for a first child and for the root.
    pub fn prev_sibling(&self) -> (sibling: Option<NodeHandle>)
        ensures
            match sibling {
                Some(handle) => handle.wf() && handle.root() == self.root() && prev_sibling_id(
                    self.root(),
                    self.id(),
                ) == Some(handle.id()),
                None => prev_sibling_id(self.root(), self.id()) is None,
            },
    {
        proof {
            use_type_invariant(self);
        }
        let root = self.tree.root();
        if root.id == self.id {
            return None;
        }
        match find_parent(self.id, root) {
            Some((parent, index)) => {
                if index > 0 {
                    proof {
                        let path = find_path(root@, self.id)->0;
                        lemma_find_path_valid(root@, self.id);
                        lemma_path_drop_last(root@, path);
                        lemma_child_view(parent, index - 1);
                        lemma_path_push(root@, path.drop_last(), index - 1);
                        lemma_find_path_complete(root@, path.drop_last().push(index - 1));
                    }
                    Some(NodeHandle { id: parent.children[index - 1].id, tree: share(&self.tree) })
                } else {
                    None
                }
            },
            None => vstd::pervasive::unreached(),
        }
    }

    /// The sibling just after the node; `None` for a last child and for the root.
    pub fn next_sibling(&self) -> (sibling: Option<NodeHandle>)
        ensures
            match sibling {
                Some(handle) => handle.wf() && handle.root() == self.root() && next_sibling_id(
                    self.root(),
                    self.id(),
                ) == Some(handle.id()),
                None => next_sibling_id(self.root(), self.id()) is None,
            },
    {
        proof {
            use_type_invariant(self);
        }
        let root = self.tree.root();
        if root.id == self.id {
            return None;
        }
        match find_parent(self.id, root) {
            Some((parent, index)) => {
                proof {
                    let path = find_path(root@, self.id)->0;
                    lemma_find_path_valid(root@, self.id);
                    lemma_path_drop_last(root@, path);
                }
                if index < parent.children.len() - 1 {
                    proof {
                        let path = find_path(root@, self.id)->0;
                        lemma_child_view(parent, index + 1);
                        lemma_path_push(root@, path.drop_last(), index + 1);
                        lemma_find_path_complete(root@, path.drop_last().push(index + 1));
                    }
                    Some(NodeHandle { id: parent.children[index + 1].id, tree: share(&self.tree) })
                } else {
                    None
                }
            },
            None => vstd::pervasive::unreached(),
        }
    }

    /// The first node, in pre-order, of the subtree of `node` that has identity `id`.
    pub fn find_node_by_id<'a>(id: usize, node: &'a SyntaxNode) -> (found: Option<&'a SyntaxNode>)
        ensures
            match lookup(node@, id) {
                Some(shape) => found matches Some(n) && n@ == shape,
                None => found is None,
            },
        decreases node,
    {
        if node.id == id {
            return Some(node);
        }
        let mut i: usize = 0;
        while i < node.children.len()
            invariant
                i <= node.children.len(),
                node.id != id,
                find_path_from(node@.children, 0, id) == find_path_from(
                    node@.children,
                    i as nat,
                    id,
                ),
            decreases node.children.len() - i,
        {
            let found = Self::find_node_by_id(id, &node.children[i]);
            if found.is_some() {
                proof {
                    let rest = find_path(node@.children[i as int], id)->0;
                    let path = seq![i as int] + rest;
                    assert(path.drop_first() =~= rest);
                    assert(node_at(node@, path) == node_at(node@.children[path[0]], path.drop_first()));
                }
                return found;
            }
            i = i + 1;
        }
        None
    }
}

} // verus!
