//! Facts about the model: how walks decompose, how paths relate to walks, and what
//! distinct identities give.

use crate::model::{
    all_ids, child_depths, child_walk, depths, distinct_ids, find_path, find_path_from,
    first_index, ids, lookup, node_at, parent_of, shown, valid_path, visible_ids, walk, NodeShape,
};
use vstd::prelude::*;

verus! {

/// `s` repeats nothing and holds nothing of `seen`.
pub open spec fn fresh(s: Seq<usize>, seen: Set<usize>) -> bool {
    &&& s.no_duplicates()
    &&& forall|i: int| 0 <= i < s.len() ==> !seen.contains(#[trigger] s[i])
}

/// A concatenation is fresh exactly when its first part is and its second part is fresh
/// once the first part has been seen.
pub proof fn lemma_fresh_concat(a: Seq<usize>, b: Seq<usize>, seen: Set<usize>)
    ensures
        fresh(a + b, seen) <==> fresh(a, seen) && fresh(b, seen.union(a.to_set())),
{
    let ab = a + b;
    let seen_a = seen.union(a.to_set());
    if fresh(ab, seen) {
        assert forall|i: int, j: int| 0 <= i < a.len() && 0 <= j < a.len() && i != j implies a[i]
            != a[j] by {
            assert(ab[i] == a[i] && ab[j] == a[j]);
        }
        assert forall|i: int| 0 <= i < a.len() implies !seen.contains(#[trigger] a[i]) by {
            assert(ab[i] == a[i]);
        }
        assert forall|i: int, j: int| 0 <= i < b.len() && 0 <= j < b.len() && i != j implies b[i]
            != b[j] by {
            assert(ab[a.len() + i] == b[i] && ab[a.len() + j] == b[j]);
        }
        assert forall|i: int| 0 <= i < b.len() implies !seen_a.contains(#[trigger] b[i]) by {
            assert(ab[a.len() + i] == b[i]);
            if a.to_set().contains(b[i]) {
                let k = choose|k: int| 0 <= k < a.len() && a[k] == b[i];
                assert(ab[k] == a[k]);
            }
        }
    }
    if fresh(a, seen) && fresh(b, seen_a) {
        assert forall|i: int, j: int| 0 <= i < ab.len() && 0 <= j < ab.len() && i != j implies ab[i]
            != ab[j] by {
            if i < a.len() && j >= a.len() {
                assert(ab[j] == b[j - a.len()]);
                assert(a.to_set().contains(a[i]));
            } else if j < a.len() && i >= a.len() {
                assert(ab[i] == b[i - a.len()]);
                assert(a.to_set().contains(a[j]));
            } else if i >= a.len() {
                assert(ab[i] == b[i - a.len()] && ab[j] == b[j - a.len()]);
            }
        }
        assert forall|i: int| 0 <= i < ab.len() implies !seen.contains(#[trigger] ab[i]) by {
            if i >= a.len() {
                assert(ab[i] == b[i - a.len()]);
            }
        }
    }
}

/// What comes before the first `x` in a concatenation.
pub proof fn lemma_first_index_concat(a: Seq<usize>, b: Seq<usize>, x: usize)
    ensures
        first_index(a + b, x) == if a.contains(x) {
            first_index(a, x)
        } else {
            a.len() + first_index(b, x)
        },
    decreases a.len(),
{
    if a.len() == 0 {
        assert(a + b =~= b);
    } else {
        assert((a + b)[0] == a[0]);
        assert((a + b).drop_first() =~= a.drop_first() + b);
        if a[0] == x {
        } else {
            lemma_first_index_concat(a.drop_first(), b, x);
            if a.contains(x) {
                let k = choose|k: int| 0 <= k < a.len() && a[k] == x;
                assert(a.drop_first()[k - 1] == x);
            }
            if a.drop_first().contains(x) {
                let k = choose|k: int| 0 <= k < a.drop_first().len() && a.drop_first()[k] == x;
                assert(a[k + 1] == x);
            }
        }
    }
}

/// `first_index` points at the first occurrence, or past the end where there is none.
pub proof fn lemma_first_index(s: Seq<usize>, x: usize)
    ensures
        first_index(s, x) <= s.len(),
        first_index(s, x) < s.len() <==> s.contains(x),
        first_index(s, x) < s.len() ==> s[first_index(s, x) as int] == x,
        forall|j: int| 0 <= j < first_index(s, x) ==> s[j] != x,
    decreases s.len(),
{
    if s.len() == 0 || s[0] == x {
    } else {
        let rest = s.drop_first();
        lemma_first_index(rest, x);
        if s.contains(x) {
            let k = choose|k: int| 0 <= k < s.len() && s[k] == x;
            assert(rest[k - 1] == x);
        }
        if first_index(rest, x) < rest.len() {
            assert(s[first_index(rest, x) as int + 1] == x);
        }
        assert forall|j: int| 0 <= j < first_index(s, x) implies s[j] != x by {
            if j > 0 {
                assert(rest[j - 1] == s[j]);
            }
        }
    }
}

/// In a sequence without repetitions every element is its own first occurrence.
pub proof fn lemma_first_index_of_element(s: Seq<usize>, i: int)
    requires
        s.no_duplicates(),
        0 <= i < s.len(),
    ensures
        first_index(s, s[i]) == i,
{
    lemma_first_index(s, s[i]);
}

/// A beginning of a fresh sequence is fresh.
pub proof fn lemma_fresh_prefix(s: Seq<usize>, k: int, seen: Set<usize>)
    requires
        fresh(s, seen),
        0 <= k <= s.len(),
    ensures
        fresh(s.subrange(0, k), seen),
{
    let t = s.subrange(0, k);
    assert forall|i: int, j: int| 0 <= i < t.len() && 0 <= j < t.len() && i != j implies t[i]
        != t[j] by {
        assert(t[i] == s[i] && t[j] == s[j]);
    }
    assert forall|i: int| 0 <= i < t.len() implies !seen.contains(#[trigger] t[i]) by {
        assert(t[i] == s[i]);
    }
}

/// The elements of a concatenation are those of its parts.
pub proof fn lemma_to_set_concat(a: Seq<usize>, b: Seq<usize>)
    ensures
        (a + b).to_set() == a.to_set().union(b.to_set()),
{
    let ab = a + b;
    assert forall|x: usize| ab.to_set().contains(x) <==> a.to_set().union(b.to_set()).contains(
        x,
    ) by {
        if ab.contains(x) {
            let k = choose|k: int| 0 <= k < ab.len() && ab[k] == x;
            if k < a.len() {
                assert(a[k] == x);
            } else {
                assert(b[k - a.len()] == x);
            }
        }
        if a.contains(x) {
            let k = choose|k: int| 0 <= k < a.len() && a[k] == x;
            assert(ab[k] == x);
        }
        if b.contains(x) {
            let k = choose|k: int| 0 <= k < b.len() && b[k] == x;
            assert(ab[a.len() + k] == x);
        }
    }
    assert(ab.to_set() =~= a.to_set().union(b.to_set()));
}

/// Identities are taken element by element.
pub proof fn lemma_ids_concat(a: Seq<NodeShape>, b: Seq<NodeShape>)
    ensures
        ids(a + b) == ids(a) + ids(b),
{
    assert(ids(a + b) =~= ids(a) + ids(b));
}

/// The identities of the walk of `node` as far as its first `upto` children.
pub open spec fn ids_upto(node: NodeShape, hidden: Set<usize>, upto: nat) -> Seq<usize> {
    seq![node.id] + ids(child_walk(node.children, upto, hidden))
}

/// The identities of a walk begin with that of the root and go on child by child.
pub proof fn lemma_ids_upto(node: NodeShape, hidden: Set<usize>, upto: nat)
    requires
        !hidden.contains(node.id),
        upto <= node.children.len(),
    ensures
        ids_upto(node, hidden, upto).is_prefix_of(ids(walk(node, hidden))),
        ids_upto(node, hidden, node.children.len()) == ids(walk(node, hidden)),
        ids_upto(node, hidden, upto).len() == 1 + child_walk(node.children, upto, hidden).len(),
        upto < node.children.len() ==> ids_upto(node, hidden, upto + 1) == ids_upto(
            node,
            hidden,
            upto,
        ) + ids(walk(node.children[upto as int], hidden)),
{
    let n = node.children.len();
    let whole = ids(walk(node, hidden));
    lemma_ids_concat(seq![node], child_walk(node.children, n, hidden));
    assert(ids(seq![node]) =~= seq![node.id]);
    lemma_child_walk_prefix(node.children, upto, n, hidden);
    assert(ids_upto(node, hidden, upto) =~= whole.subrange(
        0,
        ids_upto(node, hidden, upto).len() as int,
    ));
    if upto < n {
        lemma_ids_concat(
            child_walk(node.children, upto, hidden),
            walk(node.children[upto as int], hidden),
        );
        assert(ids_upto(node, hidden, upto + 1) =~= ids_upto(node, hidden, upto) + ids(
            walk(node.children[upto as int], hidden),
        ));
    }
}

/// The first occurrence in a sequence is the first occurrence in any beginning of it that
/// holds one.
pub proof fn lemma_first_index_prefix(s: Seq<usize>, k: int, x: usize)
    requires
        0 <= k <= s.len(),
        s.subrange(0, k).contains(x),
    ensures
        s.contains(x),
        first_index(s, x) == first_index(s.subrange(0, k), x),
{
    assert(s =~= s.subrange(0, k) + s.subrange(k, s.len() as int));
    lemma_first_index_concat(s.subrange(0, k), s.subrange(k, s.len() as int), x);
    let i = choose|i: int| 0 <= i < k && s.subrange(0, k)[i] == x;
    assert(s[i] == x);
}

/// A walk that skips hidden subtrees is no longer than the walk of everything.
pub proof fn lemma_walk_len(node: NodeShape, hidden: Set<usize>)
    ensures
        walk(node, hidden).len() <= walk(node, Set::empty()).len(),
    decreases node, 0nat,
{
    lemma_child_walk_len(node.children, node.children.len(), hidden);
}

/// The same, for the walks of the first `upto` children.
pub proof fn lemma_child_walk_len(children: Seq<NodeShape>, upto: nat, hidden: Set<usize>)
    ensures
        child_walk(children, upto, hidden).len() <= child_walk(children, upto, Set::empty()).len(),
    decreases children, upto,
{
    if 0 < upto <= children.len() {
        lemma_child_walk_len(children, (upto - 1) as nat, hidden);
        lemma_walk_len(children[upto - 1], hidden);
    }
}

/// Under distinct identities, what a fold-aware walk shows is shown once, and is part of
/// the tree.
pub proof fn lemma_visible_distinct(node: NodeShape, hidden: Set<usize>)
    requires
        distinct_ids(node),
    ensures
        ids(walk(node, hidden)).no_duplicates(),
        forall|x: usize| #[trigger]
            ids(walk(node, hidden)).contains(x) ==> all_ids(node).contains(x),
    decreases node, 0nat,
{
    let none = Set::<usize>::empty();
    let n = node.children.len();
    lemma_ids_upto(node, none, n);
    lemma_fresh_concat(seq![node.id], ids(child_walk(node.children, n, none)), none);
    assert(all_ids(node)[0] == node.id);
    if hidden.contains(node.id) {
        assert(ids(walk(node, hidden)) =~= seq![node.id]);
        assert forall|x: usize| ids(walk(node, hidden)).contains(x) implies all_ids(node).contains(
            x,
        ) by {}
    } else {
        lemma_ids_upto(node, hidden, n);
        lemma_child_visible_distinct(node.children, n, hidden);
        let shown = ids(child_walk(node.children, n, hidden));
        let all = ids(child_walk(node.children, n, none));
        assert(seq![node.id].to_set().contains(node.id));
        assert(!all.contains(node.id));
        assert forall|i: int| 0 <= i < shown.len() implies !none.union(
            seq![node.id].to_set(),
        ).contains(#[trigger] shown[i]) by {
            assert(shown.contains(shown[i]));
            if seq![node.id].contains(shown[i]) {
                assert(all.contains(node.id));
            }
        }
        lemma_fresh_concat(seq![node.id], shown, none);
        assert forall|x: usize| ids(walk(node, hidden)).contains(x) implies all_ids(node).contains(
            x,
        ) by {
            let i = choose|i: int| 0 <= i < ids(walk(node, hidden)).len() && ids(
                walk(node, hidden),
            )[i] == x;
            if i > 0 {
                assert(shown[i - 1] == x);
                assert(shown.contains(x));
                let j = choose|j: int| 0 <= j < all.len() && all[j] == x;
                assert(all_ids(node)[j + 1] == x);
            }
        }
    }
}

/// The same, for the walks of the first `upto` children.
pub proof fn lemma_child_visible_distinct(children: Seq<NodeShape>, upto: nat, hidden: Set<usize>)
    requires
        upto <= children.len(),
        ids(child_walk(children, upto, Set::empty())).no_duplicates(),
    ensures
        ids(child_walk(children, upto, hidden)).no_duplicates(),
        forall|x: usize| #[trigger]
            ids(child_walk(children, upto, hidden)).contains(x) ==> ids(
                child_walk(children, upto, Set::empty()),
            ).contains(x),
    decreases children, upto,
{
    let none = Set::<usize>::empty();
    if upto > 0 {
        let before_all = ids(child_walk(children, (upto - 1) as nat, none));
        let last_all = all_ids(children[upto - 1]);
        let before = ids(child_walk(children, (upto - 1) as nat, hidden));
        let last = ids(walk(children[upto - 1], hidden));
        lemma_ids_concat(child_walk(children, (upto - 1) as nat, none), walk(children[upto - 1], none));
        lemma_ids_concat(
            child_walk(children, (upto - 1) as nat, hidden),
            walk(children[upto - 1], hidden),
        );
        lemma_fresh_concat(before_all, last_all, none);
        lemma_child_visible_distinct(children, (upto - 1) as nat, hidden);
        lemma_visible_distinct(children[upto - 1], hidden);
        assert forall|i: int| 0 <= i < last.len() implies !none.union(before.to_set()).contains(
            #[trigger] last[i],
        ) by {
            assert(last.contains(last[i]));
            if before.contains(last[i]) {
                let j = choose|j: int| 0 <= j < last_all.len() && last_all[j] == last[i];
                assert(before_all.to_set().contains(last_all[j]));
            }
        }
        lemma_fresh_concat(before, last, none);
        assert forall|x: usize| (before + last).contains(x) implies (before_all + last_all).contains(
            x,
        ) by {
            let i = choose|i: int| 0 <= i < (before + last).len() && (before + last)[i] == x;
            if i < before.len() {
                assert(before[i] == x);
                assert(before.contains(x));
                let j = choose|j: int| 0 <= j < before_all.len() && before_all[j] == x;
                assert((before_all + last_all)[j] == x);
            } else {
                assert(last[i - before.len()] == x);
                assert(last.contains(x));
                let j = choose|j: int| 0 <= j < last_all.len() && last_all[j] == x;
                assert((before_all + last_all)[before_all.len() + j] == x);
            }
        }
    }
}

/// A node is displayed where none of the nodes above it is hidden.
pub proof fn lemma_path_visible(node: NodeShape, path: Seq<int>, hidden: Set<usize>)
    requires
        valid_path(node, path),
        forall|k: int| 0 <= k < path.len() ==> !hidden.contains(#[trigger] node_at(node, path.take(k)).id),
    ensures
        ids(walk(node, hidden)).contains(node_at(node, path).id),
    decreases path.len(),
{
    if path.len() == 0 {
        assert(ids(walk(node, hidden))[0] == node.id);
    } else {
        let child = node.children[path[0]];
        let rest = path.drop_first();
        assert(path.take(0) =~= Seq::<int>::empty());
        assert(node_at(node, path.take(0)) == node);
        assert forall|k: int| 0 <= k < rest.len() implies !hidden.contains(
            #[trigger] node_at(child, rest.take(k)).id,
        ) by {
            let longer = path.take(k + 1);
            assert(longer.drop_first() =~= rest.take(k));
            assert(node_at(node, longer) == node_at(node.children[longer[0]], longer.drop_first()));
        }
        lemma_path_visible(child, rest, hidden);
        let target = node_at(node, path).id;
        let a = choose|a: int| 0 <= a < ids(walk(child, hidden)).len() && ids(walk(child, hidden))[a]
            == target;
        let g = lemma_child_in_walk(node, path[0], a, hidden);
        assert(ids(walk(node, hidden))[g] == target);
    }
}

/// The walk of the first `i` children begins the walk of the first `n`.
pub proof fn lemma_child_walk_prefix(
    children: Seq<NodeShape>,
    i: nat,
    n: nat,
    hidden: Set<usize>,
)
    requires
        i <= n <= children.len(),
    ensures
        child_walk(children, i, hidden).is_prefix_of(child_walk(children, n, hidden)),
    decreases n - i,
{
    if i < n {
        lemma_child_walk_prefix(children, i, (n - 1) as nat, hidden);
    }
}

/// The walk of child `k` lies inside the walk of the first `n` children, right after the
/// walk of the first `k`.
pub proof fn lemma_child_walk_segment(
    children: Seq<NodeShape>,
    k: int,
    n: nat,
    hidden: Set<usize>,
)
    requires
        0 <= k < n <= children.len(),
    ensures
        ({
            let all = child_walk(children, n, hidden);
            let before = child_walk(children, k as nat, hidden).len() as int;
            let own = walk(children[k], hidden);
            &&& before + own.len() <= all.len()
            &&& all.subrange(before, before + own.len()) == own
        }),
{
    lemma_child_walk_prefix(children, (k + 1) as nat, n, hidden);
    let all = child_walk(children, n, hidden);
    let upto = child_walk(children, (k + 1) as nat, hidden);
    let before = child_walk(children, k as nat, hidden).len() as int;
    let own = walk(children[k], hidden);
    assert(upto == child_walk(children, k as nat, hidden) + own);
    assert(all.subrange(before, before + own.len()) =~= own) by {
        assert forall|j: int| 0 <= j < own.len() implies all.subrange(before, before + own.len())[j] == own[j] by {
            assert(all.subrange(0, upto.len() as int)[before + j] == upto[before + j]);
        }
    }
}

/// The walks of two different children do not overlap inside the walk of all of them.
pub proof fn lemma_child_walk_order(children: Seq<NodeShape>, j: int, k: int, hidden: Set<usize>)
    requires
        0 <= j < k < children.len(),
    ensures
        child_walk(children, j as nat, hidden).len() + walk(children[j], hidden).len()
            <= child_walk(children, k as nat, hidden).len(),
{
    lemma_child_walk_prefix(children, (j + 1) as nat, k as nat, hidden);
}

/// Where element `a` of the walk of child `k` stands in the walk of `node`.
pub proof fn lemma_child_in_walk(node: NodeShape, k: int, a: int, hidden: Set<usize>) -> (g: int)
    requires
        !hidden.contains(node.id),
        0 <= k < node.children.len(),
        0 <= a < walk(node.children[k], hidden).len(),
    ensures
        g == 1 + child_walk(node.children, k as nat, hidden).len() + a,
        0 <= g < walk(node, hidden).len(),
        walk(node, hidden)[g] == walk(node.children[k], hidden)[a],
{
    let children = node.children;
    lemma_child_walk_segment(children, k, children.len(), hidden);
    let all = child_walk(children, children.len(), hidden);
    let before = child_walk(children, k as nat, hidden).len() as int;
    let own = walk(children[k], hidden);
    assert(all.subrange(before, before + own.len())[a] == all[before + a]);
    1 + before + a
}

/// A node whose identities are distinct has children whose identities are distinct.
pub proof fn lemma_child_distinct(node: NodeShape, k: int)
    requires
        distinct_ids(node),
        0 <= k < node.children.len(),
    ensures
        distinct_ids(node.children[k]),
{
    let hidden = Set::<usize>::empty();
    let own = all_ids(node.children[k]);
    assert forall|i: int, j: int| 0 <= i < own.len() && 0 <= j < own.len() && i != j implies own[i]
        != own[j] by {
        let gi = lemma_child_in_walk(node, k, i, hidden);
        let gj = lemma_child_in_walk(node, k, j, hidden);
        assert(all_ids(node)[gi] == own[i]);
        assert(all_ids(node)[gj] == own[j]);
    }
}

/// The node that a valid path leads to occurs in the walk of the whole subtree; it
/// occurs first only for the empty path.
pub proof fn lemma_path_in_walk(node: NodeShape, path: Seq<int>) -> (g: int)
    requires
        valid_path(node, path),
    ensures
        0 <= g < walk(node, Set::empty()).len(),
        walk(node, Set::empty())[g] == node_at(node, path),
        path.len() == 0 ==> g == 0,
        path.len() > 0 ==> child_walk(node.children, path[0] as nat, Set::empty()).len() < g <= child_walk(
            node.children,
            path[0] as nat,
            Set::empty(),
        ).len() + walk(node.children[path[0]], Set::empty()).len(),
    decreases path.len(),
{
    if path.len() == 0 {
        0
    } else {
        let a = lemma_path_in_walk(node.children[path[0]], path.drop_first());
        lemma_child_in_walk(node, path[0], a, Set::empty())
    }
}

/// With distinct identities, two paths that lead to the same identity are the same path.
pub proof fn lemma_paths_agree(node: NodeShape, p: Seq<int>, q: Seq<int>)
    requires
        distinct_ids(node),
        valid_path(node, p),
        valid_path(node, q),
        node_at(node, p).id == node_at(node, q).id,
    ensures
        p == q,
    decreases p.len(),
{
    let gp = lemma_path_in_walk(node, p);
    let gq = lemma_path_in_walk(node, q);
    assert(all_ids(node)[gp] == node_at(node, p).id);
    assert(all_ids(node)[gq] == node_at(node, q).id);
    assert(gp == gq);
    if p.len() == 0 || q.len() == 0 {
        assert(p =~= q);
    } else {
        if p[0] < q[0] {
            lemma_child_walk_order(node.children, p[0], q[0], Set::empty());
        } else if q[0] < p[0] {
            lemma_child_walk_order(node.children, q[0], p[0], Set::empty());
        }
        lemma_child_distinct(node, p[0]);
        lemma_paths_agree(node.children[p[0]], p.drop_first(), q.drop_first());
        assert(p =~= seq![p[0]] + p.drop_first());
        assert(q =~= seq![q[0]] + q.drop_first());
    }
}

/// What a successful search among children says of the child it stopped at.
pub proof fn lemma_find_path_from(children: Seq<NodeShape>, from: nat, id: usize)
    ensures
        match find_path_from(children, from, id) {
            Some(path) => {
                &&& path.len() > 0
                &&& from <= path[0] < children.len()
                &&& find_path(children[path[0]], id) == Some(path.drop_first())
                &&& forall|k: int| from <= k < path[0] ==> find_path(#[trigger] children[k], id) is None
            },
            None => forall|k: int|
                from <= k < children.len() ==> find_path(#[trigger] children[k], id) is None,
        },
    decreases children.len() - from,
{
    if from < children.len() {
        match find_path(children[from as int], id) {
            Some(rest) => {
                assert((seq![from as int] + rest).drop_first() =~= rest);
            },
            None => {
                lemma_find_path_from(children, from + 1, id);
            },
        }
    }
}

/// A path that the search returns is valid and leads to the identity searched for.
pub proof fn lemma_find_path_valid(node: NodeShape, id: usize)
    ensures
        find_path(node, id) matches Some(path) ==> valid_path(node, path) && node_at(node, path).id
            == id,
    decreases node,
{
    if node.id != id {
        lemma_find_path_from(node.children, 0, id);
        if let Some(path) = find_path_from(node.children, 0, id) {
            lemma_find_path_valid(node.children[path[0]], id);
        }
    }
}

/// The search among children succeeds where the search in one of them does.
pub proof fn lemma_find_path_from_hit(children: Seq<NodeShape>, from: nat, k: int, id: usize)
    requires
        from <= k < children.len(),
        find_path(children[k], id) is Some,
    ensures
        find_path_from(children, from, id) is Some,
    decreases k - from,
{
    if from < k && find_path(children[from as int], id) is None {
        lemma_find_path_from_hit(children, from + 1, k, id);
    }
}

/// The identity of every node of the subtree is found.
pub proof fn lemma_find_path_complete(node: NodeShape, path: Seq<int>)
    requires
        valid_path(node, path),
    ensures
        find_path(node, node_at(node, path).id) is Some,
    decreases path.len(),
{
    let id = node_at(node, path).id;
    if node.id != id {
        lemma_find_path_complete(node.children[path[0]], path.drop_first());
        lemma_find_path_from_hit(node.children, 0, path[0], id);
    }
}

/// With distinct identities the search for the identity of a node returns the path to
/// that very node.
pub proof fn lemma_find_path_exact(node: NodeShape, path: Seq<int>)
    requires
        distinct_ids(node),
        valid_path(node, path),
    ensures
        find_path(node, node_at(node, path).id) == Some(path),
{
    let id = node_at(node, path).id;
    lemma_find_path_complete(node, path);
    lemma_find_path_valid(node, id);
    lemma_paths_agree(node, find_path(node, id)->0, path);
}

/// One more step at the end of a valid path.
pub proof fn lemma_path_push(node: NodeShape, path: Seq<int>, k: int)
    requires
        valid_path(node, path),
        0 <= k < node_at(node, path).children.len(),
    ensures
        valid_path(node, path.push(k)),
        node_at(node, path.push(k)) == node_at(node, path).children[k],
    decreases path.len(),
{
    let longer = path.push(k);
    assert(node_at(node, longer) == node_at(node.children[longer[0]], longer.drop_first()));
    if path.len() == 0 {
        assert(longer.drop_first() =~= Seq::<int>::empty());
        assert(valid_path(node.children[k], longer.drop_first()));
        assert(node_at(node.children[k], longer.drop_first()) == node.children[k]);
    } else {
        assert(longer.drop_first() =~= path.drop_first().push(k));
        assert(longer[0] == path[0]);
        lemma_path_push(node.children[path[0]], path.drop_first(), k);
    }
}

/// A valid path without its last step leads to the parent.
pub proof fn lemma_path_drop_last(node: NodeShape, path: Seq<int>)
    requires
        valid_path(node, path),
        path.len() > 0,
    ensures
        valid_path(node, path.drop_last()),
        0 <= path.last() < node_at(node, path.drop_last()).children.len(),
        node_at(node, path) == node_at(node, path.drop_last()).children[path.last()],
    decreases path.len(),
{
    let shorter = path.drop_last();
    assert(node_at(node, path) == node_at(node.children[path[0]], path.drop_first()));
    if path.len() == 1 {
        assert(path.drop_first() =~= Seq::<int>::empty());
        assert(node_at(node.children[path[0]], path.drop_first()) == node.children[path[0]]);
        assert(node_at(node, shorter) == node);
    } else {
        lemma_path_drop_last(node.children[path[0]], path.drop_first());
        assert(shorter.drop_first() =~= path.drop_first().drop_last());
        assert(shorter[0] == path[0]);
        assert(node_at(node, shorter) == node_at(node.children[shorter[0]], shorter.drop_first()));
    }
}

/// Every beginning of a valid path is a valid path.
pub proof fn lemma_path_take(node: NodeShape, path: Seq<int>, k: int)
    requires
        valid_path(node, path),
        0 <= k <= path.len(),
    ensures
        valid_path(node, path.take(k)),
    decreases path.len() - k,
{
    if k < path.len() {
        lemma_path_take(node, path, k + 1);
        lemma_path_drop_last(node, path.take(k + 1));
        assert(path.take(k + 1).drop_last() =~= path.take(k));
    } else {
        assert(path.take(k) =~= path);
    }
}

/// A walk has a depth for each of its nodes.
pub proof fn lemma_depths_len(node: NodeShape, hidden: Set<usize>, depth: nat)
    ensures
        depths(node, hidden, depth).len() == walk(node, hidden).len(),
    decreases node, 0nat,
{
    lemma_child_depths_len(node.children, node.children.len(), hidden, depth + 1);
}

/// The same, for the walks of the first `upto` children.
pub proof fn lemma_child_depths_len(
    children: Seq<NodeShape>,
    upto: nat,
    hidden: Set<usize>,
    depth: nat,
)
    ensures
        child_depths(children, upto, hidden, depth).len() == child_walk(children, upto, hidden).len(),
    decreases children, upto,
{
    if 0 < upto <= children.len() {
        lemma_child_depths_len(children, (upto - 1) as nat, hidden, depth);
        lemma_depths_len(children[upto - 1], hidden, depth);
    }
}

/// The root is always displayed.
pub proof fn lemma_shown_root(root: NodeShape, hidden: Set<usize>)
    ensures
        shown(root, hidden, root.id),
{
}

/// A node that is displayed occurs in the display order.
pub proof fn lemma_shown_visible(root: NodeShape, hidden: Set<usize>, id: usize)
    requires
        shown(root, hidden, id),
    ensures
        visible_ids(root, hidden).contains(id),
{
    lemma_find_path_valid(root, id);
    lemma_path_visible(root, find_path(root, id)->0, hidden);
}

/// The parent of a displayed node is displayed.
pub proof fn lemma_shown_parent(root: NodeShape, hidden: Set<usize>, id: usize)
    requires
        distinct_ids(root),
        shown(root, hidden, id),
        parent_of(root, id) is Some,
    ensures
        shown(root, hidden, (parent_of(root, id)->0).0.id),
{
    let path = find_path(root, id)->0;
    let upper = path.drop_last();
    lemma_find_path_valid(root, id);
    lemma_path_drop_last(root, path);
    lemma_find_path_exact(root, upper);
    assert forall|k: int| 0 <= k < upper.len() implies !hidden.contains(
        #[trigger] node_at(root, upper.take(k)).id,
    ) by {
        assert(upper.take(k) =~= path.take(k));
    }
}

/// The siblings of a displayed node are displayed.
pub proof fn lemma_shown_sibling(root: NodeShape, hidden: Set<usize>, id: usize, k: int)
    requires
        distinct_ids(root),
        shown(root, hidden, id),
        parent_of(root, id) is Some,
        0 <= k < (parent_of(root, id)->0).0.children.len(),
    ensures
        shown(root, hidden, (parent_of(root, id)->0).0.children[k].id),
{
    let path = find_path(root, id)->0;
    let other = path.drop_last().push(k);
    lemma_find_path_valid(root, id);
    lemma_path_drop_last(root, path);
    lemma_path_push(root, path.drop_last(), k);
    lemma_find_path_exact(root, other);
    assert forall|j: int| 0 <= j < other.len() implies !hidden.contains(
        #[trigger] node_at(root, other.take(j)).id,
    ) by {
        assert(other.take(j) =~= path.take(j));
    }
}

/// The children of a displayed node that is not folded are displayed.
pub proof fn lemma_shown_child(root: NodeShape, hidden: Set<usize>, id: usize, k: int)
    requires
        distinct_ids(root),
        shown(root, hidden, id),
        !hidden.contains(id),
        0 <= k < lookup(root, id)->0.children.len(),
    ensures
        shown(root, hidden, lookup(root, id)->0.children[k].id),
{
    let path = find_path(root, id)->0;
    let longer = path.push(k);
    lemma_find_path_valid(root, id);
    lemma_path_push(root, path, k);
    lemma_find_path_exact(root, longer);
    assert forall|j: int| 0 <= j < longer.len() implies !hidden.contains(
        #[trigger] node_at(root, longer.take(j)).id,
    ) by {
        if j < path.len() {
            assert(longer.take(j) =~= path.take(j));
        } else {
            assert(longer.take(j) =~= path);
        }
    }
}

/// Folding a displayed node leaves it displayed.
pub proof fn lemma_shown_fold(root: NodeShape, hidden: Set<usize>, id: usize)
    requires
        distinct_ids(root),
        shown(root, hidden, id),
    ensures
        shown(root, hidden.insert(id), id),
{
    let path = find_path(root, id)->0;
    lemma_find_path_valid(root, id);
    assert forall|k: int| 0 <= k < path.len() implies !hidden.insert(id).contains(
        #[trigger] node_at(root, path.take(k)).id,
    ) by {
        lemma_path_take(root, path, k);
        if node_at(root, path.take(k)).id == id {
            lemma_paths_agree(root, path.take(k), path);
        }
    }
}

/// Unfolding a node leaves every displayed node displayed.
pub proof fn lemma_shown_unfold(root: NodeShape, hidden: Set<usize>, id: usize, unfolded: usize)
    requires
        shown(root, hidden, id),
    ensures
        shown(root, hidden.remove(unfolded), id),
{
}

} // verus!
