use vstd::prelude::*;

verus! {

// Paths in a directed graph given by an edge relation, and the facts about them that
// dependency checks and ordering rest on.

/// The step from position `i` to position `i + 1` of `p` is an edge.
pub open spec fn step<A>(edge: spec_fn(A, A) -> bool, p: Seq<A>, i: int) -> bool {
    edge(p[i], p[i + 1])
}

/// `p` is a non-empty walk along edges.
pub open spec fn is_path<A>(edge: spec_fn(A, A) -> bool, p: Seq<A>) -> bool {
    &&& p.len() >= 1
    &&& forall|i: int| 0 <= i < p.len() - 1 ==> #[trigger] step(edge, p, i)
}

/// `b` can be reached from `a` in zero or more steps.
pub open spec fn reaches<A>(edge: spec_fn(A, A) -> bool, a: A, b: A) -> bool {
    exists|p: Seq<A>| #[trigger] is_path(edge, p) && p[0] == a && p.last() == b
}

/// `a` lies on a cycle: it can be reached from itself in one or more steps.
pub open spec fn on_cycle<A>(edge: spec_fn(A, A) -> bool, a: A) -> bool {
    exists|p: Seq<A>| #[trigger] is_path(edge, p) && p.len() >= 2 && p[0] == a && p.last() == a
}

/// Every edge leaving a member of `s` ends in `s`.
pub open spec fn closed_under<A>(edge: spec_fn(A, A) -> bool, s: Set<A>) -> bool {
    forall|x: A, y: A| s.contains(x) && #[trigger] edge(x, y) ==> s.contains(y)
}

/// Every node reaches itself.
pub proof fn lemma_reaches_refl<A>(edge: spec_fn(A, A) -> bool, a: A)
    ensures
        reaches(edge, a, a),
{
    let p = seq![a];
    assert(is_path(edge, p));
}

/// Appending an edge to a path gives a path.
pub proof fn lemma_path_push<A>(edge: spec_fn(A, A) -> bool, p: Seq<A>, y: A)
    requires
        is_path(edge, p),
        edge(p.last(), y),
    ensures
        is_path(edge, p.push(y)),
{
    let q = p.push(y);
    assert forall|i: int| 0 <= i < q.len() - 1 implies #[trigger] step(edge, q, i) by {
        if i < p.len() - 1 {
            assert(step(edge, p, i));
        }
    }
}

/// A path without its last node is a path.
pub proof fn lemma_path_drop_last<A>(edge: spec_fn(A, A) -> bool, p: Seq<A>)
    requires
        is_path(edge, p),
        p.len() >= 2,
    ensures
        is_path(edge, p.drop_last()),
        edge(p.drop_last().last(), p.last()),
{
    let q = p.drop_last();
    assert forall|i: int| 0 <= i < q.len() - 1 implies #[trigger] step(edge, q, i) by {
        assert(step(edge, p, i));
    }
    assert(step(edge, p, p.len() - 2));
}

/// Following one more edge keeps a node reachable.
pub proof fn lemma_reaches_step<A>(edge: spec_fn(A, A) -> bool, a: A, x: A, y: A)
    requires
        reaches(edge, a, x),
        edge(x, y),
    ensures
        reaches(edge, a, y),
{
    let p = choose|p: Seq<A>| #[trigger] is_path(edge, p) && p[0] == a && p.last() == x;
    lemma_path_push(edge, p, y);
    assert(is_path(edge, p.push(y)) && p.push(y)[0] == a && p.push(y).last() == y);
}

/// Reachability is transitive.
pub proof fn lemma_reaches_trans<A>(edge: spec_fn(A, A) -> bool, a: A, b: A, c: A)
    requires
        reaches(edge, a, b),
        reaches(edge, b, c),
    ensures
        reaches(edge, a, c),
{
    let q = choose|q: Seq<A>| #[trigger] is_path(edge, q) && q[0] == b && q.last() == c;
    lemma_reaches_along(edge, a, q);
}

/// Reaching the start of a path reaches its end.
proof fn lemma_reaches_along<A>(edge: spec_fn(A, A) -> bool, a: A, q: Seq<A>)
    requires
        is_path(edge, q),
        reaches(edge, a, q[0]),
    ensures
        reaches(edge, a, q.last()),
    decreases q.len(),
{
    if q.len() > 1 {
        lemma_path_drop_last(edge, q);
        lemma_reaches_along(edge, a, q.drop_last());
        lemma_reaches_step(edge, a, q.drop_last().last(), q.last());
    }
}

/// A set that holds the start of a path and is closed under edges holds its end.
pub proof fn lemma_closed_holds_path<A>(edge: spec_fn(A, A) -> bool, s: Set<A>, p: Seq<A>)
    requires
        closed_under(edge, s),
        is_path(edge, p),
        s.contains(p[0]),
    ensures
        s.contains(p.last()),
    decreases p.len(),
{
    if p.len() > 1 {
        lemma_path_drop_last(edge, p);
        lemma_closed_holds_path(edge, s, p.drop_last());
    }
}

/// A set closed under edges holds everything reachable from its members.
pub proof fn lemma_closed_holds_reached<A>(edge: spec_fn(A, A) -> bool, s: Set<A>, a: A, b: A)
    requires
        closed_under(edge, s),
        s.contains(a),
        reaches(edge, a, b),
    ensures
        s.contains(b),
{
    let p = choose|p: Seq<A>| #[trigger] is_path(edge, p) && p[0] == a && p.last() == b;
    lemma_closed_holds_path(edge, s, p);
}

/// An edge into a node that reaches back closes a cycle.
pub proof fn lemma_edge_back_is_cycle<A>(edge: spec_fn(A, A) -> bool, x: A, y: A)
    requires
        edge(x, y),
        reaches(edge, y, x),
    ensures
        on_cycle(edge, x),
{
    let q = choose|q: Seq<A>| #[trigger] is_path(edge, q) && q[0] == y && q.last() == x;
    let p = seq![x] + q;
    assert forall|i: int| 0 <= i < p.len() - 1 implies #[trigger] step(edge, p, i) by {
        if i > 0 {
            assert(step(edge, q, i - 1));
        }
    }
    assert(is_path(edge, p) && p.len() >= 2 && p[0] == x && p.last() == x);
}

/// Where each node of a list only has edges to nodes listed before it, a path starting in
/// the list stays in it and moves strictly towards its front.
pub proof fn lemma_ordered_path<A>(edge: spec_fn(A, A) -> bool, order: Seq<A>, p: Seq<A>)
    requires
        order.no_duplicates(),
        forall|k: int, b: A| 0 <= k < order.len() && #[trigger] edge(order[k], b)
            ==> order.contains(b) && order.index_of(b) < k,
        is_path(edge, p),
        p.len() >= 2,
        order.contains(p[0]),
    ensures
        order.contains(p.last()),
        order.index_of(p.last()) < order.index_of(p[0]),
    decreases p.len(),
{
    let q = p.drop_last();
    lemma_path_drop_last(edge, p);
    let x = q.last();
    if q.len() >= 2 {
        lemma_ordered_path(edge, order, q);
    }
    assert(order.contains(x));
    let k = order.index_of(x);
    assert(order[k] == x);
    assert(edge(order[k], p.last()));
}

/// Where each node of a list only has edges to nodes listed before it, no listed node
/// lies on a cycle.
pub proof fn lemma_ordered_acyclic<A>(edge: spec_fn(A, A) -> bool, order: Seq<A>, a: A)
    requires
        order.no_duplicates(),
        forall|k: int, b: A| 0 <= k < order.len() && #[trigger] edge(order[k], b)
            ==> order.contains(b) && order.index_of(b) < k,
        order.contains(a),
    ensures
        !on_cycle(edge, a),
{
    if on_cycle(edge, a) {
        let p = choose|p: Seq<A>| #[trigger] is_path(edge, p) && p.len() >= 2 && p[0] == a && p.last() == a;
        lemma_ordered_path(edge, order, p);
    }
}

/// The successor that a walk through `r` takes from `x`.
pub open spec fn successor<A>(edge: spec_fn(A, A) -> bool, r: Set<A>, x: A) -> A {
    choose|y: A| r.contains(y) && edge(x, y)
}

/// A walk of `n` steps through `r` from `x`.
pub open spec fn walk<A>(edge: spec_fn(A, A) -> bool, r: Set<A>, x: A, n: nat) -> Seq<A>
    decreases n,
{
    if n == 0 {
        seq![x]
    } else {
        let w = walk(edge, r, x, (n - 1) as nat);
        w.push(successor(edge, r, w.last()))
    }
}

/// Where every node of `r` has an edge into `r`, a walk from a member stays in `r`.
proof fn lemma_walk<A>(edge: spec_fn(A, A) -> bool, r: Set<A>, x: A, n: nat)
    requires
        r.contains(x),
        forall|u: A| r.contains(u) ==> exists|v: A| r.contains(v) && #[trigger] edge(u, v),
    ensures
        walk(edge, r, x, n).len() == n + 1,
        is_path(edge, walk(edge, r, x, n)),
        forall|i: int| 0 <= i < walk(edge, r, x, n).len() ==> r.contains(#[trigger] walk(edge, r, x, n)[i]),
    decreases n,
{
    if n > 0 {
        let w = walk(edge, r, x, (n - 1) as nat);
        lemma_walk(edge, r, x, (n - 1) as nat);
        let u = w.last();
        assert(r.contains(u));
        assert(exists|v: A| r.contains(v) && edge(u, v));
        lemma_path_push(edge, w, successor(edge, r, u));
        let w2 = walk(edge, r, x, n);
        assert forall|i: int| 0 <= i < w2.len() implies r.contains(#[trigger] w2[i]) by {
            if i < w.len() {
                assert(w2[i] == w[i]);
            }
        }
    }
}

/// In a finite non-empty set where every node has an edge to a node of the set, some node
/// lies on a cycle.
pub proof fn lemma_stuck_set_has_cycle<A>(edge: spec_fn(A, A) -> bool, r: Set<A>)
    requires
        r.finite(),
        r.len() > 0,
        forall|u: A| r.contains(u) ==> exists|v: A| r.contains(v) && #[trigger] edge(u, v),
    ensures
        exists|a: A| r.contains(a) && on_cycle(edge, a),
{
    let x = r.choose();
    let w = walk(edge, r, x, r.len());
    lemma_walk(edge, r, x, r.len());
    assert(w.to_set().subset_of(r));
    vstd::set_lib::lemma_len_subset(w.to_set(), r);
    if w.no_duplicates() {
        w.unique_seq_to_set();
        assert(false);
    }
    let (i, j) = choose|i: int, j: int| 0 <= i < w.len() && 0 <= j < w.len() && i != j && w[i] == w[j];
    let lo = if i < j { i } else { j };
    let hi = if i < j { j } else { i };
    let c = w.subrange(lo, hi + 1);
    assert forall|k: int| 0 <= k < c.len() - 1 implies #[trigger] step(edge, c, k) by {
        assert(step(edge, w, lo + k));
    }
    assert(is_path(edge, c) && c.len() >= 2 && c[0] == w[lo] && c.last() == w[lo]);
    assert(r.contains(w[lo]));
}

/// Where the edges of `e2` are those of `e1` and one more edge from `t` to `s`, a path of
/// `e2` either is a path of `e1` or uses the new edge: its start then reaches `t` and `s`
/// reaches its end, both along `e1`.
proof fn lemma_path_with_new_edge<A>(e1: spec_fn(A, A) -> bool, e2: spec_fn(A, A) -> bool, t: A, s: A, q: Seq<A>)
    requires
        forall|x: A, y: A| #[trigger] e2(x, y) ==> e1(x, y) || (x == t && y == s),
        is_path(e2, q),
    ensures
        is_path(e1, q) || (reaches(e1, q[0], t) && reaches(e1, s, q.last())),
    decreases q.len(),
{
    if q.len() == 1 {
        assert forall|i: int| 0 <= i < q.len() - 1 implies #[trigger] step(e1, q, i) by {}
    } else {
        lemma_path_drop_last(e2, q);
        let r = q.drop_last();
        lemma_path_with_new_edge(e1, e2, t, s, r);
        let x = r.last();
        let y = q.last();
        lemma_reaches_refl(e1, s);
        if e1(x, y) {
            if is_path(e1, r) {
                lemma_path_push(e1, r, y);
                assert(r.push(y) =~= q);
            } else {
                lemma_reaches_step(e1, s, x, y);
            }
        } else {
            assert(x == t && y == s);
            if is_path(e1, r) {
                assert(reaches(e1, q[0], t)) by {
                    assert(is_path(e1, r) && r[0] == q[0] && r.last() == t);
                }
            }
        }
    }
}

/// Adding an edge from `t` to `s` where `s` does not reach `t` puts no node on a new
/// cycle.
pub proof fn lemma_new_edge_no_new_cycle<A>(e1: spec_fn(A, A) -> bool, e2: spec_fn(A, A) -> bool, t: A, s: A, n: A)
    requires
        forall|x: A, y: A| #[trigger] e2(x, y) ==> e1(x, y) || (x == t && y == s),
        !reaches(e1, s, t),
        on_cycle(e2, n),
    ensures
        on_cycle(e1, n),
{
    let p = choose|p: Seq<A>| #[trigger] is_path(e2, p) && p.len() >= 2 && p[0] == n && p.last() == n;
    lemma_path_with_new_edge(e1, e2, t, s, p);
    if !is_path(e1, p) {
        lemma_reaches_trans(e1, s, n, t);
    }
}

} // verus!
