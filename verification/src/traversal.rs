//! The order in which a stack is flattened: breadth first from each root.
//!
//! A stack is seen here as its parent relation alone: for each request, by
//! its place, the place of the request it merges into. Every request has
//! at most one parent, so what a root reaches is a tree.

use vstd::prelude::*;
use vstd::seq_lib::lemma_no_dup_in_concat;
use vstd::seq_lib::lemma_seq_concat_contains_all_elements;
use vstd::set_lib::lemma_int_range;
use vstd::set_lib::lemma_len_subset;
use vstd::set_lib::set_int_range;

verus! {

/// Whether `parents` is a parent relation: each parent is a place of the
/// stack, and no request is its own parent.
pub open spec fn parents_ok(parents: Seq<Option<int>>) -> bool {
    forall|i: int|
        0 <= i < parents.len() ==> match #[trigger] parents[i] {
            Some(p) => 0 <= p < parents.len() && p != i,
            None => true,
        }
}

/// Whether `root` is a root of the stack: a request without a parent.
pub open spec fn is_root(parents: Seq<Option<int>>, root: int) -> bool {
    0 <= root < parents.len() && parents[root] is None
}

/// The children of `p` among the first `k` requests, the last one first.
pub open spec fn children_below(parents: Seq<Option<int>>, p: int, k: int) -> Seq<int>
    decreases k,
{
    if k <= 0 {
        Seq::empty()
    } else if parents[k - 1] == Some(p) {
        seq![k - 1] + children_below(parents, p, k - 1)
    } else {
        children_below(parents, p, k - 1)
    }
}

/// The children of `p`: the requests that merge into it, the last one first.
pub open spec fn children(parents: Seq<Option<int>>, p: int) -> Seq<int> {
    children_below(parents, p, parents.len() as int)
}

/// The roots among the first `k` requests, in their order.
pub open spec fn roots_below(parents: Seq<Option<int>>, k: int) -> Seq<int>
    decreases k,
{
    if k <= 0 {
        Seq::empty()
    } else if parents[k - 1] is None {
        roots_below(parents, k - 1).push(k - 1)
    } else {
        roots_below(parents, k - 1)
    }
}

/// The roots of the stack, in their order.
pub open spec fn roots(parents: Seq<Option<int>>) -> Seq<int> {
    roots_below(parents, parents.len() as int)
}

/// The requests that a breadth-first walk visits from the queue `queue` on,
/// in the order of the visits, `budget` visits at most: the head of the
/// queue is visited, and its children join the queue at its end.
pub open spec fn breadth_first(parents: Seq<Option<int>>, queue: Seq<int>, budget: nat) -> Seq<int>
    decreases budget,
{
    if budget == 0 || queue.len() == 0 {
        Seq::empty()
    } else {
        seq![queue[0]] + breadth_first(
            parents,
            queue.skip(1) + children(parents, queue[0]),
            (budget - 1) as nat,
        )
    }
}

/// The requests that `root` reaches, breadth first. A walk never visits a
/// request twice, so as many visits as there are requests are enough.
pub open spec fn traversal(parents: Seq<Option<int>>, root: int) -> Seq<int> {
    breadth_first(parents, seq![root], parents.len())
}

/// The traversals of the roots `roots`, one after the other.
pub open spec fn traversals(parents: Seq<Option<int>>, roots: Seq<int>) -> Seq<int>
    decreases roots.len(),
{
    if roots.len() == 0 {
        Seq::empty()
    } else {
        traversals(parents, roots.drop_last()) + traversal(parents, roots.last())
    }
}

/// The order of the flattened stack: the traversal of each root, the roots
/// taken in their order.
pub open spec fn flat_order(parents: Seq<Option<int>>) -> Seq<int> {
    traversals(parents, roots(parents))
}

/// Whether following the parents from `i` leads to `target` in `steps` steps.
pub open spec fn reaches(parents: Seq<Option<int>>, i: int, target: int, steps: nat) -> bool
    decreases steps,
{
    if steps == 0 {
        i == target
    } else {
        0 <= i < parents.len() && match parents[i] {
            Some(p) => reaches(parents, p, target, (steps - 1) as nat),
            None => false,
        }
    }
}

/// The children of `p` below `k` are the requests below `k` whose parent is
/// `p`, each once.
pub proof fn children_below_are_children(parents: Seq<Option<int>>, p: int, k: int)
    requires
        0 <= k <= parents.len(),
    ensures
        forall|c: int| #[trigger]
            children_below(parents, p, k).contains(c) <==> 0 <= c < k && parents[c] == Some(p),
        children_below(parents, p, k).no_duplicates(),
    decreases k,
{
    if k > 0 {
        children_below_are_children(parents, p, k - 1);
        let rest = children_below(parents, p, k - 1);
        if parents[k - 1] == Some(p) {
            let all = seq![k - 1] + rest;
            assert forall|c: int| #[trigger] all.contains(c) <==> 0 <= c < k && parents[c] == Some(p) by {
                lemma_seq_concat_contains_all_elements(seq![k - 1], rest, c);
                if c == k - 1 {
                    assert(seq![k - 1][0] == c);
                }
            }
            let first = seq![k - 1];
            assert forall|i: int, j: int| 0 <= i < first.len() && 0 <= j < rest.len() implies #[trigger] first[i]
                != #[trigger] rest[j] by {
                assert(rest.contains(rest[j]));
            }
            lemma_no_dup_in_concat(first, rest);
        }
    }
}

/// Distinct numbers below `n` are at most `n`.
pub proof fn distinct_below_are_few(s: Seq<int>, n: int)
    requires
        0 <= n,
        s.no_duplicates(),
        forall|k: int| 0 <= k < s.len() ==> 0 <= #[trigger] s[k] < n,
    ensures
        s.len() <= n,
{
    s.unique_seq_to_set();
    lemma_int_range(0, n);
    assert(s.to_set().subset_of(set_int_range(0, n)));
    lemma_len_subset(s.to_set(), set_int_range(0, n));
}

/// What holds of a walk from `root` in which `all` lists the requests
/// discovered so far, in the order of their discovery, and the first `done`
/// of them were visited: no request was discovered twice; the walk
/// started at the root; every other request was discovered from its
/// parent, which was visited before; and every child of a visited request
/// was discovered.
pub open spec fn walk_inv(parents: Seq<Option<int>>, root: int, all: Seq<int>, done: int) -> bool {
    &&& 0 <= done <= all.len()
    &&& all.len() > 0
    &&& all[0] == root
    &&& all.no_duplicates()
    &&& forall|k: int| 0 <= k < all.len() ==> 0 <= #[trigger] all[k] < parents.len()
    &&& forall|k: int|
        0 < k < all.len() ==> exists|j: int|
            0 <= j < k && j < done && parents[#[trigger] all[k]] == Some(#[trigger] all[j])
    &&& forall|c: int, j: int|
        0 <= c < parents.len() && 0 <= j < done && parents[c] == Some(#[trigger] all[j])
            ==> #[trigger] all.contains(c)
}

/// A walk starts with its root discovered and nothing visited.
pub proof fn walk_starts(parents: Seq<Option<int>>, root: int)
    requires
        is_root(parents, root),
    ensures
        walk_inv(parents, root, seq![root], 0),
{
}

/// One visit of a walk: the children of the visited request were not
/// discovered before, they are distinct, and with them discovered the walk
/// is as [`walk_inv`] says.
pub proof fn walk_step(parents: Seq<Option<int>>, root: int, all: Seq<int>, done: int)
    requires
        parents_ok(parents),
        is_root(parents, root),
        walk_inv(parents, root, all, done),
        done < all.len(),
    ensures
        walk_inv(parents, root, all + children(parents, all[done]), done + 1),
        children(parents, all[done]).no_duplicates(),
        forall|c: int| children(parents, all[done]).contains(c) ==> !all.contains(c),
        all.len() <= parents.len(),
{
    let n = parents.len() as int;
    let x = all[done];
    let found = children(parents, x);
    let grown = all + found;
    children_below_are_children(parents, x, n);
    distinct_below_are_few(all, n);
    assert forall|c: int| found.contains(c) implies !all.contains(c) by {
        if all.contains(c) {
            let k = choose|k: int| 0 <= k < all.len() && all[k] == c;
            if k > 0 {
                let j = choose|j: int| 0 <= j < k && j < done && parents[all[k]] == Some(all[j]);
                assert(all[j] == all[done]);
            }
        }
    }
    assert forall|i: int, j: int| 0 <= i < all.len() && 0 <= j < found.len() implies #[trigger] all[i]
        != #[trigger] found[j] by {
        assert(found.contains(found[j]));
        assert(all.contains(all[i]));
    }
    lemma_no_dup_in_concat(all, found);
    assert forall|k: int| 0 <= k < grown.len() implies 0 <= #[trigger] grown[k] < parents.len() by {
        if k >= all.len() {
            assert(found.contains(found[k - all.len()]));
        }
    }
    assert forall|k: int| 0 < k < grown.len() implies exists|j: int|
        0 <= j < k && j < done + 1 && parents[#[trigger] grown[k]] == Some(#[trigger] grown[j]) by {
        if k < all.len() {
            let j = choose|j: int| 0 <= j < k && j < done && parents[all[k]] == Some(all[j]);
            assert(grown[j] == all[j]);
        } else {
            assert(found.contains(found[k - all.len()]));
            assert(grown[done] == x);
        }
    }
    assert forall|c: int, j: int|
        0 <= c < parents.len() && 0 <= j < done + 1 && parents[c] == Some(
            #[trigger] grown[j],
        ) implies #[trigger] grown.contains(c) by {
        lemma_seq_concat_contains_all_elements(all, found, c);
        if j < done {
            assert(grown[j] == all[j]);
            assert(all.contains(c));
        } else {
            assert(grown[j] == x);
            assert(found.contains(c));
        }
    }
}

/// A walk that goes on from where [`walk_inv`] holds until nothing is left
/// to visit ends where it holds, with everything discovered visited.
pub proof fn walk_completes(parents: Seq<Option<int>>, root: int, all: Seq<int>, done: int)
    requires
        parents_ok(parents),
        is_root(parents, root),
        walk_inv(parents, root, all, done),
    ensures
        ({
            let whole = all.take(done) + breadth_first(
                parents,
                all.skip(done),
                (parents.len() - done) as nat,
            );
            walk_inv(parents, root, whole, whole.len() as int)
        }),
        done <= parents.len(),
    decreases parents.len() - done,
{
    let n = parents.len() as int;
    distinct_below_are_few(all, n);
    if done == all.len() {
        assert(all.skip(done) =~= Seq::<int>::empty());
        assert(all.take(done) + Seq::<int>::empty() =~= all);
    } else {
        walk_step(parents, root, all, done);
        let x = all[done];
        let grown = all + children(parents, x);
        distinct_below_are_few(grown, n);
        walk_completes(parents, root, grown, done + 1);
        assert(grown.skip(done + 1) =~= all.skip(done).skip(1) + children(parents, x));
        assert(grown.take(done + 1) =~= all.take(done).push(x));
        assert(all.skip(done)[0] == x);
        let rest = breadth_first(parents, grown.skip(done + 1), (n - done - 1) as nat);
        assert(breadth_first(parents, all.skip(done), (n - done) as nat) == seq![x] + rest);
        assert(all.take(done) + (seq![x] + rest) =~= grown.take(done + 1) + rest);
    }
}

/// The traversal of a root is a walk that is through: it visits no request
/// twice, starts with the root, visits every other request after the
/// parent of that request, and visits the children of all it visits.
pub proof fn traversal_is_walk(parents: Seq<Option<int>>, root: int)
    requires
        parents_ok(parents),
        is_root(parents, root),
    ensures
        walk_inv(
            parents,
            root,
            traversal(parents, root),
            traversal(parents, root).len() as int,
        ),
{
    walk_starts(parents, root);
    walk_completes(parents, root, seq![root], 0);
    assert(seq![root].skip(0) =~= seq![root]);
    assert(seq![root].take(0) + traversal(parents, root) =~= traversal(parents, root));
}

/// The roots below `k` are the requests below `k` without a parent, each
/// once, in rising order.
pub proof fn roots_below_are_roots(parents: Seq<Option<int>>, k: int)
    requires
        0 <= k <= parents.len(),
    ensures
        forall|r: int| #[trigger] roots_below(parents, k).contains(r) <==> 0 <= r < k && parents[r] is None,
        forall|i: int| 0 <= i < roots_below(parents, k).len() ==> 0 <= #[trigger] roots_below(parents, k)[i] < k,
        forall|i: int, j: int|
            0 <= i < j < roots_below(parents, k).len() ==> roots_below(parents, k)[i] < roots_below(
                parents,
                k,
            )[j],
        roots_below(parents, k).no_duplicates(),
    decreases k,
{
    if k > 0 {
        roots_below_are_roots(parents, k - 1);
        let rest = roots_below(parents, k - 1);
        if parents[k - 1] is None {
            let all = rest.push(k - 1);
            assert forall|r: int| #[trigger] all.contains(r) <==> 0 <= r < k && parents[r] is None by {
                if all.contains(r) {
                    let i = choose|i: int| 0 <= i < all.len() && all[i] == r;
                    if i < rest.len() {
                        assert(rest.contains(rest[i]));
                    }
                }
                if 0 <= r < k && parents[r] is None {
                    if r == k - 1 {
                        assert(all[rest.len() as int] == r);
                    } else {
                        assert(rest.contains(r));
                        let i = choose|i: int| 0 <= i < rest.len() && rest[i] == r;
                        assert(all[i] == r);
                    }
                }
            }
        }
    }
}

/// Every root of the stack is a request without a parent.
pub proof fn roots_are_roots(parents: Seq<Option<int>>)
    ensures
        forall|r: int| #[trigger] roots(parents).contains(r) <==> is_root(parents, r),
        forall|i: int| 0 <= i < roots(parents).len() ==> is_root(parents, #[trigger] roots(parents)[i]),
        forall|i: int, j: int| 0 <= i < j < roots(parents).len() ==> roots(parents)[i] < roots(parents)[j],
        roots(parents).no_duplicates(),
{
    roots_below_are_roots(parents, parents.len() as int);
    assert forall|i: int| 0 <= i < roots(parents).len() implies is_root(
        parents,
        #[trigger] roots(parents)[i],
    ) by {
        assert(roots(parents).contains(roots(parents)[i]));
    }
}

/// The traversals of two roots share no request.
pub proof fn traversals_are_apart(parents: Seq<Option<int>>, one: int, other: int, k: int)
    requires
        parents_ok(parents),
        is_root(parents, one),
        is_root(parents, other),
        one != other,
        0 <= k < traversal(parents, one).len(),
    ensures
        !traversal(parents, other).contains(traversal(parents, one)[k]),
    decreases k,
{
    let mine = traversal(parents, one);
    let theirs = traversal(parents, other);
    traversal_is_walk(parents, one);
    traversal_is_walk(parents, other);
    if theirs.contains(mine[k]) {
        let m = choose|m: int| 0 <= m < theirs.len() && theirs[m] == mine[k];
        if k == 0 {
            if m > 0 {
                let j = choose|j: int| 0 <= j < m && j < theirs.len() && parents[theirs[m]] == Some(theirs[j]);
            }
        } else {
            let j = choose|j: int| 0 <= j < k && j < mine.len() && parents[mine[k]] == Some(mine[j]);
            if m > 0 {
                let i = choose|i: int| 0 <= i < m && i < theirs.len() && parents[theirs[m]] == Some(theirs[i]);
                assert(theirs[i] == mine[j]);
                assert(theirs.contains(mine[j]));
                traversals_are_apart(parents, one, other, j);
            }
        }
    }
}

/// A request is in the traversals of some roots exactly when it is in the
/// traversal of one of them.
pub proof fn traversals_hold_each(parents: Seq<Option<int>>, roots: Seq<int>, v: int)
    ensures
        traversals(parents, roots).contains(v) <==> exists|m: int|
            0 <= m < roots.len() && traversal(parents, #[trigger] roots[m]).contains(v),
    decreases roots.len(),
{
    if roots.len() > 0 {
        let earlier = roots.drop_last();
        traversals_hold_each(parents, earlier, v);
        lemma_seq_concat_contains_all_elements(
            traversals(parents, earlier),
            traversal(parents, roots.last()),
            v,
        );
        if traversals(parents, roots).contains(v) {
            if traversals(parents, earlier).contains(v) {
                let m = choose|m: int|
                    0 <= m < earlier.len() && traversal(parents, #[trigger] earlier[m]).contains(v);
                assert(roots[m] == earlier[m]);
            } else {
                assert(roots[roots.len() - 1] == roots.last());
            }
        }
        if exists|m: int| 0 <= m < roots.len() && traversal(parents, #[trigger] roots[m]).contains(v) {
            let m = choose|m: int| 0 <= m < roots.len() && traversal(parents, #[trigger] roots[m]).contains(v);
            if m < earlier.len() {
                assert(earlier[m] == roots[m]);
            }
        }
    }
}

/// What holds of the traversals of distinct roots, one after the other: no
/// request comes twice, every request is a place of the stack, and every
/// request that has a parent comes after it.
pub proof fn traversals_are_ordered(parents: Seq<Option<int>>, roots: Seq<int>)
    requires
        parents_ok(parents),
        roots.no_duplicates(),
        forall|i: int| 0 <= i < roots.len() ==> is_root(parents, #[trigger] roots[i]),
    ensures
        traversals(parents, roots).no_duplicates(),
        forall|k: int|
            0 <= k < traversals(parents, roots).len() ==> 0 <= #[trigger] traversals(parents, roots)[k]
                < parents.len(),
        forall|k: int|
            0 <= k < traversals(parents, roots).len() ==> (parents[#[trigger] traversals(
                parents,
                roots,
            )[k]] matches Some(p) ==> exists|j: int|
                0 <= j < k && #[trigger] traversals(parents, roots)[j] == p),
    decreases roots.len(),
{
    if roots.len() > 0 {
        let earlier = roots.drop_last();
        let last = roots.last();
        assert(is_root(parents, roots[roots.len() - 1]));
        assert forall|i: int| 0 <= i < earlier.len() implies is_root(parents, #[trigger] earlier[i]) by {
            assert(earlier[i] == roots[i]);
        }
        traversals_are_ordered(parents, earlier);
        traversal_is_walk(parents, last);
        let before = traversals(parents, earlier);
        let tail = traversal(parents, last);
        let whole = before + tail;
        assert forall|i: int, j: int| 0 <= i < before.len() && 0 <= j < tail.len() implies #[trigger] before[i]
            != #[trigger] tail[j] by {
            if before[i] == tail[j] {
                assert(before.contains(tail[j]));
                traversals_hold_each(parents, earlier, tail[j]);
                let m = choose|m: int|
                    0 <= m < earlier.len() && traversal(parents, #[trigger] earlier[m]).contains(tail[j]);
                assert(earlier[m] == roots[m]);
                traversals_are_apart(parents, last, earlier[m], j);
            }
        }
        lemma_no_dup_in_concat(before, tail);
        assert forall|k: int| 0 <= k < whole.len() implies (parents[#[trigger] whole[k]] matches Some(p)
            ==> exists|j: int| 0 <= j < k && #[trigger] whole[j] == p) by {
            if k < before.len() {
                assert(whole[k] == before[k]);
                if let Some(p) = parents[whole[k]] {
                    let j = choose|j: int| 0 <= j < k && #[trigger] before[j] == p;
                    assert(whole[j] == p);
                }
            } else {
                let t = k - before.len();
                assert(whole[k] == tail[t]);
                if t > 0 {
                    let j = choose|j: int| 0 <= j < t && j < tail.len() && parents[tail[t]] == Some(tail[j]);
                    assert(whole[before.len() + j] == tail[j]);
                }
            }
        }
    }
}

/// In the flattened stack no request comes twice.
pub proof fn flat_order_has_no_duplicates(parents: Seq<Option<int>>)
    requires
        parents_ok(parents),
    ensures
        flat_order(parents).no_duplicates(),
{
    roots_are_roots(parents);
    traversals_are_ordered(parents, roots(parents));
}

/// Every entry of the flattened stack is a place of the stack.
pub proof fn flat_order_is_in_range(parents: Seq<Option<int>>, k: int)
    requires
        parents_ok(parents),
        0 <= k < flat_order(parents).len(),
    ensures
        0 <= flat_order(parents)[k] < parents.len(),
{
    roots_are_roots(parents);
    traversals_are_ordered(parents, roots(parents));
}

/// In the flattened stack a request comes after the request it merges
/// into: the parent of the entry at `k` stands before `k`.
pub proof fn flat_order_puts_parent_first(parents: Seq<Option<int>>, k: int)
    requires
        parents_ok(parents),
        0 <= k < flat_order(parents).len(),
    ensures
        parents[flat_order(parents)[k]] matches Some(p) ==> exists|j: int|
            0 <= j < k && #[trigger] flat_order(parents)[j] == p,
{
    roots_are_roots(parents);
    traversals_are_ordered(parents, roots(parents));
}

/// The traversal of a root holds every request that leads to the root by
/// its parents.
pub proof fn traversal_holds_descendants(parents: Seq<Option<int>>, root: int, i: int, steps: nat)
    requires
        parents_ok(parents),
        is_root(parents, root),
        reaches(parents, i, root, steps),
    ensures
        traversal(parents, root).contains(i),
    decreases steps,
{
    let visited = traversal(parents, root);
    traversal_is_walk(parents, root);
    if steps == 0 {
        assert(visited[0] == i);
    } else {
        let p = parents[i]->0;
        traversal_holds_descendants(parents, root, p, (steps - 1) as nat);
        let j = choose|j: int| 0 <= j < visited.len() && visited[j] == p;
        assert(parents[i] == Some(visited[j]));
    }
}

/// The flattened stack holds every request that leads to a root by its
/// parents: in a stack without a cycle, every request.
pub proof fn flat_order_holds_rooted(parents: Seq<Option<int>>, i: int, root: int, steps: nat)
    requires
        parents_ok(parents),
        is_root(parents, root),
        reaches(parents, i, root, steps),
    ensures
        flat_order(parents).contains(i),
{
    traversal_holds_descendants(parents, root, i, steps);
    roots_are_roots(parents);
    assert(roots(parents).contains(root));
    let m = choose|m: int| 0 <= m < roots(parents).len() && roots(parents)[m] == root;
    traversals_hold_each(parents, roots(parents), i);
}

/// A request without a parent is in the flattened stack.
pub proof fn flat_order_holds_roots(parents: Seq<Option<int>>, root: int)
    requires
        parents_ok(parents),
        is_root(parents, root),
    ensures
        flat_order(parents).contains(root),
{
    flat_order_holds_rooted(parents, root, root, 0);
}

/// Whether the stack is a chain in the order of its requests: the first
/// request has no parent, and each other request has the one before it.
pub open spec fn is_chain(parents: Seq<Option<int>>) -> bool {
    forall|i: int|
        0 <= i < parents.len() ==> #[trigger] parents[i] == if i == 0 {
            None::<int>
        } else {
            Some(i - 1)
        }
}

/// In a chain the only child of a request is the next one.
pub proof fn chain_children(parents: Seq<Option<int>>, p: int, k: int)
    requires
        is_chain(parents),
        0 <= p,
        0 <= k <= parents.len(),
    ensures
        children_below(parents, p, k) == if p + 1 < k {
            seq![p + 1]
        } else {
            Seq::<int>::empty()
        },
    decreases k,
{
    if k > 0 {
        chain_children(parents, p, k - 1);
        if parents[k - 1] == Some(p) {
            assert(seq![k - 1] + Seq::<int>::empty() =~= seq![p + 1]);
        }
    }
}

/// In a chain the only root is the first request.
pub proof fn chain_roots(parents: Seq<Option<int>>, k: int)
    requires
        is_chain(parents),
        0 <= k <= parents.len(),
    ensures
        roots_below(parents, k) == if k > 0 {
            seq![0int]
        } else {
            Seq::<int>::empty()
        },
    decreases k,
{
    if k > 0 {
        chain_roots(parents, k - 1);
        if k == 1 {
            assert(Seq::<int>::empty().push(0) =~= seq![0int]);
        }
    }
}

/// In a chain the walk from a request visits the requests from it on, in
/// their order.
pub proof fn chain_walk(parents: Seq<Option<int>>, i: int, budget: nat)
    requires
        is_chain(parents),
        0 <= i < parents.len(),
        budget >= parents.len() - i,
    ensures
        breadth_first(parents, seq![i], budget) == Seq::new((parents.len() - i) as nat, |k: int| i + k),
    decreases parents.len() - i,
{
    let n = parents.len() as int;
    chain_children(parents, i, n);
    let queue = seq![i].skip(1) + children(parents, i);
    let rest = breadth_first(parents, queue, (budget - 1) as nat);
    if i + 1 < n {
        assert(queue =~= seq![i + 1]);
        chain_walk(parents, i + 1, (budget - 1) as nat);
    } else {
        assert(queue =~= Seq::<int>::empty());
    }
    assert(seq![i] + rest =~= Seq::new((n - i) as nat, |k: int| i + k));
}

/// The traversals of a single root are its traversal.
pub proof fn traversals_of_one(parents: Seq<Option<int>>, root: int)
    ensures
        traversals(parents, seq![root]) == traversal(parents, root),
{
    let none = Seq::<int>::empty();
    assert(seq![root].drop_last() =~= none);
    assert(traversals(parents, none) =~= none);
    assert(none + traversal(parents, root) =~= traversal(parents, root));
}

/// A chain is flattened in the order of its requests.
pub proof fn chain_flattens_in_order(parents: Seq<Option<int>>)
    requires
        is_chain(parents),
    ensures
        flat_order(parents) == Seq::new(parents.len(), |k: int| k),
{
    let n = parents.len() as int;
    chain_roots(parents, n);
    if n > 0 {
        chain_walk(parents, 0, parents.len());
        traversals_of_one(parents, 0);
        assert(flat_order(parents) =~= Seq::new(parents.len(), |k: int| k));
    } else {
        assert(flat_order(parents) =~= Seq::new(parents.len(), |k: int| k));
    }
}

/// A stack with two roots is flattened as the traversal of the first root
/// followed by that of the second. Each of the two starts with its root and
/// puts parents first, as [`traversal_is_walk`] says.
pub proof fn two_roots_flatten_one_after_the_other(parents: Seq<Option<int>>, one: int, other: int)
    requires
        roots(parents) == seq![one, other],
    ensures
        flat_order(parents) == traversal(parents, one) + traversal(parents, other),
{
    let both = seq![one, other];
    assert(both.drop_last() =~= seq![one]);
    traversals_of_one(parents, one);
}

} // verus!
