//! The dependency graph of a stack of pull requests, and its flattening into
//! an ordered list.

use crate::api::pull_request::PullRequest;
use crate::api::pull_request::PullRequestStatus;
use crate::api::pull_request::RequestSnapshot;
use crate::digraph::edges_within;
use crate::digraph::graph_add_edge;
use crate::digraph::graph_add_node;
use crate::digraph::graph_edges;
use crate::digraph::graph_incoming;
use crate::digraph::graph_new;
use crate::digraph::graph_nodes;
use crate::digraph::graph_roots;
use crate::digraph::indices;
use crate::digraph::is_target;
use crate::digraph::predecessors;
use crate::digraph::sources;
use crate::digraph::successors;
use crate::digraph::unseen_are_fresh;
use crate::digraph::walk_capacity;
use crate::digraph::walk_new;
use crate::digraph::walk_next;
use crate::digraph::walk_queue;
use crate::digraph::walk_seen;
use crate::digraph::RequestGraph;
use crate::text::decimal;
use crate::text::strings_view;
use crate::text::to_decimal;
use crate::traversal::breadth_first;
use crate::traversal::children;
use crate::traversal::chain_flattens_in_order;
use crate::traversal::children_below;
use crate::traversal::distinct_below_are_few;
use crate::traversal::flat_order;
use crate::traversal::flat_order_has_no_duplicates;
use crate::traversal::flat_order_holds_rooted;
use crate::traversal::flat_order_is_in_range;
use crate::traversal::flat_order_puts_parent_first;
use crate::traversal::reaches;
use crate::traversal::is_root;
use crate::traversal::parents_ok;
use crate::traversal::roots;
use crate::traversal::roots_are_roots;
use crate::traversal::roots_below;
use crate::traversal::traversal;
use crate::traversal::traversals;
use crate::traversal::walk_inv;
use crate::traversal::walk_starts;
use crate::traversal::walk_step;
use std::rc::Rc;
use vstd::hash_map::StringHashMap;
use vstd::prelude::*;
use vstd::seq_lib::lemma_seq_concat_contains_all_elements;

verus! {

/// A flattened stack: each request with the request it merges into, if that
/// one belongs to the stack too.
pub type FlatDep = Vec<(Rc<PullRequest>, Option<Rc<PullRequest>>)>;

/// Calls `Rc::clone`, which hands out one more pointer to the same value; the
/// contract says that the two point at equal values.
#[verifier::external_body]
pub(crate) fn share(request: &Rc<PullRequest>) -> (shared: Rc<PullRequest>)
    ensures
        shared == *request,
{
    request.clone()
}

/// What one entry of a [`FlatDep`] holds.
pub struct Dependency {
    pub request: RequestSnapshot,
    pub parent: Option<RequestSnapshot>,
}

/// What the entry `entry` of a flattened stack holds.
pub open spec fn dependency(entry: (Rc<PullRequest>, Option<Rc<PullRequest>>)) -> Dependency {
    Dependency {
        request: entry.0@,
        parent: match entry.1 {
            Some(parent) => Some(parent@),
            None => None,
        },
    }
}

/// What a flattened stack holds, entry by entry.
pub open spec fn flat_view(deps: Seq<(Rc<PullRequest>, Option<Rc<PullRequest>>)>) -> Seq<Dependency> {
    Seq::new(deps.len(), |i: int| dependency(deps[i]))
}

/// What a sequence of requests holds, request by request.
pub open spec fn snapshots(requests: Seq<Rc<PullRequest>>) -> Seq<RequestSnapshot> {
    Seq::new(requests.len(), |i: int| requests[i]@)
}

/// The place of the last request whose head is the branch `name`.
pub open spec fn last_with_head(requests: Seq<RequestSnapshot>, name: Seq<char>) -> Option<int>
    decreases requests.len(),
{
    if requests.len() == 0 {
        None
    } else if requests.last().head.gitref == name {
        Some(requests.len() - 1)
    } else {
        last_with_head(requests.drop_last(), name)
    }
}

/// The place of the request that the request at `i` merges into: that of
/// another request whose head is the base of this one. Where several
/// requests share that head, the last of them counts; where this request
/// is itself that one, it has no parent.
pub open spec fn parent_of(requests: Seq<RequestSnapshot>, i: int) -> Option<int> {
    match last_with_head(requests, requests[i].base.gitref) {
        Some(p) => if p != i {
            Some(p)
        } else {
            None
        },
        None => None,
    }
}

/// The parent of each request, by its place.
pub open spec fn parents(requests: Seq<RequestSnapshot>) -> Seq<Option<int>> {
    Seq::new(requests.len(), |i: int| parent_of(requests, i))
}

/// The edges of the first `k` requests: for each that has a parent, in
/// their order, the edge from the parent to the request.
pub open spec fn edges_below(requests: Seq<RequestSnapshot>, k: int) -> Seq<(int, int)>
    decreases k,
{
    if k <= 0 {
        Seq::empty()
    } else {
        match parent_of(requests, k - 1) {
            Some(p) => edges_below(requests, k - 1).push((p, k - 1)),
            None => edges_below(requests, k - 1),
        }
    }
}

/// The edges of the graph of a stack.
pub open spec fn dependency_edges(requests: Seq<RequestSnapshot>) -> Seq<(int, int)> {
    edges_below(requests, requests.len() as int)
}

/// The entry of the flattened stack for the request at `i`.
pub open spec fn entry(requests: Seq<RequestSnapshot>, i: int) -> Dependency {
    Dependency {
        request: requests[i],
        parent: match parent_of(requests, i) {
            Some(p) => Some(requests[p]),
            None => None,
        },
    }
}

/// The entries for the requests at the places `order`.
pub open spec fn entries(requests: Seq<RequestSnapshot>, order: Seq<int>) -> Seq<Dependency> {
    Seq::new(order.len(), |k: int| entry(requests, order[k]))
}

/// The flattened stack: for each root in the order of the requests, the
/// requests that it reaches, breadth first, each with its parent.
pub open spec fn flattened(requests: Seq<RequestSnapshot>) -> Seq<Dependency> {
    entries(requests, flat_order(parents(requests)))
}

/// [`last_with_head`] finds a request with that head that no such request
/// follows, and finds none only where there is none.
pub proof fn last_with_head_is_last(requests: Seq<RequestSnapshot>, name: Seq<char>)
    ensures
        match last_with_head(requests, name) {
            Some(j) => {
                &&& 0 <= j < requests.len()
                &&& requests[j].head.gitref == name
                &&& forall|k: int| j < k < requests.len() ==> (#[trigger] requests[k]).head.gitref != name
            },
            None => forall|k: int| 0 <= k < requests.len() ==> (#[trigger] requests[k]).head.gitref != name,
        },
    decreases requests.len(),
{
    if requests.len() > 0 {
        last_with_head_is_last(requests.drop_last(), name);
        assert(forall|k: int| 0 <= k < requests.len() - 1 ==> requests.drop_last()[k] == requests[k]);
    }
}

/// With one more request, the last request with a head is the new one
/// where it has that head, and the one before otherwise.
pub proof fn last_with_head_step(requests: Seq<RequestSnapshot>, i: int, name: Seq<char>)
    requires
        0 <= i < requests.len(),
    ensures
        last_with_head(requests.take(i + 1), name) == if requests[i].head.gitref == name {
            Some(i)
        } else {
            last_with_head(requests.take(i), name)
        },
{
    assert(requests.take(i + 1).drop_last() =~= requests.take(i));
}

/// The parents of a stack are a parent relation.
pub proof fn parents_are_ok(requests: Seq<RequestSnapshot>)
    ensures
        parents_ok(parents(requests)),
        parents(requests).len() == requests.len(),
{
    assert forall|i: int| 0 <= i < requests.len() implies match #[trigger] parents(requests)[i] {
        Some(p) => 0 <= p < requests.len() && p != i,
        None => true,
    } by {
        last_with_head_is_last(requests, requests[i].base.gitref);
    }
}

/// A request whose base is the head of no other request has no parent: it
/// is a root, whatever its base is called.
pub proof fn unmatched_base_is_root(requests: Seq<RequestSnapshot>, i: int)
    requires
        0 <= i < requests.len(),
        forall|j: int|
            0 <= j < requests.len() && j != i ==> (#[trigger] requests[j]).head.gitref
                != requests[i].base.gitref,
    ensures
        parent_of(requests, i) is None,
        is_root(parents(requests), i),
        roots(parents(requests)).contains(i),
{
    last_with_head_is_last(requests, requests[i].base.gitref);
    roots_are_roots(parents(requests));
}

/// A request has a parent only where the head of that parent, another
/// request, is its base.
pub proof fn parent_has_matching_head(requests: Seq<RequestSnapshot>, i: int)
    requires
        0 <= i < requests.len(),
    ensures
        parent_of(requests, i) matches Some(p) ==> 0 <= p < requests.len() && p != i
            && requests[p].head.gitref == requests[i].base.gitref,
{
    last_with_head_is_last(requests, requests[i].base.gitref);
}

/// Where no two requests share a head, a request whose base is the head of
/// another request has that request as its parent.
pub proof fn matching_head_is_parent(requests: Seq<RequestSnapshot>, i: int, p: int)
    requires
        0 <= i < requests.len(),
        0 <= p < requests.len(),
        p != i,
        requests[p].head.gitref == requests[i].base.gitref,
        forall|j: int, k: int|
            0 <= j < k < requests.len() ==> (#[trigger] requests[j]).head.gitref
                != (#[trigger] requests[k]).head.gitref,
    ensures
        parent_of(requests, i) == Some(p),
{
    last_with_head_is_last(requests, requests[i].base.gitref);
}

/// What the edges of the first `k` requests are to the graph: the edges
/// that leave a request lead to its children, those that enter it come
/// from its parent, and all of them join requests of the stack.
pub proof fn edges_follow_parents(requests: Seq<RequestSnapshot>, k: int)
    requires
        0 <= k <= requests.len(),
    ensures
        forall|p: int| #[trigger]
            successors(edges_below(requests, k), p) == children_below(parents(requests), p, k),
        forall|i: int| #[trigger]
            predecessors(edges_below(requests, k), i) == if 0 <= i < k {
                match parents(requests)[i] {
                    Some(p) => seq![p],
                    None => Seq::<int>::empty(),
                }
            } else {
                Seq::<int>::empty()
            },
        forall|i: int| #[trigger]
            is_target(edges_below(requests, k), i) <==> 0 <= i < k && parents(requests)[i] is Some,
        edges_within(edges_below(requests, k), requests.len() as int),
        edges_below(requests, k).len() <= k,
    decreases k,
{
    let here = edges_below(requests, k);
    if k > 0 {
        edges_follow_parents(requests, k - 1);
        parents_are_ok(requests);
        let before = edges_below(requests, k - 1);
        match parent_of(requests, k - 1) {
            Some(q) => {
                assert(here == before.push((q, k - 1)));
                assert(here.drop_last() =~= before);
                assert(here.last() == (q, k - 1));
                assert forall|p: int| #[trigger]
                    successors(here, p) == children_below(parents(requests), p, k) by {
                    assert(successors(before, p) == children_below(parents(requests), p, k - 1));
                }
                assert forall|i: int| #[trigger]
                    predecessors(here, i) == if 0 <= i < k {
                        match parents(requests)[i] {
                            Some(p) => seq![p],
                            None => Seq::<int>::empty(),
                        }
                    } else {
                        Seq::<int>::empty()
                    } by {
                    let earlier = predecessors(before, i);
                    if i == k - 1 {
                        assert(seq![q] + earlier =~= seq![q]);
                    }
                }
                assert forall|i: int| #[trigger]
                    is_target(here, i) <==> 0 <= i < k && parents(requests)[i] is Some by {
                    if is_target(here, i) {
                        let m = choose|m: int| 0 <= m < here.len() && (#[trigger] here[m]).1 == i;
                        if m < before.len() {
                            assert(before[m].1 == i);
                            assert(is_target(before, i));
                        }
                    }
                    if 0 <= i < k && parents(requests)[i] is Some {
                        if i == k - 1 {
                            assert(here[here.len() - 1].1 == i);
                        } else {
                            assert(is_target(before, i));
                            let m = choose|m: int| 0 <= m < before.len() && (#[trigger] before[m]).1 == i;
                            assert(here[m].1 == i);
                        }
                    }
                }
                assert(parents(requests)[k - 1] == Some(q));
            },
            None => {
                assert(here == before);
                assert(parents(requests)[k - 1] is None);
                assert forall|i: int| #[trigger]
                    is_target(here, i) <==> 0 <= i < k && parents(requests)[i] is Some by {
                    assert(is_target(before, i) <==> 0 <= i < k - 1 && parents(requests)[i] is Some);
                }
            },
        }
    } else {
        assert forall|i: int| !(#[trigger] is_target(here, i)) by {}
    }
}

/// The nodes of the graph of a stack that no edge enters are its roots.
pub proof fn sources_are_roots(requests: Seq<RequestSnapshot>, k: int)
    requires
        0 <= k <= requests.len(),
    ensures
        sources(dependency_edges(requests), k) == roots_below(parents(requests), k),
    decreases k,
{
    if k > 0 {
        sources_are_roots(requests, k - 1);
        edges_follow_parents(requests, requests.len() as int);
        assert(is_target(dependency_edges(requests), k - 1) <==> parents(requests)[k - 1] is Some);
    }
}

/// Whether the request at `i` is based on the head of the one before it.
pub open spec fn is_stacked_on_previous(requests: Seq<RequestSnapshot>, i: int) -> bool {
    requests[i].base.gitref == requests[i - 1].head.gitref
}

/// Whether the requests are a chain in their order: no two share a head,
/// each but the first is based on the head of the one before it, and the
/// first is based on a branch that is the head of none.
pub open spec fn is_stacked_chain(requests: Seq<RequestSnapshot>) -> bool {
    &&& forall|i: int, j: int|
        0 <= i < j < requests.len() ==> (#[trigger] requests[i]).head.gitref
            != (#[trigger] requests[j]).head.gitref
    &&& forall|i: int| 0 < i < requests.len() ==> #[trigger] is_stacked_on_previous(requests, i)
    &&& forall|j: int|
        0 <= j < requests.len() ==> (#[trigger] requests[j]).head.gitref
            != requests[0].base.gitref
}

/// In a chain of requests the first has no parent, and each other request
/// has the one before it.
pub proof fn chain_parent(requests: Seq<RequestSnapshot>, i: int)
    requires
        is_stacked_chain(requests),
        0 <= i < requests.len(),
    ensures
        parent_of(requests, i) == if i == 0 {
            None::<int>
        } else {
            Some(i - 1)
        },
{
    if i == 0 {
        last_with_head_is_last(requests, requests[0].base.gitref);
    } else {
        assert(is_stacked_on_previous(requests, i));
        matching_head_is_parent(requests, i, i - 1);
    }
}

/// A chain of requests is flattened in its order, the first request
/// without a parent and each other request with the one before it.
pub proof fn chain_is_flattened_in_order(requests: Seq<RequestSnapshot>)
    requires
        is_stacked_chain(requests),
    ensures
        flattened(requests) == Seq::new(
            requests.len(),
            |k: int|
                Dependency {
                    request: requests[k],
                    parent: if k == 0 {
                        None
                    } else {
                        Some(requests[k - 1])
                    },
                },
        ),
{
    let relation = parents(requests);
    let order = flat_order(relation);
    let wanted = Seq::new(
        requests.len(),
        |k: int|
            Dependency {
                request: requests[k],
                parent: if k == 0 {
                    None
                } else {
                    Some(requests[k - 1])
                },
            },
    );
    assert forall|i: int| 0 <= i < relation.len() implies #[trigger] relation[i] == if i == 0 {
        None::<int>
    } else {
        Some(i - 1)
    } by {
        chain_parent(requests, i);
    }
    chain_flattens_in_order(relation);
    assert(order.len() == requests.len());
    assert forall|k: int| 0 <= k < requests.len() implies #[trigger] flattened(requests)[k]
        == wanted[k] by {
        chain_parent(requests, k);
        assert(order[k] == k);
    }
    assert(flattened(requests) =~= wanted);
}

/// In the flattened stack a request stands after the request it merges
/// into: the parent of the entry at `k` is the request of an entry before
/// `k`.
pub proof fn flattened_puts_parent_first(requests: Seq<RequestSnapshot>, k: int)
    requires
        0 <= k < flattened(requests).len(),
    ensures
        flattened(requests)[k].parent matches Some(parent) ==> exists|j: int|
            0 <= j < k && (#[trigger] flattened(requests)[j]).request == parent,
{
    let relation = parents(requests);
    let order = flat_order(relation);
    parents_are_ok(requests);
    flat_order_puts_parent_first(relation, k);
    flat_order_is_in_range(relation, k);
    if let Some(p) = relation[order[k]] {
        let j = choose|j: int| 0 <= j < k && #[trigger] order[j] == p;
        assert(flattened(requests)[j].request == requests[p]);
    }
}

/// The flattened stack lists no request twice: its entries stand for
/// distinct places of the stack, so that it has at most as many entries as
/// the stack has requests.
pub proof fn flattened_lists_no_request_twice(requests: Seq<RequestSnapshot>)
    ensures
        flat_order(parents(requests)).no_duplicates(),
        flattened(requests).len() == flat_order(parents(requests)).len(),
        flattened(requests).len() <= requests.len(),
{
    let relation = parents(requests);
    let order = flat_order(relation);
    parents_are_ok(requests);
    flat_order_has_no_duplicates(relation);
    assert forall|k: int| 0 <= k < order.len() implies 0 <= #[trigger] order[k] < requests.len() by {
        flat_order_is_in_range(relation, k);
    }
    distinct_below_are_few(order, requests.len() as int);
}

/// The flattened stack lists every request that leads to a root by the
/// requests it merges into, one after the other.
pub proof fn flattened_lists_rooted_requests(
    requests: Seq<RequestSnapshot>,
    i: int,
    root: int,
    steps: nat,
)
    requires
        0 <= i < requests.len(),
        is_root(parents(requests), root),
        reaches(parents(requests), i, root, steps),
    ensures
        exists|k: int|
            0 <= k < flattened(requests).len() && #[trigger] flattened(requests)[k] == entry(
                requests,
                i,
            ),
{
    let relation = parents(requests);
    let order = flat_order(relation);
    parents_are_ok(requests);
    flat_order_holds_rooted(relation, i, root, steps);
    let k = choose|k: int| 0 <= k < order.len() && order[k] == i;
    assert(flattened(requests)[k] == entry(requests, i));
}

/// A request whose base is the head of no other request is listed in the
/// flattened stack, without a parent.
pub proof fn flattened_lists_unmatched_as_root(requests: Seq<RequestSnapshot>, i: int)
    requires
        0 <= i < requests.len(),
        forall|j: int|
            0 <= j < requests.len() && j != i ==> (#[trigger] requests[j]).head.gitref
                != requests[i].base.gitref,
    ensures
        exists|k: int|
            0 <= k < flattened(requests).len() && #[trigger] flattened(requests)[k] == (Dependency {
                request: requests[i],
                parent: None,
            }),
{
    unmatched_base_is_root(requests, i);
    flattened_lists_rooted_requests(requests, i, i, 0);
}

/// The entries for an order that is extended by one place.
pub proof fn entries_push(requests: Seq<RequestSnapshot>, order: Seq<int>, i: int)
    ensures
        entries(requests, order.push(i)) == entries(requests, order).push(entry(requests, i)),
{
    assert(entries(requests, order.push(i)) =~= entries(requests, order).push(entry(requests, i)));
}

/// The graph of a stack: its requests, and for each request that merges
/// into another request of the stack an edge from that one to it.
pub struct StackGraph {
    requests: Vec<Rc<PullRequest>>,
    tree: RequestGraph,
}

/// What a [`StackGraph`] holds.
#[verifier::ext_equal]
pub struct StackGraphView {
    /// The requests, in the order in which they were given.
    pub nodes: Seq<RequestSnapshot>,
    /// The edges, each from the place of a parent to the place of its child.
    pub edges: Seq<(int, int)>,
}

impl View for StackGraph {
    type V = StackGraphView;

    closed spec fn view(&self) -> StackGraphView {
        StackGraphView {
            nodes: snapshots(self.requests@),
            edges: dependency_edges(snapshots(self.requests@)),
        }
    }
}

/// A graph holds the edges of its requests, and no others.
pub proof fn graph_holds_dependency_edges(graph: StackGraph)
    ensures
        graph@.edges == dependency_edges(graph@.nodes),
{
}

impl StackGraph {
    #[verifier::type_invariant]
    closed spec fn inv(&self) -> bool {
        &&& graph_nodes(self.tree).len() == self.requests@.len()
        &&& graph_edges(self.tree) == dependency_edges(snapshots(self.requests@))
    }

    /// The number of requests of the stack.
    pub fn len(&self) -> (count: usize)
        ensures
            count == self@.nodes.len(),
    {
        self.requests.len()
    }

    /// The places of the roots of the stack, in rising order: those of the
    /// requests that merge into no other request of the stack.
    pub fn roots(&self) -> (places: Vec<usize>)
        ensures
            indices(places@) == roots(parents(self@.nodes)),
    {
        proof {
            use_type_invariant(self);
            sources_are_roots(self@.nodes, self@.nodes.len() as int);
        }
        graph_roots(&self.tree)
    }

    /// The place of the request that the request at `place` merges into.
    /// A place beyond the stack has no parent.
    pub fn parent(&self, place: usize) -> (parent: Option<usize>)
        ensures
            match parent {
                Some(p) => place < self@.nodes.len() && parent_of(self@.nodes, place as int) == Some(
                    p as int,
                ),
                None => place >= self@.nodes.len() || parent_of(self@.nodes, place as int) is None,
            },
    {
        if place >= self.requests.len() {
            return None;
        }
        proof {
            use_type_invariant(self);
            edges_follow_parents(self@.nodes, self@.nodes.len() as int);
        }
        let from = graph_incoming(&self.tree, place);
        proof {
            let edges = edges_below(self@.nodes, self@.nodes.len() as int);
            assert(indices(from@) == predecessors(edges, place as int));
            assert(parents(self@.nodes)[place as int] == parent_of(self@.nodes, place as int));
        }
        if from.len() > 0 {
            assert(indices(from@)[0] == from@[0]);
            Some(from[0])
        } else {
            None
        }
    }
}

/// Builds the graph of the requests `prs`: a request becomes the child of
/// the request whose head is its base. A request whose base is the head of
/// no other request is a root.
pub fn build(prs: &[Rc<PullRequest>]) -> (graph: StackGraph)
    requires
        prs@.len() < u32::MAX,
    ensures
        graph@.nodes == snapshots(prs@),
        graph@.edges == dependency_edges(snapshots(prs@)),
{
    let ghost nodes = snapshots(prs@);
    let mut tree = graph_new();
    let mut by_head: StringHashMap<usize> = StringHashMap::new();
    let mut requests: Vec<Rc<PullRequest>> = Vec::new();
    let mut i: usize = 0;
    while i < prs.len()
        invariant
            i <= prs.len(),
            prs@.len() < u32::MAX,
            nodes == snapshots(prs@),
            requests@ == prs@.take(i as int),
            graph_nodes(tree).len() == i,
            graph_edges(tree) == Seq::<(int, int)>::empty(),
            forall|name: Seq<char>|
                match #[trigger] last_with_head(nodes.take(i as int), name) {
                    Some(j) => by_head@.contains_key(name) && by_head@[name] == j,
                    None => !by_head@.contains_key(name),
                },
        decreases prs.len() - i,
    {
        let handle = graph_add_node(&mut tree, i);
        let ghost before = by_head@;
        by_head.insert(prs[i].head().to_owned(), handle);
        requests.push(share(&prs[i]));
        proof {
            assert(requests@ =~= prs@.take(i as int + 1));
            assert forall|name: Seq<char>|
                match #[trigger] last_with_head(nodes.take(i as int + 1), name) {
                    Some(j) => by_head@.contains_key(name) && by_head@[name] == j,
                    None => !by_head@.contains_key(name),
                } by {
                last_with_head_step(nodes, i as int, name);
                assert(last_with_head(nodes.take(i as int), name) is Some ==> before.contains_key(name));
            }
        }
        i += 1;
    }
    assert(nodes.take(prs.len() as int) =~= nodes);
    assert(requests@ =~= prs@);
    let mut i: usize = 0;
    while i < prs.len()
        invariant
            i <= prs.len(),
            prs@.len() < u32::MAX,
            nodes == snapshots(prs@),
            requests@ == prs@,
            graph_nodes(tree).len() == prs@.len(),
            graph_edges(tree) == edges_below(nodes, i as int),
            forall|name: Seq<char>|
                match #[trigger] last_with_head(nodes, name) {
                    Some(j) => by_head@.contains_key(name) && by_head@[name] == j,
                    None => !by_head@.contains_key(name),
                },
        decreases prs.len() - i,
    {
        proof {
            edges_follow_parents(nodes, i as int);
            last_with_head_is_last(nodes, nodes[i as int].base.gitref);
        }
        let ghost found = last_with_head(nodes, nodes[i as int].base.gitref);
        match by_head.get(prs[i].base()) {
            Some(parent) => {
                let p: usize = *parent;
                assert(found == Some(p as int));
                if p != i {
                    graph_add_edge(&mut tree, p, i, 1);
                }
            },
            None => {
                assert(found is None);
            },
        }
        i += 1;
    }
    let graph = StackGraph { requests, tree };
    assert(graph@ =~= (StackGraphView { nodes, edges: dependency_edges(nodes) }));
    graph
}

/// Flattens the graph into a list: each tuple holds a request and the
/// request it merges into, if there is one. The roots are taken in the
/// order of the requests; what each reaches follows it breadth first,
/// so that a request never stands before the request it merges into.
pub fn log(graph: &StackGraph) -> (out: FlatDep)
    ensures
        flat_view(out@) == flattened(graph@.nodes),
{
    proof {
        use_type_invariant(graph);
    }
    let ghost nodes = graph@.nodes;
    let ghost relation = parents(nodes);
    let ghost count = nodes.len() as int;
    let ghost edges = graph_edges(graph.tree);
    proof {
        parents_are_ok(nodes);
        roots_are_roots(relation);
        sources_are_roots(nodes, count);
        edges_follow_parents(nodes, count);
    }
    let tops = graph_roots(&graph.tree);
    let ghost starts = indices(tops@);
    let mut out: FlatDep = Vec::new();
    assert(flat_view(out@) =~= entries(nodes, traversals(relation, starts.take(0))));
    let mut r: usize = 0;
    while r < tops.len()
        invariant
            r <= tops.len(),
            nodes == graph@.nodes,
            nodes == snapshots(graph.requests@),
            relation == parents(nodes),
            count == nodes.len(),
            count == graph_nodes(graph.tree).len(),
            edges == graph_edges(graph.tree),
            edges == dependency_edges(nodes),
            parents_ok(relation),
            relation.len() == count,
            starts == indices(tops@),
            starts == roots(relation),
            forall|i: int| 0 <= i < starts.len() ==> is_root(relation, #[trigger] starts[i]),
            edges_within(edges, count),
            forall|p: int| #[trigger] successors(edges, p) == children(relation, p),
            forall|i: int|
                0 <= i < count ==> #[trigger] predecessors(edges, i) == match relation[i] {
                    Some(p) => seq![p],
                    None => Seq::<int>::empty(),
                },
            flat_view(out@) == entries(nodes, traversals(relation, starts.take(r as int))),
        decreases tops.len() - r,
    {
        let root = tops[r];
        assert(starts[r as int] == root);
        let mut walk = walk_new(&graph.tree, root);
        let ghost before = traversals(relation, starts.take(r as int));
        let ghost mut all = seq![root as int];
        let ghost mut done = 0int;
        proof {
            walk_starts(relation, root as int);
            assert(all.skip(0) =~= all);
            assert(all.to_set() =~= set![root as int]);
            assert(before + all.take(0) =~= before);
        }
        loop
            invariant
                nodes == graph@.nodes,
                nodes == snapshots(graph.requests@),
                relation == parents(nodes),
                count == nodes.len(),
                count == graph_nodes(graph.tree).len(),
                edges == graph_edges(graph.tree),
                parents_ok(relation),
                relation.len() == count,
                is_root(relation, root as int),
                edges_within(edges, count),
                forall|p: int| #[trigger] successors(edges, p) == children(relation, p),
                forall|i: int|
                    0 <= i < count ==> #[trigger] predecessors(edges, i) == match relation[i] {
                        Some(p) => seq![p],
                        None => Seq::<int>::empty(),
                    },
                walk_inv(relation, root as int, all, done),
                done <= count,
                walk_queue(walk) == all.skip(done),
                walk_seen(walk) == all.to_set(),
                walk_capacity(walk) == count,
                traversal(relation, root as int) == all.take(done) + breadth_first(
                    relation,
                    all.skip(done),
                    (count - done) as nat,
                ),
                flat_view(out@) == entries(nodes, before + all.take(done)),
            ensures
                flat_view(out@) == entries(nodes, before + traversal(relation, root as int)),
            decreases count - done,
        {
            match walk_next(&mut walk, &graph.tree) {
                None => {
                    proof {
                        assert(all.skip(done).len() == 0);
                        assert(all.take(done) + Seq::<int>::empty() =~= all.take(done));
                    }
                    break ;
                },
                Some(node) => {
                    proof {
                        assert(all.skip(done).len() > 0);
                        assert(all.skip(done)[0] == all[done]);
                        walk_step(relation, root as int, all, done);
                    }
                    let from = graph_incoming(&graph.tree, node);
                    let parent = if from.len() > 0 {
                        assert(indices(from@)[0] == from@[0]);
                        Some(share(&graph.requests[from[0]]))
                    } else {
                        None
                    };
                    let ghost listed = out@;
                    out.push((share(&graph.requests[node]), parent));
                    proof {
                        let found = children(relation, node as int);
                        let grown = all + found;
                        assert forall|k: int| 0 <= k < found.len() implies !all.to_set().contains(
                            #[trigger] found[k],
                        ) by {
                            assert(found.contains(found[k]));
                        }
                        unseen_are_fresh(found, all.to_set());
                        assert(grown.skip(done + 1) =~= all.skip(done).skip(1) + found);
                        assert(grown.to_set() =~= all.to_set().union(found.to_set())) by {
                            assert forall|v: int| grown.to_set().contains(v) <==> all.to_set().union(
                                found.to_set(),
                            ).contains(v) by {
                                lemma_seq_concat_contains_all_elements(all, found, v);
                            }
                        }
                        assert(grown.take(done + 1) =~= all.take(done).push(node as int));
                        let rest = breadth_first(relation, grown.skip(done + 1), (count - done - 1) as nat);
                        assert(breadth_first(relation, all.skip(done), (count - done) as nat) == seq![
                            node as int,
                        ] + rest);
                        assert(all.take(done) + (seq![node as int] + rest) =~= grown.take(done + 1) + rest);
                        assert(before + grown.take(done + 1) =~= (before + all.take(done)).push(node as int));
                        entries_push(nodes, before + all.take(done), node as int);
                        assert(dependency(out@[listed.len() as int]) == entry(nodes, node as int)) by {
                            assert(indices(from@) == predecessors(edges, node as int));
                            assert(relation[node as int] == parent_of(nodes, node as int));
                        }
                        assert(flat_view(out@) =~= flat_view(listed).push(entry(nodes, node as int)));
                        all = grown;
                        done = done + 1;
                    }
                },
            }
        }
        proof {
            assert(starts.take(r as int + 1).drop_last() =~= starts.take(r as int));
            assert(starts.take(r as int + 1).last() == root);
        }
        r += 1;
    }
    assert(starts.take(tops.len() as int) =~= starts);
    out
}

/// Whether the request is among those to leave out: `excluded` names them
/// by their numbers, written in base ten.
pub open spec fn is_excluded(request: RequestSnapshot, excluded: Seq<Seq<char>>) -> bool {
    excluded.contains(decimal(request.number))
}

/// The requests that are not left out, in their order.
pub open spec fn without_excluded(requests: Seq<RequestSnapshot>, excluded: Seq<Seq<char>>) -> Seq<
    RequestSnapshot,
>
    decreases requests.len(),
{
    if requests.len() == 0 {
        Seq::empty()
    } else if is_excluded(requests.last(), excluded) {
        without_excluded(requests.drop_last(), excluded)
    } else {
        without_excluded(requests.drop_last(), excluded).push(requests.last())
    }
}

/// Whether `text` is one of `list`.
fn is_listed(list: &Vec<String>, text: &String) -> (listed: bool)
    ensures
        listed == strings_view(list@).contains(text@),
{
    let mut i: usize = 0;
    while i < list.len()
        invariant
            i <= list.len(),
            forall|k: int| 0 <= k < i ==> (#[trigger] strings_view(list@)[k]) != text@,
        decreases list.len() - i,
    {
        if list[i] == *text {
            assert(strings_view(list@)[i as int] == text@);
            return true;
        }
        i += 1;
    }
    false
}

/// The requests of `prs` whose number is not among `exclude`.
pub fn exclude_requests(prs: &[Rc<PullRequest>], exclude: &Vec<String>) -> (kept: Vec<Rc<PullRequest>>)
    ensures
        snapshots(kept@) == without_excluded(snapshots(prs@), strings_view(exclude@)),
        kept@.len() <= prs@.len(),
{
    let ghost all = snapshots(prs@);
    let mut kept: Vec<Rc<PullRequest>> = Vec::new();
    let mut i: usize = 0;
    assert(snapshots(kept@) =~= without_excluded(all.take(0), strings_view(exclude@)));
    while i < prs.len()
        invariant
            i <= prs.len(),
            all == snapshots(prs@),
            kept@.len() <= i,
            snapshots(kept@) == without_excluded(all.take(i as int), strings_view(exclude@)),
        decreases prs.len() - i,
    {
        assert(all.take(i as int + 1).drop_last() =~= all.take(i as int));
        let number = to_decimal(prs[i].number());
        if !is_listed(exclude, &number) {
            let ghost before = snapshots(kept@);
            kept.push(share(&prs[i]));
            assert(snapshots(kept@) =~= before.push(all[i as int]));
        }
        i += 1;
    }
    assert(all.take(prs.len() as int) =~= all);
    kept
}

/// The flattened stack of the requests `prs`, without those whose number
/// is among `exclude`.
pub fn build_pr_stack(prs: &[Rc<PullRequest>], exclude: &Vec<String>) -> (stack: FlatDep)
    requires
        prs@.len() < u32::MAX,
    ensures
        flat_view(stack@) == flattened(without_excluded(snapshots(prs@), strings_view(exclude@))),
{
    let kept = exclude_requests(prs, exclude);
    let graph = build(kept.as_slice());
    log(&graph)
}

/// The entries of a flattened stack whose request is still open, in their
/// order. Closed requests have landed already and are not replayed.
pub open spec fn open_entries(deps: Seq<Dependency>) -> Seq<Dependency>
    decreases deps.len(),
{
    if deps.len() == 0 {
        Seq::empty()
    } else if deps.last().request.state == PullRequestStatus::Open {
        open_entries(deps.drop_last()).push(deps.last())
    } else {
        open_entries(deps.drop_last())
    }
}

/// The open requests of a flattened stack, in their order.
pub open spec fn open_requests(deps: Seq<Dependency>) -> Seq<RequestSnapshot> {
    Seq::new(open_entries(deps).len(), |i: int| open_entries(deps)[i].request)
}

/// Taking one more entry of the stack adds it to the open entries exactly
/// when its request is open.
pub proof fn open_entries_step(deps: Seq<Dependency>, i: int)
    requires
        0 <= i < deps.len(),
    ensures
        open_entries(deps.take(i + 1)) == if deps[i].request.state == PullRequestStatus::Open {
            open_entries(deps.take(i)).push(deps[i])
        } else {
            open_entries(deps.take(i))
        },
{
    assert(deps.take(i + 1).drop_last() =~= deps.take(i));
}

} // verus!
