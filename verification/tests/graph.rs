use gh_stack::api::pull_request::PullRequest;
use gh_stack::api::pull_request::PullRequestRef;
use gh_stack::api::pull_request::PullRequestStatus;
use gh_stack::graph::build;
use gh_stack::graph::build_pr_stack;
use gh_stack::graph::exclude_requests;
use gh_stack::graph::log;
use gh_stack::graph::FlatDep;
use std::rc::Rc;

fn stacked(number: usize, head: &str, base: &str, state: PullRequestStatus) -> Rc<PullRequest> {
    Rc::new(PullRequest::new(
        number + 1000,
        number,
        PullRequestRef::new(&format!("owner:{}", head), head, "0000"),
        PullRequestRef::new(&format!("owner:{}", base), base, "1111"),
        &format!("Request {}", number),
        &format!("https://api.github.com/repos/owner/repo/pulls/{}", number),
        "",
        state,
        false,
    ))
}

fn open(number: usize, head: &str, base: &str) -> Rc<PullRequest> {
    stacked(number, head, base, PullRequestStatus::Open)
}

fn numbers(stack: &FlatDep) -> Vec<(usize, Option<usize>)> {
    let mut pairs = Vec::new();
    for (request, parent) in stack {
        pairs.push((request.number(), parent.as_ref().map(|p| p.number())));
    }
    pairs
}

#[test]
fn chain_is_flattened_root_first() {
    let prs = vec![open(1, "b1", "trunk"), open(2, "b2", "b1"), open(3, "b3", "b2")];
    let stack = log(&build(&prs));
    assert_eq!(numbers(&stack), vec![(1, None), (2, Some(1)), (3, Some(2))]);
}

#[test]
fn chain_given_backwards_is_flattened_root_first() {
    let prs = vec![open(3, "b3", "b2"), open(2, "b2", "b1"), open(1, "b1", "trunk")];
    let stack = log(&build(&prs));
    assert_eq!(numbers(&stack), vec![(1, None), (2, Some(1)), (3, Some(2))]);
}

#[test]
fn two_chains_are_flattened_one_after_the_other() {
    let prs = vec![
        open(1, "a1", "trunk"),
        open(10, "x1", "release"),
        open(2, "a2", "a1"),
        open(11, "x2", "x1"),
        open(3, "a3", "a2"),
    ];
    let stack = log(&build(&prs));
    assert_eq!(
        numbers(&stack),
        vec![(1, None), (2, Some(1)), (3, Some(2)), (10, None), (11, Some(10))]
    );
}

#[test]
fn roots_come_in_the_order_of_the_requests() {
    let prs = vec![open(10, "x1", "release"), open(2, "a2", "a1"), open(1, "a1", "trunk")];
    let stack = log(&build(&prs));
    assert_eq!(numbers(&stack), vec![(10, None), (1, None), (2, Some(1))]);
}

#[test]
fn unmatched_base_makes_a_root_whatever_its_name() {
    let prs = vec![
        open(1, "feature", ""),
        open(2, "other", "refs/heads/does not exist"),
        open(3, "third", "FEATURE"),
    ];
    let graph = build(&prs);
    assert_eq!(graph.roots(), vec![0, 1, 2]);
    assert_eq!(graph.parent(0), None);
    assert_eq!(graph.parent(2), None);
    let stack = log(&graph);
    assert_eq!(numbers(&stack), vec![(1, None), (2, None), (3, None)]);
}

#[test]
fn graph_tells_roots_and_parents() {
    let prs = vec![open(2, "b2", "b1"), open(1, "b1", "trunk"), open(3, "b3", "b2")];
    let graph = build(&prs);
    assert_eq!(graph.len(), 3);
    assert_eq!(graph.roots(), vec![1]);
    assert_eq!(graph.parent(0), Some(1));
    assert_eq!(graph.parent(1), None);
    assert_eq!(graph.parent(2), Some(0));
}

#[test]
fn children_follow_their_parent_breadth_first() {
    // 1 has the children 2 and 3; 2 has the child 4; 3 has the child 5.
    let prs = vec![
        open(1, "b1", "trunk"),
        open(2, "b2", "b1"),
        open(3, "b3", "b1"),
        open(4, "b4", "b2"),
        open(5, "b5", "b3"),
    ];
    let stack = log(&build(&prs));
    // Of two children the one given last is visited first.
    assert_eq!(
        numbers(&stack),
        vec![(1, None), (3, Some(1)), (2, Some(1)), (5, Some(3)), (4, Some(2))]
    );
}

#[test]
fn closed_requests_keep_their_place() {
    let prs = vec![
        stacked(1, "b1", "trunk", PullRequestStatus::Closed),
        open(2, "b2", "b1"),
        stacked(3, "b3", "b2", PullRequestStatus::Closed),
    ];
    let stack = log(&build(&prs));
    assert_eq!(numbers(&stack), vec![(1, None), (2, Some(1)), (3, Some(2))]);
}

#[test]
fn last_of_equal_heads_is_the_parent() {
    let prs = vec![open(1, "b1", "trunk"), open(2, "b1", "main"), open(3, "b3", "b1")];
    let graph = build(&prs);
    assert_eq!(graph.parent(2), Some(1));
    let stack = log(&graph);
    assert_eq!(numbers(&stack), vec![(1, None), (2, None), (3, Some(2))]);
}

#[test]
fn request_onto_its_own_head_is_a_root() {
    let prs = vec![open(1, "b1", "b1"), open(2, "b2", "b1")];
    let graph = build(&prs);
    assert_eq!(graph.roots(), vec![0]);
    let stack = log(&graph);
    assert_eq!(numbers(&stack), vec![(1, None), (2, Some(1))]);
}

#[test]
fn requests_in_a_cycle_are_not_listed() {
    let prs = vec![open(1, "b1", "b2"), open(2, "b2", "b1"), open(3, "b3", "trunk")];
    let graph = build(&prs);
    assert_eq!(graph.roots(), vec![2]);
    let stack = log(&graph);
    assert_eq!(numbers(&stack), vec![(3, None)]);
}

#[test]
fn empty_set_gives_empty_stack() {
    let prs: Vec<Rc<PullRequest>> = Vec::new();
    let graph = build(&prs);
    assert_eq!(graph.len(), 0);
    assert!(graph.roots().is_empty());
    assert!(log(&graph).is_empty());
}

#[test]
fn every_request_of_a_forest_is_listed_once_after_its_parent() {
    let prs = vec![
        open(7, "g", "c"),
        open(1, "a", "trunk"),
        open(3, "c", "a"),
        open(2, "b", "a"),
        open(9, "z", "y"),
        open(4, "d", "b"),
        open(8, "y", "elsewhere"),
        open(5, "e", "b"),
        open(6, "f", "c"),
    ];
    let stack = log(&build(&prs));
    let pairs = numbers(&stack);
    assert_eq!(pairs.len(), prs.len());
    for wanted in 1..=9 {
        assert_eq!(pairs.iter().filter(|(number, _)| *number == wanted).count(), 1);
    }
    for (place, (_, parent)) in pairs.iter().enumerate() {
        if let Some(parent) = parent {
            let before = pairs.iter().position(|(number, _)| number == parent);
            assert!(before.unwrap() < place);
        }
    }
    assert_eq!(
        pairs,
        vec![
            (1, None),
            (2, Some(1)),
            (3, Some(1)),
            (5, Some(2)),
            (4, Some(2)),
            (6, Some(3)),
            (7, Some(3)),
            (8, None),
            (9, Some(8)),
        ]
    );
}

#[test]
fn excluded_numbers_are_left_out() {
    let prs = vec![open(1, "b1", "trunk"), open(2, "b2", "b1"), open(30, "b3", "b2")];
    let kept = exclude_requests(&prs, &vec!["2".to_string(), "3".to_string()]);
    let left: Vec<usize> = kept.iter().map(|pr| pr.number()).collect();
    assert_eq!(left, vec![1, 30]);
    let none = exclude_requests(&prs, &Vec::new());
    assert_eq!(none.len(), 3);
}

#[test]
fn stack_without_an_excluded_request_breaks_in_two() {
    let prs = vec![open(1, "b1", "trunk"), open(2, "b2", "b1"), open(3, "b3", "b2")];
    let stack = build_pr_stack(&prs, &vec!["2".to_string()]);
    assert_eq!(numbers(&stack), vec![(1, None), (3, None)]);
    let whole = build_pr_stack(&prs, &vec!["02".to_string()]);
    assert_eq!(numbers(&whole), vec![(1, None), (2, Some(1)), (3, Some(2))]);
}
