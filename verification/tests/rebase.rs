use gh_stack::api::pull_request::PullRequest;
use gh_stack::api::pull_request::PullRequestRef;
use gh_stack::api::pull_request::PullRequestStatus;
use gh_stack::graph::build;
use gh_stack::graph::log;
use gh_stack::graph::FlatDep;
use gh_stack::rebase::BranchUpdate;
use gh_stack::rebase::Commit;
use gh_stack::rebase::Phase;
use gh_stack::rebase::PushInstruction;
use gh_stack::rebase::RebaseAction;
use gh_stack::rebase::RebaseError;
use gh_stack::rebase::RebaseEvent;
use gh_stack::rebase::RebaseTransaction;
use std::rc::Rc;

fn replayed(number: usize, head: &str, base: &str, state: PullRequestStatus) -> Rc<PullRequest> {
    Rc::new(PullRequest::new(
        number,
        number,
        PullRequestRef::new("", head, ""),
        PullRequestRef::new("", base, ""),
        "",
        "",
        "",
        state,
        false,
    ))
}

fn two_requests() -> FlatDep {
    let prs = vec![
        replayed(1, "b1", "trunk", PullRequestStatus::Open),
        replayed(2, "b2", "b1", PullRequestStatus::Open),
    ];
    log(&build(&prs))
}

fn commit(id: &str, parents: usize, message: &str) -> Commit {
    Commit { id: id.to_string(), parents, message: message.to_string() }
}

fn text(s: &str) -> String {
    s.to_string()
}

/// Feeds the events to the transaction, and checks the action after each.
fn follow(
    start: (RebaseTransaction, RebaseAction),
    first: RebaseAction,
    steps: Vec<(RebaseEvent, RebaseAction)>,
) -> RebaseTransaction {
    let (mut transaction, action) = start;
    assert_eq!(action, first);
    for (event, expected) in steps {
        let (next, action) = transaction.advance(event);
        assert_eq!(action, expected);
        transaction = next;
    }
    transaction
}

/// The events that lead from the start to the question whether to push.
fn up_to_the_question() -> Vec<(RebaseEvent, RebaseAction)> {
    vec![
        (RebaseEvent::Resolved(text("base0")), RebaseAction::Resolve(text("b1"))),
        (
            RebaseEvent::Resolved(text("head1")),
            RebaseAction::FindMergeBase { one: text("base0"), two: text("head1") },
        ),
        (RebaseEvent::MergeBase(text("fork")), RebaseAction::Checkout(text("base0"))),
        (RebaseEvent::CheckedOut, RebaseAction::Resolve(text("b1"))),
        (
            RebaseEvent::Resolved(text("head1")),
            RebaseAction::ListRange { from: text("head1"), hide: text("fork") },
        ),
        (
            RebaseEvent::Range(vec![commit("c1", 1, "one\n\nbody\n"), commit("c2", 1, "two")]),
            RebaseAction::CherryPick(text("c1")),
        ),
        (
            RebaseEvent::CherryPicked { conflicts: false },
            RebaseAction::Commit { message: text("one\n\nbody\n"), parent: text("base0"), resolved: false },
        ),
        (RebaseEvent::Committed(text("n1")), RebaseAction::CherryPick(text("c2"))),
        (RebaseEvent::CherryPicked { conflicts: true }, RebaseAction::AwaitResolution),
        (
            RebaseEvent::ConflictsResolved,
            RebaseAction::Commit { message: text("two"), parent: text("n1"), resolved: true },
        ),
        (RebaseEvent::Committed(text("n2")), RebaseAction::Resolve(text("origin/b1"))),
        (RebaseEvent::Resolved(text("remote1")), RebaseAction::Resolve(text("b2"))),
        (
            RebaseEvent::Resolved(text("head2")),
            RebaseAction::ListRange { from: text("head2"), hide: text("remote1") },
        ),
        (RebaseEvent::Range(vec![commit("c3", 0, "three")]), RebaseAction::CherryPick(text("c3"))),
        (
            RebaseEvent::CherryPicked { conflicts: false },
            RebaseAction::Commit { message: text("three"), parent: text("n2"), resolved: false },
        ),
        (RebaseEvent::Committed(text("n3")), RebaseAction::Resolve(text("origin/b2"))),
        (
            RebaseEvent::Resolved(text("remote2")),
            RebaseAction::ConfirmPush(vec![text("n2:refs/heads/b1"), text("n3:refs/heads/b2")]),
        ),
    ]
}

#[test]
fn stack_is_replayed_pushed_and_only_then_are_branches_moved() {
    let asked = follow(
        RebaseTransaction::begin(&two_requests(), "origin", None),
        RebaseAction::Resolve(text("origin/trunk")),
        up_to_the_question(),
    );
    assert_eq!(asked.phase(), Phase::Confirming);
    assert!(!asked.is_over());
    assert_eq!(asked.failure(), None);
    assert_eq!(
        asked.push_instructions(),
        vec![
            PushInstruction { tip: text("n2"), branch: text("b1") },
            PushInstruction { tip: text("n3"), branch: text("b2") },
        ]
    );
    assert_eq!(
        asked.branch_updates(),
        vec![
            BranchUpdate { branch: text("b1"), target: text("n2") },
            BranchUpdate { branch: text("b2"), target: text("n3") },
        ]
    );
    let done = follow(
        asked.advance(RebaseEvent::Confirmation(true)),
        RebaseAction::Push {
            remote: text("origin"),
            refspecs: vec![text("n2:refs/heads/b1"), text("n3:refs/heads/b2")],
        },
        vec![
            (
                RebaseEvent::Pushed,
                RebaseAction::UpdateBranch { branch: text("b1"), target: text("n2") },
            ),
            (
                RebaseEvent::BranchUpdated,
                RebaseAction::UpdateBranch { branch: text("b2"), target: text("n3") },
            ),
            (RebaseEvent::BranchUpdated, RebaseAction::Finish),
            (RebaseEvent::BranchUpdated, RebaseAction::Finish),
            (RebaseEvent::Pushed, RebaseAction::Finish),
        ],
    );
    assert_eq!(done.phase(), Phase::Done);
    assert!(done.is_over());
}

#[test]
fn declining_the_push_moves_nothing() {
    let asked = follow(
        RebaseTransaction::begin(&two_requests(), "origin", None),
        RebaseAction::Resolve(text("origin/trunk")),
        up_to_the_question(),
    );
    let declined = follow(
        asked.advance(RebaseEvent::Confirmation(false)),
        RebaseAction::Abort(RebaseError::Declined),
        vec![
            (RebaseEvent::Confirmation(true), RebaseAction::Abort(RebaseError::Declined)),
            (RebaseEvent::Pushed, RebaseAction::Abort(RebaseError::Declined)),
            (RebaseEvent::BranchUpdated, RebaseAction::Abort(RebaseError::Declined)),
        ],
    );
    assert_eq!(declined.phase(), Phase::Failed);
    assert!(declined.is_over());
}

#[test]
fn failed_push_leaves_local_branches() {
    let asked = follow(
        RebaseTransaction::begin(&two_requests(), "origin", None),
        RebaseAction::Resolve(text("origin/trunk")),
        up_to_the_question(),
    );
    let (pushing, _) = asked.advance(RebaseEvent::Confirmation(true));
    assert_eq!(pushing.phase(), Phase::Pushing);
    let failed = follow(
        pushing.advance(RebaseEvent::Failed(text("rejected"))),
        RebaseAction::Abort(RebaseError::Backend(text("rejected"))),
        vec![(RebaseEvent::Pushed, RebaseAction::Abort(RebaseError::Backend(text("rejected"))))],
    );
    assert_eq!(failed.phase(), Phase::Failed);
}

#[test]
fn explicit_boundary_is_looked_up_in_place_of_the_fork() {
    let checked_out = follow(
        RebaseTransaction::begin(&two_requests(), "upstream", Some("v1.0")),
        RebaseAction::Resolve(text("upstream/trunk")),
        vec![
            (RebaseEvent::Resolved(text("base0")), RebaseAction::Resolve(text("b1"))),
            (RebaseEvent::Resolved(text("head1")), RebaseAction::Resolve(text("v1.0"))),
            (RebaseEvent::Resolved(text("tagged")), RebaseAction::Checkout(text("base0"))),
            (RebaseEvent::CheckedOut, RebaseAction::Resolve(text("b1"))),
            (
                RebaseEvent::Resolved(text("head1")),
                RebaseAction::ListRange { from: text("head1"), hide: text("tagged") },
            ),
        ],
    );
    assert_eq!(checked_out.phase(), Phase::ListingRange);
}

#[test]
fn merge_commit_in_the_range_gives_up_before_any_commit() {
    let listing = follow(
        RebaseTransaction::begin(&two_requests(), "origin", None),
        RebaseAction::Resolve(text("origin/trunk")),
        vec![
            (RebaseEvent::Resolved(text("base0")), RebaseAction::Resolve(text("b1"))),
            (
                RebaseEvent::Resolved(text("head1")),
                RebaseAction::FindMergeBase { one: text("base0"), two: text("head1") },
            ),
            (RebaseEvent::MergeBase(text("fork")), RebaseAction::Checkout(text("base0"))),
            (RebaseEvent::CheckedOut, RebaseAction::Resolve(text("b1"))),
            (
                RebaseEvent::Resolved(text("head1")),
                RebaseAction::ListRange { from: text("head1"), hide: text("fork") },
            ),
        ],
    );
    let range = vec![
        commit("c1", 1, "one"),
        commit("m1", 2, "Merge branch 'x'"),
        commit("c2", 1, "two"),
        commit("m2", 3, "Merge three"),
    ];
    let failed = follow(
        listing.advance(RebaseEvent::Range(range)),
        RebaseAction::Abort(RebaseError::MergeCommit(text("m1"))),
        vec![
            (
                RebaseEvent::CherryPicked { conflicts: false },
                RebaseAction::Abort(RebaseError::MergeCommit(text("m1"))),
            ),
            (RebaseEvent::Confirmation(true), RebaseAction::Abort(RebaseError::MergeCommit(text("m1")))),
        ],
    );
    assert_eq!(failed.phase(), Phase::Failed);
    assert!(failed.push_instructions().is_empty());
    assert!(failed.branch_updates().is_empty());
}

#[test]
fn merge_commit_in_a_later_range_keeps_earlier_instructions_unpushed() {
    let mut steps = up_to_the_question();
    steps.truncate(13);
    let listing = follow(
        RebaseTransaction::begin(&two_requests(), "origin", None),
        RebaseAction::Resolve(text("origin/trunk")),
        steps,
    );
    assert_eq!(listing.phase(), Phase::ListingRange);
    let (failed, action) = listing.advance(RebaseEvent::Range(vec![commit("m", 2, "merge")]));
    assert_eq!(action, RebaseAction::Abort(RebaseError::MergeCommit(text("m"))));
    assert_eq!(failed.failure(), Some(RebaseError::MergeCommit(text("m"))));
    assert_eq!(
        failed.push_instructions(),
        vec![PushInstruction { tip: text("n2"), branch: text("b1") }]
    );
    assert_eq!(
        failed.branch_updates(),
        vec![BranchUpdate { branch: text("b1"), target: text("n2") }]
    );
    let (_, after) = failed.advance(RebaseEvent::Confirmation(true));
    assert_eq!(after, RebaseAction::Abort(RebaseError::MergeCommit(text("m"))));
}

#[test]
fn stack_of_closed_requests_is_no_work() {
    let prs = vec![
        replayed(1, "b1", "trunk", PullRequestStatus::Closed),
        replayed(2, "b2", "b1", PullRequestStatus::Closed),
    ];
    let done = follow(
        RebaseTransaction::begin(&log(&build(&prs)), "origin", None),
        RebaseAction::Finish,
        vec![
            (RebaseEvent::Resolved(text("x")), RebaseAction::Finish),
            (RebaseEvent::Confirmation(true), RebaseAction::Finish),
            (RebaseEvent::Failed(text("x")), RebaseAction::Finish),
        ],
    );
    assert_eq!(done.phase(), Phase::Done);
    let empty: FlatDep = Vec::new();
    let (nothing, action) = RebaseTransaction::begin(&empty, "origin", Some("v1"));
    assert_eq!(action, RebaseAction::Finish);
    assert!(nothing.is_over());
}

#[test]
fn closed_requests_are_not_replayed() {
    let prs = vec![
        replayed(1, "b1", "trunk", PullRequestStatus::Closed),
        replayed(2, "b2", "b1", PullRequestStatus::Open),
        replayed(3, "b3", "b2", PullRequestStatus::Closed),
    ];
    let asked = follow(
        RebaseTransaction::begin(&log(&build(&prs)), "origin", None),
        RebaseAction::Resolve(text("origin/b1")),
        vec![
            (RebaseEvent::Resolved(text("base0")), RebaseAction::Resolve(text("b2"))),
            (
                RebaseEvent::Resolved(text("head2")),
                RebaseAction::FindMergeBase { one: text("base0"), two: text("head2") },
            ),
            (RebaseEvent::MergeBase(text("fork")), RebaseAction::Checkout(text("base0"))),
            (RebaseEvent::CheckedOut, RebaseAction::Resolve(text("b2"))),
            (
                RebaseEvent::Resolved(text("head2")),
                RebaseAction::ListRange { from: text("head2"), hide: text("fork") },
            ),
            (RebaseEvent::Range(Vec::new()), RebaseAction::Resolve(text("origin/b2"))),
            (
                RebaseEvent::Resolved(text("remote2")),
                RebaseAction::ConfirmPush(vec![text("base0:refs/heads/b2")]),
            ),
        ],
    );
    assert_eq!(asked.phase(), Phase::Confirming);
}

#[test]
fn failure_of_the_repository_gives_up() {
    let failed = follow(
        RebaseTransaction::begin(&two_requests(), "origin", None),
        RebaseAction::Resolve(text("origin/trunk")),
        vec![
            (
                RebaseEvent::Failed(text("revspec 'origin/trunk' not found")),
                RebaseAction::Abort(RebaseError::Backend(text("revspec 'origin/trunk' not found"))),
            ),
            (
                RebaseEvent::Resolved(text("base0")),
                RebaseAction::Abort(RebaseError::Backend(text("revspec 'origin/trunk' not found"))),
            ),
        ],
    );
    assert_eq!(failed.phase(), Phase::Failed);
}

#[test]
fn unexpected_event_gives_up() {
    let failed = follow(
        RebaseTransaction::begin(&two_requests(), "origin", None),
        RebaseAction::Resolve(text("origin/trunk")),
        vec![
            (RebaseEvent::Pushed, RebaseAction::Abort(RebaseError::Unexpected)),
            (RebaseEvent::Resolved(text("base0")), RebaseAction::Abort(RebaseError::Unexpected)),
        ],
    );
    assert_eq!(failed.phase(), Phase::Failed);
    let (start, _) = RebaseTransaction::begin(&two_requests(), "origin", None);
    let (_, action) = start.advance(RebaseEvent::Confirmation(true));
    assert_eq!(action, RebaseAction::Abort(RebaseError::Unexpected));
}

#[test]
fn error_is_duplicated_with_its_text() {
    let error = RebaseError::MergeCommit(text("abc"));
    assert_eq!(error.duplicate(), error);
    assert_eq!(RebaseError::Backend(text("x")).duplicate(), RebaseError::Backend(text("x")));
    assert_eq!(RebaseError::Declined.duplicate(), RebaseError::Declined);
    assert_eq!(RebaseError::Unexpected.duplicate(), RebaseError::Unexpected);
}

#[test]
fn error_tells_the_operator_what_happened() {
    assert_eq!(
        RebaseError::MergeCommit(text("abc123")).message(),
        "Exiting: I don't know how to deal with merge commits correctly (abc123)."
    );
    assert_eq!(RebaseError::Backend(text("object not found")).message(), "object not found");
    assert_eq!(
        RebaseError::Declined.message(),
        "Exiting: nothing was pushed, and no branch was moved."
    );
    assert_eq!(RebaseError::Unexpected.message(), "Exiting: the repository answered out of turn.");
}
