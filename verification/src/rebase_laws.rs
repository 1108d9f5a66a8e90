//! What holds of every run of a rebase transaction.

use crate::api::pull_request::PullRequestStatus;
use crate::graph::open_entries;
use crate::git::refspec_text;
use crate::git::remote_ref_text;
use crate::graph::open_requests;
use crate::graph::Dependency;
use crate::rebase::first_merge;
use crate::rebase::first_merge_is_first;
use crate::rebase::is_merge;
use crate::rebase::ActionView;
use crate::rebase::CommitView;
use crate::rebase::ErrorView;
use crate::rebase::EventView;
use crate::rebase::TransactionView;
use vstd::prelude::*;

verus! {

/// A run of the transaction `state`: the transaction after the events
/// `events`, taken one after the other, and the actions it gave for them.
pub open spec fn run(state: TransactionView, events: Seq<EventView>) -> (
    TransactionView,
    Seq<ActionView>,
)
    decreases events.len(),
{
    if events.len() == 0 {
        (state, Seq::empty())
    } else {
        let (reached, actions) = run(state, events.drop_last());
        let (next, action) = reached.step(events.last());
        (next, actions.push(action))
    }
}

/// Whether `action` changes what branches point at, on the remote or here.
pub open spec fn moves_branches(action: ActionView) -> bool {
    action is Push || action is UpdateBranch
}

/// Whether `action` adds a commit to the repository.
pub open spec fn creates_commit(action: ActionView) -> bool {
    action is CherryPick || action is Commit
}

/// A transaction starts well-formed.
pub proof fn start_is_well_formed(
    deps: Seq<Dependency>,
    remote: Seq<char>,
    boundary: Option<Seq<char>>,
)
    ensures
        TransactionView::start(deps, remote, boundary).0.well_formed(),
{
}

/// A step keeps a transaction well-formed.
pub proof fn step_keeps_well_formed(state: TransactionView, event: EventView)
    requires
        state.well_formed(),
    ensures
        state.step(event).0.well_formed(),
{
}

/// A run keeps a transaction well-formed, and gives one action for each
/// event.
pub proof fn run_keeps_well_formed(state: TransactionView, events: Seq<EventView>)
    requires
        state.well_formed(),
    ensures
        run(state, events).0.well_formed(),
        run(state, events).1.len() == events.len(),
    decreases events.len(),
{
    if events.len() > 0 {
        run_keeps_well_formed(state, events.drop_last());
        step_keeps_well_formed(run(state, events.drop_last()).0, events.last());
    }
}

/// The replay starts on the remote copy of the base of the first open
/// request: that is what the transaction looks up first, what it has
/// checked out, and what the first commit is put on.
pub proof fn replay_starts_on_remote_base(
    deps: Seq<Dependency>,
    remote: Seq<char>,
    boundary: Option<Seq<char>>,
    id: Seq<char>,
)
    requires
        open_requests(deps).len() > 0,
    ensures
        ({
            let (first, action) = TransactionView::start(deps, remote, boundary);
            &&& action == ActionView::Resolve(
                remote_ref_text(remote, open_requests(deps)[0].base.gitref),
            )
            &&& first.step(EventView::Resolved(id)).0.base == id
        }),
{
}

/// The first boundary is the revision that the caller named; without one
/// it is the nearest common ancestor of the remote copy of the first
/// request's base and of the request's local head.
pub proof fn first_boundary_is_named_or_fork(state: TransactionView, head: Seq<char>, id: Seq<char>)
    requires
        state.well_formed(),
    ensures
        state.phase is ResolvingHead ==> state.step(EventView::Resolved(head)).1
            == match state.explicit_boundary {
            Some(rev) => ActionView::Resolve(rev),
            None => ActionView::FindMergeBase { one: state.base, two: head },
        },
        state.phase is ResolvingBoundary ==> state.step(EventView::Resolved(id)).0.boundary == id,
        state.phase is FindingBoundary ==> state.step(EventView::MergeBase(id)).0.boundary == id,
{
}

/// What is checked out before the replay is the base, and the replay goes
/// on from it: the checkout of the transaction is the base once the
/// repository has checked it out.
pub proof fn checkout_is_base(state: TransactionView, event: EventView)
    requires
        state.well_formed(),
    ensures
        state.step(event).1 matches ActionView::Checkout(id) ==> id == state.base,
        state.phase is CheckingOut && event is CheckedOut ==> state.step(event).0.tip == state.base,
{
}

/// Whenever the transaction asks for a commit, the message is that of the
/// commit of the range that is being replayed, byte for byte, and the
/// parent is the checkout: the commit produced last, not the parent that the
/// replayed commit had.
pub proof fn commit_keeps_message_on_new_parent(state: TransactionView, event: EventView)
    requires
        state.well_formed(),
    ensures
        state.step(event).1 matches ActionView::Commit { message, parent, .. } ==> {
            &&& state.next < state.range.len()
            &&& message == state.range[state.next as int].message
            &&& parent == state.tip
        },
{
}

/// The cherry-pick that the transaction asks for is that of the commit of
/// the range at which the replay stands, and the range holds no merge
/// commit before it.
pub proof fn cherry_pick_follows_range(state: TransactionView, event: EventView)
    requires
        state.well_formed(),
    ensures
        state.step(event).1 matches ActionView::CherryPick(id) ==> {
            let next = state.step(event).0;
            &&& next.phase is Picking
            &&& next.next < next.range.len()
            &&& id == next.range[next.next as int].id
        },
{
}

/// The checkout follows the commits: once a commit is reported as
/// concluded, it is the checkout, and so the parent of the next one.
pub proof fn checkout_is_last_commit(state: TransactionView, id: Seq<char>)
    requires
        state.well_formed(),
        state.phase is Committing,
    ensures
        state.step(EventView::Committed(id)).0.tip == id,
        state.step(EventView::Committed(id)).0.next == state.next + 1,
{
}

/// A range that holds a commit with more than one parent gives the
/// transaction up at once: it asks for no cherry-pick and no commit, names
/// the first such commit, and records neither a new tip nor a push
/// instruction for the branch. The instructions it holds are those of the
/// requests replayed before, one for each.
pub proof fn merge_commit_gives_up(state: TransactionView, commits: Seq<CommitView>, i: int)
    requires
        state.well_formed(),
        state.phase is ListingRange,
        0 <= i < commits.len(),
        is_merge(commits[i]),
    ensures
        ({
            let (next, action) = state.step(EventView::Range(commits));
            &&& next.phase is Failed
            &&& first_merge(commits) is Some
            &&& action == ActionView::Abort(ErrorView::MergeCommit(commits[first_merge(commits)->0].id))
            &&& !creates_commit(action)
            &&& next.pushes == state.pushes
            &&& next.pending == state.pending
            &&& next.tip == state.tip
            &&& next.pushes.len() == state.cursor
            &&& next.pending.len() == state.cursor
            &&& forall|k: int|
                0 <= k < next.pushes.len() ==> (#[trigger] next.pushes[k]).branch
                    == state.requests[k].head.gitref
        }),
{
    first_merge_is_first(commits);
}

/// What is pushed is one instruction for each request, in their order:
/// the head of the request, to point at the commit that stands for it
/// after the replay. It goes to the remote that the transaction was
/// started with.
pub proof fn push_covers_every_request(state: TransactionView, event: EventView)
    requires
        state.well_formed(),
    ensures
        state.step(event).1 matches ActionView::Push { remote, refspecs } ==> {
            &&& remote == state.remote
            &&& refspecs.len() == state.requests.len()
            &&& forall|k: int|
                0 <= k < refspecs.len() ==> #[trigger] refspecs[k] == refspec_text(
                    state.pending[k].target,
                    state.requests[k].head.gitref,
                )
        },
{
}

/// A local branch is moved to the commit that was pushed for it: what the
/// transaction asks for is the branch and the commit of one of its push
/// instructions, taken in their order.
pub proof fn branch_moves_to_pushed_commit(state: TransactionView, event: EventView)
    requires
        state.well_formed(),
    ensures
        state.step(event).1 matches ActionView::UpdateBranch { branch, target } ==> {
            let next = state.step(event).0;
            &&& next.updated < next.pushes.len()
            &&& branch == next.pushes[next.updated as int].branch
            &&& target == next.pushes[next.updated as int].tip
            &&& next.pushes == state.pushes
        },
{
}

/// A failure of the repository or of the push gives the transaction up,
/// whatever it was waiting for, with its report kept and with what it
/// holds unchanged.
pub proof fn failure_gives_up(state: TransactionView, reason: Seq<char>)
    requires
        state.well_formed(),
        !(state.phase is Done),
        !(state.phase is Failed),
    ensures
        ({
            let (next, action) = state.step(EventView::Failed(reason));
            &&& next.phase is Failed
            &&& action == ActionView::Abort(ErrorView::Backend(reason))
            &&& next.pushes == state.pushes
            &&& next.pending == state.pending
        }),
{
}

/// The range of a request is what its local head reaches and the boundary
/// does not; once the request is replayed, the boundary is the remote copy
/// of its head.
pub proof fn range_stops_at_boundary(state: TransactionView, event: EventView)
    requires
        state.well_formed(),
    ensures
        state.step(event).1 matches ActionView::ListRange { from, hide } ==> {
            &&& state.phase is ResolvingTip
            &&& event == EventView::Resolved(from)
            &&& hide == state.boundary
        },
        state.phase is ResolvingRemote ==> (event matches EventView::Resolved(id)
            ==> state.step(event).0.boundary == id),
{
}

/// A range without merge commits is replayed from its first commit.
pub proof fn clean_range_is_replayed(state: TransactionView, commits: Seq<CommitView>)
    requires
        state.well_formed(),
        state.phase is ListingRange,
        commits.len() > 0,
        forall|i: int| 0 <= i < commits.len() ==> !is_merge(#[trigger] commits[i]),
    ensures
        state.step(EventView::Range(commits)).1 == ActionView::CherryPick(commits[0].id),
        state.step(EventView::Range(commits)).0.range == commits,
{
    first_merge_is_first(commits);
}

/// A transaction that is through or given up stays as it is, whatever it is
/// told: it asks for nothing more, so it creates no commit and moves no
/// branch.
pub proof fn over_is_final(state: TransactionView, events: Seq<EventView>)
    requires
        state.well_formed(),
        state.phase is Done || state.phase is Failed,
    ensures
        run(state, events).0 == state,
        run(state, events).1.len() == events.len(),
        forall|i: int|
            0 <= i < events.len() ==> (#[trigger] run(state, events).1[i]) == if state.phase is Done {
                ActionView::Finish
            } else {
                ActionView::Abort(state.failure->0)
            },
    decreases events.len(),
{
    if events.len() > 0 {
        over_is_final(state, events.drop_last());
    }
}

/// A negative answer to the question whether to push gives the transaction
/// up, with what it holds unchanged.
pub proof fn declining_gives_up(state: TransactionView)
    requires
        state.well_formed(),
        state.phase is Confirming,
    ensures
        ({
            let (next, action) = state.step(EventView::Confirmation(false));
            &&& next.phase is Failed
            &&& action == ActionView::Abort(ErrorView::Declined)
            &&& next.pushes == state.pushes
            &&& next.pending == state.pending
        }),
{
}

/// Whether the operator said yes to the push in `event`.
pub open spec fn consents(event: EventView) -> bool {
    event == EventView::Confirmation(true)
}

/// Without the operator's consent nothing is pushed and no local branch is
/// moved: in a run from the start in which no event is a positive answer,
/// neither the first action nor any later one moves a branch.
pub proof fn no_consent_no_push(
    deps: Seq<Dependency>,
    remote: Seq<char>,
    boundary: Option<Seq<char>>,
    events: Seq<EventView>,
)
    requires
        forall|i: int| 0 <= i < events.len() ==> !consents(#[trigger] events[i]),
    ensures
        !moves_branches(TransactionView::start(deps, remote, boundary).1),
        run(TransactionView::start(deps, remote, boundary).0, events).1.len() == events.len(),
        forall|i: int|
            0 <= i < events.len() ==> !moves_branches(
                #[trigger] run(TransactionView::start(deps, remote, boundary).0, events).1[i],
            ),
{
    let first = TransactionView::start(deps, remote, boundary).0;
    unconsented_run(first, events);
}

/// Whether the transaction `state` has not been told to push.
pub open spec fn before_push(state: TransactionView) -> bool {
    state.well_formed() && !(state.phase is Pushing) && !(state.phase is Updating)
}

/// From a transaction that has not been told to push, a run without a
/// positive answer moves no branch and ends in such a transaction.
pub proof fn unconsented_run(state: TransactionView, events: Seq<EventView>)
    requires
        before_push(state),
        forall|i: int| 0 <= i < events.len() ==> !consents(#[trigger] events[i]),
    ensures
        before_push(run(state, events).0),
        run(state, events).1.len() == events.len(),
        forall|i: int| 0 <= i < events.len() ==> !moves_branches(#[trigger] run(state, events).1[i]),
    decreases events.len(),
{
    if events.len() > 0 {
        let earlier = events.drop_last();
        assert forall|i: int| 0 <= i < earlier.len() implies !consents(#[trigger] earlier[i]) by {
            assert(earlier[i] == events[i]);
        }
        unconsented_run(state, earlier);
        assert(!consents(events[events.len() - 1]));
    }
}

/// Local branches move only after the push: the transaction asks to move a
/// branch only once it was told that the push went through.
pub proof fn branches_move_after_push(state: TransactionView, event: EventView)
    requires
        state.well_formed(),
    ensures
        state.step(event).1 is UpdateBranch ==> (state.phase is Pushing && event is Pushed) || (
        state.phase is Updating && event is BranchUpdated),
        state.step(event).1 is Push ==> state.phase is Confirming && consents(event),
{
}

/// A stack without open requests has no open entry.
pub proof fn closed_stack_has_no_open_entry(deps: Seq<Dependency>)
    requires
        forall|i: int| 0 <= i < deps.len() ==> (#[trigger] deps[i]).request.state == PullRequestStatus::Closed,
    ensures
        open_entries(deps).len() == 0,
    decreases deps.len(),
{
    if deps.len() > 0 {
        closed_stack_has_no_open_entry(deps.drop_last());
        assert(deps.last() == deps[deps.len() - 1]);
    }
}

/// A stack whose requests are all closed is no work: the transaction is
/// through from the start, and whatever it is told, it asks for no commit
/// and no push.
pub proof fn closed_stack_is_no_work(
    deps: Seq<Dependency>,
    remote: Seq<char>,
    boundary: Option<Seq<char>>,
    events: Seq<EventView>,
)
    requires
        forall|i: int| 0 <= i < deps.len() ==> (#[trigger] deps[i]).request.state == PullRequestStatus::Closed,
    ensures
        TransactionView::start(deps, remote, boundary).0.phase is Done,
        TransactionView::start(deps, remote, boundary).1 == ActionView::Finish,
        forall|i: int|
            0 <= i < events.len() ==> (#[trigger] run(
                TransactionView::start(deps, remote, boundary).0,
                events,
            ).1[i]) == ActionView::Finish,
        run(TransactionView::start(deps, remote, boundary).0, events).1.len() == events.len(),
{
    closed_stack_has_no_open_entry(deps);
    over_is_final(TransactionView::start(deps, remote, boundary).0, events);
}

/// Whether the transaction `state` is past the question whether to push:
/// it pushes, moves branches, or is over.
pub open spec fn past_question(state: TransactionView) -> bool {
    state.phase is Pushing || state.phase is Updating || state.phase is Done || state.phase is Failed
}

/// A transaction that is past the question stays past it, and does not
/// ask for a push again.
pub proof fn past_question_stays(state: TransactionView, events: Seq<EventView>)
    requires
        state.well_formed(),
        past_question(state),
    ensures
        past_question(run(state, events).0),
        run(state, events).0.well_formed(),
        run(state, events).1.len() == events.len(),
        forall|k: int| 0 <= k < events.len() ==> !(#[trigger] run(state, events).1[k] is Push),
    decreases events.len(),
{
    if events.len() > 0 {
        past_question_stays(state, events.drop_last());
    }
}

/// A transaction that has asked for a push is past the question.
pub proof fn push_passes_question(state: TransactionView, events: Seq<EventView>, k: int)
    requires
        state.well_formed(),
        0 <= k < events.len(),
        run(state, events).1[k] is Push,
    ensures
        past_question(run(state, events).0),
    decreases events.len(),
{
    let earlier = events.drop_last();
    run_keeps_well_formed(state, earlier);
    if k < earlier.len() {
        push_passes_question(state, earlier, k);
        past_question_stays(run(state, earlier).0, seq![events.last()]);
        assert(seq![events.last()].drop_last() =~= Seq::<EventView>::empty());
    }
}

/// The transaction pushes once at most: in a run no two actions are a
/// push. With what [`push_covers_every_request`] says, the one push
/// carries the instructions of all requests at once.
pub proof fn pushes_at_most_once(state: TransactionView, events: Seq<EventView>, i: int, j: int)
    requires
        state.well_formed(),
        0 <= i < j < events.len(),
    ensures
        !(run(state, events).1[i] is Push && run(state, events).1[j] is Push),
    decreases events.len(),
{
    let earlier = events.drop_last();
    run_keeps_well_formed(state, earlier);
    if j < earlier.len() {
        pushes_at_most_once(state, earlier, i, j);
    } else if run(state, events).1[i] is Push {
        push_passes_question(state, earlier, i);
    }
}

} // verus!
