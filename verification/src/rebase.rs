//! The rebase transaction: the decisions of replaying a stack onto an
//! updated base, as a machine that is told what the repository and the
//! operator answered and says what to do next.
//!
//! The machine never touches a repository. Whoever drives it performs each
//! [`RebaseAction`] and reports the outcome as a [`RebaseEvent`]. Local
//! branches move only after the push went through, so a failure at any
//! earlier point leaves every branch where it was.

use crate::api::pull_request::PullRequest;
use crate::api::pull_request::PullRequestStatus;
use crate::api::pull_request::RequestSnapshot;
use crate::git::refspec;
use crate::git::refspec_text;
use crate::git::remote_ref;
use crate::git::remote_ref_text;
use crate::graph::flat_view;
use crate::graph::open_entries_step;
use crate::graph::open_requests;
use crate::graph::share;
use crate::graph::snapshots;
use crate::graph::Dependency;
use crate::graph::FlatDep;
use crate::text::optional_text;
use crate::text::strings_view;
use std::rc::Rc;
use vstd::prelude::*;
use vstd::string::*;

verus! {

/// What a [`Commit`] holds.
#[verifier::ext_equal]
pub struct CommitView {
    pub id: Seq<char>,
    pub parents: nat,
    pub message: Seq<char>,
}

/// A commit of a range to replay, as the repository describes it.
#[derive(Debug, Clone, PartialEq, Eq)]
pub struct Commit {
    /// The identifier of the commit, in hexadecimal.
    pub id: String,
    /// How many parents the commit has.
    pub parents: usize,
    pub message: String,
}

impl View for Commit {
    type V = CommitView;

    open spec fn view(&self) -> CommitView {
        CommitView { id: self.id@, parents: self.parents as nat, message: self.message@ }
    }
}

/// What a sequence of commits holds.
pub open spec fn commits_view(commits: Seq<Commit>) -> Seq<CommitView> {
    Seq::new(commits.len(), |i: int| commits[i]@)
}

/// What a [`BranchUpdate`] holds.
#[verifier::ext_equal]
pub struct BranchUpdateView {
    pub branch: Seq<char>,
    pub target: Seq<char>,
}

/// A local branch and the commit it is to point at once the push is through.
#[derive(Debug, Clone, PartialEq, Eq)]
pub struct BranchUpdate {
    pub branch: String,
    pub target: String,
}

impl View for BranchUpdate {
    type V = BranchUpdateView;

    open spec fn view(&self) -> BranchUpdateView {
        BranchUpdateView { branch: self.branch@, target: self.target@ }
    }
}

/// What a [`PushInstruction`] holds.
#[verifier::ext_equal]
pub struct PushView {
    pub tip: Seq<char>,
    pub branch: Seq<char>,
}

/// A commit and the branch of the remote that is to point at it.
#[derive(Debug, Clone, PartialEq, Eq)]
pub struct PushInstruction {
    pub tip: String,
    pub branch: String,
}

impl View for PushInstruction {
    type V = PushView;

    open spec fn view(&self) -> PushView {
        PushView { tip: self.tip@, branch: self.branch@ }
    }
}

/// The push instructions `pushes` as the remote takes them.
pub open spec fn refspecs(pushes: Seq<PushView>) -> Seq<Seq<char>> {
    Seq::new(pushes.len(), |i: int| refspec_text(pushes[i].tip, pushes[i].branch))
}

/// What a [`RebaseError`] holds.
#[verifier::ext_equal]
pub enum ErrorView {
    MergeCommit(Seq<char>),
    Backend(Seq<char>),
    Declined,
    Unexpected,
}

/// Why a transaction was given up.
#[derive(Debug, Clone, PartialEq, Eq)]
pub enum RebaseError {
    /// The range to replay holds the commit named here, which has more than
    /// one parent.
    MergeCommit(String),
    /// The repository or the push failed; the text is its report.
    Backend(String),
    /// The operator answered no when asked to confirm the push.
    Declined,
    /// An event arrived that the transaction was not waiting for.
    Unexpected,
}

impl View for RebaseError {
    type V = ErrorView;

    open spec fn view(&self) -> ErrorView {
        match self {
            RebaseError::MergeCommit(id) => ErrorView::MergeCommit(id@),
            RebaseError::Backend(reason) => ErrorView::Backend(reason@),
            RebaseError::Declined => ErrorView::Declined,
            RebaseError::Unexpected => ErrorView::Unexpected,
        }
    }
}

/// What the operator is told of the error `error`.
pub open spec fn error_text(error: ErrorView) -> Seq<char> {
    match error {
        ErrorView::MergeCommit(id) => "Exiting: I don't know how to deal with merge commits correctly ("@
            + id + ")."@,
        ErrorView::Backend(reason) => reason,
        ErrorView::Declined => "Exiting: nothing was pushed, and no branch was moved."@,
        ErrorView::Unexpected => "Exiting: the repository answered out of turn."@,
    }
}

impl RebaseError {
    /// What to tell the operator of the error.
    pub fn message(&self) -> (text: String)
        ensures
            text@ == error_text(self@),
    {
        match self {
            RebaseError::MergeCommit(id) => {
                let mut text = String::from_str(
                    "Exiting: I don't know how to deal with merge commits correctly (",
                );
                text.append(id.as_str());
                text.append(").");
                text
            },
            RebaseError::Backend(reason) => reason.clone(),
            RebaseError::Declined => String::from_str(
                "Exiting: nothing was pushed, and no branch was moved.",
            ),
            RebaseError::Unexpected => String::from_str("Exiting: the repository answered out of turn."),
        }
    }

    /// An equal error.
    pub fn duplicate(&self) -> (copy: RebaseError)
        ensures
            copy@ == self@,
    {
        match self {
            RebaseError::MergeCommit(id) => RebaseError::MergeCommit(id.clone()),
            RebaseError::Backend(reason) => RebaseError::Backend(reason.clone()),
            RebaseError::Declined => RebaseError::Declined,
            RebaseError::Unexpected => RebaseError::Unexpected,
        }
    }
}

/// What a [`RebaseEvent`] holds.
#[verifier::ext_equal]
pub enum EventView {
    Resolved(Seq<char>),
    MergeBase(Seq<char>),
    CheckedOut,
    Range(Seq<CommitView>),
    CherryPicked { conflicts: bool },
    ConflictsResolved,
    Committed(Seq<char>),
    Confirmation(bool),
    Pushed,
    BranchUpdated,
    Failed(Seq<char>),
}

/// The outcome of the action that the transaction asked for last.
#[derive(Debug, Clone, PartialEq, Eq)]
pub enum RebaseEvent {
    /// The revision names the commit given here.
    Resolved(String),
    /// The nearest common ancestor of the two commits is the one given here.
    MergeBase(String),
    /// The commit is checked out, detached from any branch.
    CheckedOut,
    /// The commits of the range, oldest first.
    Range(Vec<Commit>),
    /// The commit was cherry-picked onto the checkout, with or without
    /// conflicts.
    CherryPicked { conflicts: bool },
    /// The operator has resolved the conflicts and asks to go on.
    ConflictsResolved,
    /// The cherry-pick was concluded as the commit given here.
    Committed(String),
    /// The operator's answer to the question whether to push.
    Confirmation(bool),
    /// The push went through.
    Pushed,
    /// The local branch points at its new commit.
    BranchUpdated,
    /// The action failed; the text is the report of the failure.
    Failed(String),
}

impl View for RebaseEvent {
    type V = EventView;

    open spec fn view(&self) -> EventView {
        match self {
            RebaseEvent::Resolved(id) => EventView::Resolved(id@),
            RebaseEvent::MergeBase(id) => EventView::MergeBase(id@),
            RebaseEvent::CheckedOut => EventView::CheckedOut,
            RebaseEvent::Range(commits) => EventView::Range(commits_view(commits@)),
            RebaseEvent::CherryPicked { conflicts } => EventView::CherryPicked { conflicts: *conflicts },
            RebaseEvent::ConflictsResolved => EventView::ConflictsResolved,
            RebaseEvent::Committed(id) => EventView::Committed(id@),
            RebaseEvent::Confirmation(yes) => EventView::Confirmation(*yes),
            RebaseEvent::Pushed => EventView::Pushed,
            RebaseEvent::BranchUpdated => EventView::BranchUpdated,
            RebaseEvent::Failed(reason) => EventView::Failed(reason@),
        }
    }
}

/// What a [`RebaseAction`] holds.
#[verifier::ext_equal]
pub enum ActionView {
    Resolve(Seq<char>),
    FindMergeBase { one: Seq<char>, two: Seq<char> },
    Checkout(Seq<char>),
    ListRange { from: Seq<char>, hide: Seq<char> },
    CherryPick(Seq<char>),
    AwaitResolution,
    Commit { message: Seq<char>, parent: Seq<char>, resolved: bool },
    ConfirmPush(Seq<Seq<char>>),
    Push { remote: Seq<char>, refspecs: Seq<Seq<char>> },
    UpdateBranch { branch: Seq<char>, target: Seq<char> },
    Finish,
    Abort(ErrorView),
}

/// What the transaction asks for next.
#[derive(Debug, Clone, PartialEq, Eq)]
pub enum RebaseAction {
    /// Look up the commit that the revision names.
    Resolve(String),
    /// Find the nearest common ancestor of the two commits.
    FindMergeBase { one: String, two: String },
    /// Check out the commit, detached from any branch.
    Checkout(String),
    /// List the commits that `from` reaches and `hide` does not, oldest first.
    ListRange { from: String, hide: String },
    /// Cherry-pick the commit onto the checkout, leaving conflicts in place.
    CherryPick(String),
    /// Show the conflicts to the operator and wait until they are resolved.
    AwaitResolution,
    /// Conclude the cherry-pick as a commit with this message on top of
    /// `parent`, the checkout, and check the new commit out. `resolved` says
    /// that the operator resolved conflicts, so that the index is to be read
    /// again.
    Commit { message: String, parent: String, resolved: bool },
    /// Show the push instructions to the operator and ask whether to push.
    ConfirmPush(Vec<String>),
    /// Push all the instructions to the remote at once.
    Push { remote: String, refspecs: Vec<String> },
    /// Make the local branch point at the commit.
    UpdateBranch { branch: String, target: String },
    /// The transaction is through; nothing is left to do.
    Finish,
    /// The transaction is given up; nothing more is to be done.
    Abort(RebaseError),
}

impl View for RebaseAction {
    type V = ActionView;

    open spec fn view(&self) -> ActionView {
        match self {
            RebaseAction::Resolve(rev) => ActionView::Resolve(rev@),
            RebaseAction::FindMergeBase { one, two } => ActionView::FindMergeBase {
                one: one@,
                two: two@,
            },
            RebaseAction::Checkout(id) => ActionView::Checkout(id@),
            RebaseAction::ListRange { from, hide } => ActionView::ListRange {
                from: from@,
                hide: hide@,
            },
            RebaseAction::CherryPick(id) => ActionView::CherryPick(id@),
            RebaseAction::AwaitResolution => ActionView::AwaitResolution,
            RebaseAction::Commit { message, parent, resolved } => ActionView::Commit {
                message: message@,
                parent: parent@,
                resolved: *resolved,
            },
            RebaseAction::ConfirmPush(specs) => ActionView::ConfirmPush(strings_view(specs@)),
            RebaseAction::Push { remote, refspecs } => ActionView::Push {
                remote: remote@,
                refspecs: strings_view(refspecs@),
            },
            RebaseAction::UpdateBranch { branch, target } => ActionView::UpdateBranch {
                branch: branch@,
                target: target@,
            },
            RebaseAction::Finish => ActionView::Finish,
            RebaseAction::Abort(error) => ActionView::Abort(error@),
        }
    }
}

/// What the transaction is waiting for.
#[derive(Debug, Clone, Copy, PartialEq, Eq, Structural)]
pub enum Phase {
    /// For the commit of the remote copy of the first request's base.
    ResolvingBase,
    /// For the commit of the first request's local head.
    ResolvingHead,
    /// For the commit of the boundary that the caller named.
    ResolvingBoundary,
    /// For the nearest common ancestor of that base and that head.
    FindingBoundary,
    /// For the base to be checked out.
    CheckingOut,
    /// For the commit of the current request's local head.
    ResolvingTip,
    /// For the commits of the current request's range.
    ListingRange,
    /// For the cherry-pick of the current commit.
    Picking,
    /// For the operator to resolve the conflicts of the current commit.
    AwaitingResolution,
    /// For the current commit to be concluded.
    Committing,
    /// For the commit of the remote copy of the current request's head.
    ResolvingRemote,
    /// For the operator's answer to the question whether to push.
    Confirming,
    /// For the push.
    Pushing,
    /// For a local branch to be moved.
    Updating,
    /// For nothing: the transaction is through.
    Done,
    /// For nothing: the transaction was given up.
    Failed,
}

/// Whether a commit has more than one parent.
pub open spec fn is_merge(commit: CommitView) -> bool {
    commit.parents > 1
}

/// The place of the first commit of `commits` that has more than one parent.
pub open spec fn first_merge(commits: Seq<CommitView>) -> Option<int>
    decreases commits.len(),
{
    if commits.len() == 0 {
        None
    } else {
        match first_merge(commits.drop_last()) {
            Some(i) => Some(i),
            None => if is_merge(commits.last()) {
                Some(commits.len() - 1)
            } else {
                None
            },
        }
    }
}

/// [`first_merge`] finds a merge commit that no merge commit precedes, and
/// finds none only where there is none.
pub proof fn first_merge_is_first(commits: Seq<CommitView>)
    ensures
        match first_merge(commits) {
            Some(i) => 0 <= i < commits.len() && is_merge(commits[i]) && forall|j: int|
                0 <= j < i ==> !is_merge(#[trigger] commits[j]),
            None => forall|j: int| 0 <= j < commits.len() ==> !is_merge(#[trigger] commits[j]),
        },
    decreases commits.len(),
{
    if commits.len() > 0 {
        first_merge_is_first(commits.drop_last());
        assert(forall|j: int| 0 <= j < commits.len() - 1 ==> commits.drop_last()[j] == commits[j]);
    }
}

/// What holds of what a transaction has recorded: the push instructions
/// stand for the first requests, one for each and in their order, each for
/// the head of its request; the new tips stand for the same requests, and
/// for one more at most; and a branch is to be pushed to the commit that
/// the local branch is to point at.
pub open spec fn records_agree(
    requests: Seq<RequestSnapshot>,
    pending: Seq<BranchUpdateView>,
    pushes: Seq<PushView>,
) -> bool {
    &&& pushes.len() <= pending.len() <= pushes.len() + 1
    &&& pending.len() <= requests.len()
    &&& forall|k: int|
        0 <= k < pending.len() ==> (#[trigger] pending[k]).branch == requests[k].head.gitref
    &&& forall|k: int|
        0 <= k < pushes.len() ==> (#[trigger] pushes[k]) == (PushView {
            tip: pending[k].target,
            branch: requests[k].head.gitref,
        })
}

/// The records still agree once the new tip of the next branch is added.
pub proof fn records_agree_with_tip(
    requests: Seq<RequestSnapshot>,
    pending: Seq<BranchUpdateView>,
    pushes: Seq<PushView>,
    target: Seq<char>,
)
    requires
        records_agree(requests, pending, pushes),
        pending.len() == pushes.len(),
        pending.len() < requests.len(),
    ensures
        records_agree(
            requests,
            pending.push(
                BranchUpdateView { branch: requests[pending.len() as int].head.gitref, target },
            ),
            pushes,
        ),
{
    let grown = pending.push(
        BranchUpdateView { branch: requests[pending.len() as int].head.gitref, target },
    );
    assert forall|k: int| 0 <= k < pushes.len() implies (#[trigger] pushes[k]) == (PushView {
        tip: grown[k].target,
        branch: requests[k].head.gitref,
    }) by {
        assert(grown[k] == pending[k]);
    }
}

/// The records still agree once the push instruction for the branch whose
/// new tip was added last is added.
pub proof fn records_agree_with_push(
    requests: Seq<RequestSnapshot>,
    pending: Seq<BranchUpdateView>,
    pushes: Seq<PushView>,
)
    requires
        records_agree(requests, pending, pushes),
        pending.len() == pushes.len() + 1,
    ensures
        records_agree(
            requests,
            pending,
            pushes.push(
                PushView {
                    tip: pending[pushes.len() as int].target,
                    branch: requests[pushes.len() as int].head.gitref,
                },
            ),
        ),
{
}

/// What a [`RebaseTransaction`] holds.
#[verifier::ext_equal]
pub struct TransactionView {
    /// The open requests of the stack, in the order of their replay.
    pub requests: Seq<RequestSnapshot>,
    /// The remote that is pushed to.
    pub remote: Seq<char>,
    /// The revision that the caller named as the first boundary.
    pub explicit_boundary: Option<Seq<char>>,
    pub phase: Phase,
    /// Why the transaction was given up, once it was.
    pub failure: Option<ErrorView>,
    /// The place of the request that is being replayed.
    pub cursor: nat,
    /// The commit that the chain is replayed onto.
    pub base: Seq<char>,
    /// The replay boundary: nothing at or below this commit is replayed.
    pub boundary: Seq<char>,
    /// The commit that is checked out: the last one produced.
    pub tip: Seq<char>,
    /// The commits of the current request's range, oldest first.
    pub range: Seq<CommitView>,
    /// The place in `range` of the commit that is being replayed.
    pub next: nat,
    /// The new tip of each replayed branch, for the local branches.
    pub pending: Seq<BranchUpdateView>,
    /// The push instructions recorded so far.
    pub pushes: Seq<PushView>,
    /// How many local branches were moved.
    pub updated: nat,
}

impl TransactionView {
    /// Whether the first request is being looked at, before any replay.
    pub open spec fn preparing(self) -> bool {
        ||| self.phase is ResolvingBase
        ||| self.phase is ResolvingHead
        ||| self.phase is ResolvingBoundary
        ||| self.phase is FindingBoundary
        ||| self.phase is CheckingOut
    }

    /// Whether a request is being replayed.
    pub open spec fn replaying(self) -> bool {
        ||| self.phase is ResolvingTip
        ||| self.phase is ListingRange
        ||| self.picking()
        ||| self.phase is ResolvingRemote
    }

    /// Whether a commit is being replayed.
    pub open spec fn picking(self) -> bool {
        ||| self.phase is Picking
        ||| self.phase is AwaitingResolution
        ||| self.phase is Committing
    }

    /// Whether every request was replayed.
    pub open spec fn replayed(self) -> bool {
        ||| self.phase is Confirming
        ||| self.phase is Pushing
        ||| self.phase is Updating
    }

    /// Whether what the transaction has recorded agrees with its requests.
    pub open spec fn recorded(self) -> bool {
        records_agree(self.requests, self.pending, self.pushes)
    }

    /// What holds of every transaction: the places it keeps lie within what
    /// they count, one push instruction stands for each request replayed
    /// before the current one, and the new tip of a branch is recorded
    /// before its push instruction is.
    pub open spec fn well_formed(self) -> bool {
        &&& self.phase is Failed <==> self.failure is Some
        &&& self.preparing() ==> self.requests.len() > 0 && self.cursor == 0
        &&& self.replaying() ==> self.cursor < self.requests.len()
        &&& self.replayed() ==> self.cursor == self.requests.len()
        &&& self.picking() ==> self.next < self.range.len()
        &&& self.phase is Updating ==> self.updated < self.pending.len()
        &&& self.recorded()
        &&& !(self.phase is Failed) && !(self.phase is Done) ==> {
            &&& self.pushes.len() == self.cursor
            &&& self.pending.len() == if self.phase is ResolvingRemote {
                self.cursor + 1
            } else {
                self.cursor
            }
            &&& self.phase is ResolvingRemote ==> self.pending[self.cursor as int].target == self.tip
        }
    }

    /// The transaction given up for `error`.
    pub open spec fn fail(self, error: ErrorView) -> (TransactionView, ActionView) {
        (
            TransactionView { phase: Phase::Failed, failure: Some(error), ..self },
            ActionView::Abort(error),
        )
    }

    /// What follows once the checkout holds the commits of the range before
    /// `next`: the next commit is cherry-picked; or, the range being
    /// through, the checkout is recorded as the new tip of the branch, and
    /// the remote copy of the branch is looked up as the next boundary.
    pub open spec fn continue_replay(self) -> (TransactionView, ActionView) {
        if self.next < self.range.len() {
            (
                TransactionView { phase: Phase::Picking, ..self },
                ActionView::CherryPick(self.range[self.next as int].id),
            )
        } else {
            let head = self.requests[self.cursor as int].head.gitref;
            (
                TransactionView {
                    phase: Phase::ResolvingRemote,
                    pending: self.pending.push(BranchUpdateView { branch: head, target: self.tip }),
                    ..self
                },
                ActionView::Resolve(remote_ref_text(self.remote, head)),
            )
        }
    }

    /// What follows once `updated` local branches were moved: the next one
    /// is moved, or the transaction is through.
    pub open spec fn continue_update(self) -> (TransactionView, ActionView) {
        if self.updated < self.pending.len() {
            (
                TransactionView { phase: Phase::Updating, ..self },
                ActionView::UpdateBranch {
                    branch: self.pending[self.updated as int].branch,
                    target: self.pending[self.updated as int].target,
                },
            )
        } else {
            (TransactionView { phase: Phase::Done, ..self }, ActionView::Finish)
        }
    }

    /// The commit that concludes the cherry-pick of the current commit: its
    /// own message, on top of the checkout.
    pub open spec fn conclude(self, resolved: bool) -> (TransactionView, ActionView) {
        (
            TransactionView { phase: Phase::Committing, ..self },
            ActionView::Commit {
                message: self.range[self.next as int].message,
                parent: self.tip,
                resolved,
            },
        )
    }

    /// The step for an event that reports success.
    pub open spec fn proceed(self, event: EventView) -> (TransactionView, ActionView) {
        match (self.phase, event) {
            (Phase::ResolvingBase, EventView::Resolved(id)) => (
                TransactionView { phase: Phase::ResolvingHead, base: id, ..self },
                ActionView::Resolve(self.requests[0].head.gitref),
            ),
            (Phase::ResolvingHead, EventView::Resolved(id)) => match self.explicit_boundary {
                Some(rev) => (
                    TransactionView { phase: Phase::ResolvingBoundary, ..self },
                    ActionView::Resolve(rev),
                ),
                None => (
                    TransactionView { phase: Phase::FindingBoundary, ..self },
                    ActionView::FindMergeBase { one: self.base, two: id },
                ),
            },
            (Phase::ResolvingBoundary, EventView::Resolved(id)) => (
                TransactionView { phase: Phase::CheckingOut, boundary: id, ..self },
                ActionView::Checkout(self.base),
            ),
            (Phase::FindingBoundary, EventView::MergeBase(id)) => (
                TransactionView { phase: Phase::CheckingOut, boundary: id, ..self },
                ActionView::Checkout(self.base),
            ),
            (Phase::CheckingOut, EventView::CheckedOut) => (
                TransactionView { phase: Phase::ResolvingTip, tip: self.base, ..self },
                ActionView::Resolve(self.requests[0].head.gitref),
            ),
            (Phase::ResolvingTip, EventView::Resolved(id)) => (
                TransactionView { phase: Phase::ListingRange, ..self },
                ActionView::ListRange { from: id, hide: self.boundary },
            ),
            (Phase::ListingRange, EventView::Range(commits)) => match first_merge(commits) {
                Some(i) => self.fail(ErrorView::MergeCommit(commits[i].id)),
                None => (TransactionView { range: commits, next: 0, ..self }).continue_replay(),
            },
            (Phase::Picking, EventView::CherryPicked { conflicts }) => if conflicts {
                (
                    TransactionView { phase: Phase::AwaitingResolution, ..self },
                    ActionView::AwaitResolution,
                )
            } else {
                self.conclude(false)
            },
            (Phase::AwaitingResolution, EventView::ConflictsResolved) => self.conclude(true),
            (Phase::Committing, EventView::Committed(id)) => (TransactionView {
                tip: id,
                next: self.next + 1,
                ..self
            }).continue_replay(),
            (Phase::ResolvingRemote, EventView::Resolved(id)) => {
                let head = self.requests[self.cursor as int].head.gitref;
                let pushes = self.pushes.push(PushView { tip: self.tip, branch: head });
                let cursor = self.cursor + 1;
                if cursor < self.requests.len() {
                    (
                        TransactionView {
                            phase: Phase::ResolvingTip,
                            boundary: id,
                            pushes,
                            cursor,
                            ..self
                        },
                        ActionView::Resolve(self.requests[cursor as int].head.gitref),
                    )
                } else {
                    (
                        TransactionView {
                            phase: Phase::Confirming,
                            boundary: id,
                            pushes,
                            cursor,
                            ..self
                        },
                        ActionView::ConfirmPush(refspecs(pushes)),
                    )
                }
            },
            (Phase::Confirming, EventView::Confirmation(yes)) => if yes {
                (
                    TransactionView { phase: Phase::Pushing, ..self },
                    ActionView::Push { remote: self.remote, refspecs: refspecs(self.pushes) },
                )
            } else {
                self.fail(ErrorView::Declined)
            },
            (Phase::Pushing, EventView::Pushed) => (TransactionView {
                updated: 0,
                ..self
            }).continue_update(),
            (Phase::Updating, EventView::BranchUpdated) => (TransactionView {
                updated: self.updated + 1,
                ..self
            }).continue_update(),
            _ => self.fail(ErrorView::Unexpected),
        }
    }

    /// The step of the transaction: the state after `event`, and what to do
    /// next. A transaction that is through or given up stays as it is. A
    /// failure of the action gives the transaction up, and so does an event
    /// that it was not waiting for.
    pub open spec fn step(self, event: EventView) -> (TransactionView, ActionView) {
        match self.phase {
            Phase::Done => (self, ActionView::Finish),
            Phase::Failed => (self, ActionView::Abort(self.failure->0)),
            _ => match event {
                EventView::Failed(reason) => self.fail(ErrorView::Backend(reason)),
                _ => self.proceed(event),
            },
        }
    }

    /// The transaction for the stack `deps` before its first event, and its
    /// first action. Only open requests are replayed; where there is none,
    /// the transaction is through at once.
    pub open spec fn start(deps: Seq<Dependency>, remote: Seq<char>, boundary: Option<Seq<char>>) -> (
        TransactionView,
        ActionView,
    ) {
        let requests = open_requests(deps);
        let fresh = TransactionView {
            requests,
            remote,
            explicit_boundary: boundary,
            phase: Phase::Done,
            failure: None,
            cursor: 0,
            base: Seq::empty(),
            boundary: Seq::empty(),
            tip: Seq::empty(),
            range: Seq::empty(),
            next: 0,
            pending: Seq::empty(),
            pushes: Seq::empty(),
            updated: 0,
        };
        if requests.len() == 0 {
            (fresh, ActionView::Finish)
        } else {
            (
                TransactionView { phase: Phase::ResolvingBase, ..fresh },
                ActionView::Resolve(remote_ref_text(remote, requests[0].base.gitref)),
            )
        }
    }
}

/// A rebase in progress: what was replayed so far, and what it waits for.
pub struct RebaseTransaction {
    requests: Vec<Rc<PullRequest>>,
    remote: String,
    explicit_boundary: Option<String>,
    phase: Phase,
    failure: Option<RebaseError>,
    cursor: usize,
    base: String,
    boundary: String,
    tip: String,
    range: Vec<Commit>,
    next: usize,
    pending: Vec<BranchUpdate>,
    pushes: Vec<PushInstruction>,
    updated: usize,
}

impl View for RebaseTransaction {
    type V = TransactionView;

    closed spec fn view(&self) -> TransactionView {
        TransactionView {
            requests: snapshots(self.requests@),
            remote: self.remote@,
            explicit_boundary: match self.explicit_boundary {
                Some(rev) => Some(rev@),
                None => None,
            },
            phase: self.phase,
            failure: match self.failure {
                Some(error) => Some(error@),
                None => None,
            },
            cursor: self.cursor as nat,
            base: self.base@,
            boundary: self.boundary@,
            tip: self.tip@,
            range: commits_view(self.range@),
            next: self.next as nat,
            pending: Seq::new(self.pending@.len(), |i: int| self.pending@[i]@),
            pushes: Seq::new(self.pushes@.len(), |i: int| self.pushes@[i]@),
            updated: self.updated as nat,
        }
    }
}

/// The place of the first commit of `commits` that has more than one parent.
fn find_merge(commits: &Vec<Commit>) -> (found: Option<usize>)
    ensures
        match found {
            Some(i) => first_merge(commits_view(commits@)) == Some(i as int) && i < commits.len(),
            None => first_merge(commits_view(commits@)) is None,
        },
{
    let ghost all = commits_view(commits@);
    let mut i: usize = 0;
    while i < commits.len()
        invariant
            i <= commits.len(),
            all == commits_view(commits@),
            forall|j: int| 0 <= j < i ==> !is_merge(#[trigger] all[j]),
        decreases commits.len() - i,
    {
        if commits[i].parents > 1 {
            proof {
                assert(is_merge(all[i as int]));
                first_merge_is_first(all);
            }
            return Some(i);
        }
        i += 1;
    }
    proof {
        first_merge_is_first(all);
    }
    None
}

/// The push instructions `pushes` as the remote takes them.
fn render_refspecs(pushes: &Vec<PushInstruction>) -> (specs: Vec<String>)
    ensures
        strings_view(specs@) == refspecs(Seq::new(pushes@.len(), |i: int| pushes@[i]@)),
{
    let mut specs: Vec<String> = Vec::new();
    let mut i: usize = 0;
    while i < pushes.len()
        invariant
            i <= pushes.len(),
            specs@.len() == i,
            forall|j: int| 0 <= j < i ==> (#[trigger] specs@[j])@ == refspec_text(pushes@[j]@.tip, pushes@[j]@.branch),
        decreases pushes.len() - i,
    {
        specs.push(refspec(pushes[i].tip.as_str(), pushes[i].branch.as_str()));
        i += 1;
    }
    specs
}

impl RebaseTransaction {
    #[verifier::type_invariant]
    closed spec fn inv(&self) -> bool {
        self@.well_formed()
    }

    /// Starts the rebase of the stack `deps` onto the copies that the remote
    /// `remote` holds of its branches. `boundary`, where given, is the
    /// revision at or below which nothing of the first request is replayed;
    /// otherwise that is the nearest common ancestor of the first request's
    /// head and of the remote copy of its base.
    pub fn begin(deps: &FlatDep, remote: &str, boundary: Option<&str>) -> (first: (
        RebaseTransaction,
        RebaseAction,
    ))
        ensures
            (first.0@, first.1@) == TransactionView::start(
                flat_view(deps@),
                remote@,
                optional_text(boundary),
            ),
    {
        let ghost all = flat_view(deps@);
        let mut requests: Vec<Rc<PullRequest>> = Vec::new();
        let mut i: usize = 0;
        while i < deps.len()
            invariant
                i <= deps.len(),
                all == flat_view(deps@),
                snapshots(requests@) == open_requests(all.take(i as int)),
            decreases deps.len() - i,
        {
            proof {
                open_entries_step(all, i as int);
            }
            if *deps[i].0.state() == PullRequestStatus::Open {
                let ghost before = snapshots(requests@);
                requests.push(share(&deps[i].0));
                assert(snapshots(requests@) =~= before.push(
                    all[i as int].request,
                ));
                assert(snapshots(requests@) =~= open_requests(
                    all.take(i as int + 1),
                ));
            }
            i += 1;
        }
        assert(all.take(deps.len() as int) =~= all);
        let explicit_boundary = match boundary {
            Some(rev) => Some(String::from_str(rev)),
            None => None,
        };
        if requests.len() == 0 {
            let transaction = RebaseTransaction {
                requests,
                remote: String::from_str(remote),
                explicit_boundary,
                phase: Phase::Done,
                failure: None,
                cursor: 0,
                base: String::new(),
                boundary: String::new(),
                tip: String::new(),
                range: Vec::new(),
                next: 0,
                pending: Vec::new(),
                pushes: Vec::new(),
                updated: 0,
            };
            (transaction, RebaseAction::Finish)
        } else {
            let action = RebaseAction::Resolve(remote_ref(remote, requests[0].base()));
            let transaction = RebaseTransaction {
                requests,
                remote: String::from_str(remote),
                explicit_boundary,
                phase: Phase::ResolvingBase,
                failure: None,
                cursor: 0,
                base: String::new(),
                boundary: String::new(),
                tip: String::new(),
                range: Vec::new(),
                next: 0,
                pending: Vec::new(),
                pushes: Vec::new(),
                updated: 0,
            };
            (transaction, action)
        }
    }

    /// What the transaction is waiting for.
    pub fn phase(&self) -> (phase: Phase)
        ensures
            phase == self@.phase,
    {
        self.phase
    }

    /// Why the transaction was given up, if it was.
    pub fn failure(&self) -> (failure: Option<RebaseError>)
        ensures
            match failure {
                Some(error) => self@.failure == Some(error@),
                None => self@.failure is None,
            },
    {
        match &self.failure {
            Some(error) => Some(error.duplicate()),
            None => None,
        }
    }

    /// The push instructions recorded so far: one for each request that
    /// was replayed, in their order.
    pub fn push_instructions(&self) -> (pushes: Vec<PushInstruction>)
        ensures
            Seq::new(pushes@.len(), |i: int| pushes@[i]@) == self@.pushes,
    {
        let mut pushes: Vec<PushInstruction> = Vec::new();
        let mut i: usize = 0;
        while i < self.pushes.len()
            invariant
                i <= self.pushes.len(),
                pushes@.len() == i,
                forall|k: int| 0 <= k < i ==> (#[trigger] pushes@[k])@ == self.pushes@[k]@,
            decreases self.pushes.len() - i,
        {
            pushes.push(
                PushInstruction {
                    tip: self.pushes[i].tip.clone(),
                    branch: self.pushes[i].branch.clone(),
                },
            );
            i += 1;
        }
        pushes
    }

    /// The new tips recorded so far for the local branches, in the order
    /// of the requests.
    pub fn branch_updates(&self) -> (updates: Vec<BranchUpdate>)
        ensures
            Seq::new(updates@.len(), |i: int| updates@[i]@) == self@.pending,
    {
        let mut updates: Vec<BranchUpdate> = Vec::new();
        let mut i: usize = 0;
        while i < self.pending.len()
            invariant
                i <= self.pending.len(),
                updates@.len() == i,
                forall|k: int| 0 <= k < i ==> (#[trigger] updates@[k])@ == self.pending@[k]@,
            decreases self.pending.len() - i,
        {
            updates.push(
                BranchUpdate {
                    branch: self.pending[i].branch.clone(),
                    target: self.pending[i].target.clone(),
                },
            );
            i += 1;
        }
        updates
    }

    /// Whether the transaction is through or given up.
    pub fn is_over(&self) -> (over: bool)
        ensures
            over == (self@.phase is Done || self@.phase is Failed),
    {
        match self.phase {
            Phase::Done => true,
            Phase::Failed => true,
            _ => false,
        }
    }

    fn fail(self, error: RebaseError) -> (next: (RebaseTransaction, RebaseAction))
        ensures
            (next.0@, next.1@) == self@.fail(error@),
    {
        proof {
            use_type_invariant(&self);
        }
        let next = RebaseTransaction { phase: Phase::Failed, failure: Some(error.duplicate()), ..self };
        (next, RebaseAction::Abort(error))
    }

    /// The step of the transaction: takes the outcome of the action that
    /// the transaction asked for last, and gives the transaction after it
    /// together with the action to perform next.
    pub fn advance(self, event: RebaseEvent) -> (next: (RebaseTransaction, RebaseAction))
        ensures
            (next.0@, next.1@) == self@.step(event@),
    {
        proof {
            use_type_invariant(&self);
        }
        match self.phase {
            Phase::Done => {
                return (self, RebaseAction::Finish);
            },
            Phase::Failed => {
                let error = match &self.failure {
                    Some(error) => error.duplicate(),
                    None => RebaseError::Unexpected,
                };
                return (self, RebaseAction::Abort(error));
            },
            _ => {},
        }
        match event {
            RebaseEvent::Failed(reason) => self.fail(RebaseError::Backend(reason)),
            RebaseEvent::Resolved(id) => self.on_resolved(id),
            RebaseEvent::MergeBase(id) => match self.phase {
                Phase::FindingBoundary => {
                    let action = RebaseAction::Checkout(self.base.clone());
                    let next = RebaseTransaction { phase: Phase::CheckingOut, boundary: id, ..self };
                    (next, action)
                },
                _ => self.fail(RebaseError::Unexpected),
            },
            RebaseEvent::CheckedOut => match self.phase {
                Phase::CheckingOut => {
                    let action = RebaseAction::Resolve(String::from_str(self.requests[0].head()));
                    let tip = self.base.clone();
                    let next = RebaseTransaction { phase: Phase::ResolvingTip, tip, ..self };
                    (next, action)
                },
                _ => self.fail(RebaseError::Unexpected),
            },
            RebaseEvent::Range(commits) => match self.phase {
                Phase::ListingRange => match find_merge(&commits) {
                    Some(i) => {
                        let id = commits[i].id.clone();
                        self.fail(RebaseError::MergeCommit(id))
                    },
                    None => {
                        let listed = RebaseTransaction { range: commits, next: 0, ..self };
                        assert(listed@ =~= (TransactionView {
                            range: commits_view(commits@),
                            next: 0,
                            ..self@
                        }));
                        listed.continue_replay()
                    },
                },
                _ => self.fail(RebaseError::Unexpected),
            },
            RebaseEvent::CherryPicked { conflicts } => match self.phase {
                Phase::Picking => if conflicts {
                    let next = RebaseTransaction { phase: Phase::AwaitingResolution, ..self };
                    (next, RebaseAction::AwaitResolution)
                } else {
                    self.conclude(false)
                },
                _ => self.fail(RebaseError::Unexpected),
            },
            RebaseEvent::ConflictsResolved => match self.phase {
                Phase::AwaitingResolution => self.conclude(true),
                _ => self.fail(RebaseError::Unexpected),
            },
            RebaseEvent::Committed(id) => match self.phase {
                Phase::Committing => {
                    let length = self.range.len();
                    let next_place: usize = self.next + 1;
                    if next_place < length {
                        let committed = RebaseTransaction { tip: id, next: next_place, ..self };
                        assert(committed@ =~= (TransactionView {
                            tip: id@,
                            next: self@.next + 1,
                            ..self@
                        }));
                        committed.continue_replay()
                    } else {
                        self.close_range(id)
                    }
                },
                _ => self.fail(RebaseError::Unexpected),
            },
            RebaseEvent::Confirmation(yes) => match self.phase {
                Phase::Confirming => if yes {
                    let action = RebaseAction::Push {
                        remote: self.remote.clone(),
                        refspecs: render_refspecs(&self.pushes),
                    };
                    let next = RebaseTransaction { phase: Phase::Pushing, ..self };
                    (next, action)
                } else {
                    self.fail(RebaseError::Declined)
                },
                _ => self.fail(RebaseError::Unexpected),
            },
            RebaseEvent::Pushed => match self.phase {
                Phase::Pushing => self.continue_update(0),
                _ => self.fail(RebaseError::Unexpected),
            },
            RebaseEvent::BranchUpdated => match self.phase {
                Phase::Updating => {
                    let updated: usize = self.updated + 1;
                    self.continue_update(updated)
                },
                _ => self.fail(RebaseError::Unexpected),
            },
        }
    }

    fn on_resolved(self, id: String) -> (next: (RebaseTransaction, RebaseAction))
        requires
            !(self@.phase is Done),
            !(self@.phase is Failed),
        ensures
            (next.0@, next.1@) == self@.proceed(EventView::Resolved(id@)),
    {
        proof {
            use_type_invariant(&self);
        }
        match self.phase {
            Phase::ResolvingBase => {
                let action = RebaseAction::Resolve(String::from_str(self.requests[0].head()));
                let next = RebaseTransaction { phase: Phase::ResolvingHead, base: id, ..self };
                (next, action)
            },
            Phase::ResolvingHead => {
                let action = match &self.explicit_boundary {
                    Some(rev) => RebaseAction::Resolve(rev.clone()),
                    None => RebaseAction::FindMergeBase { one: self.base.clone(), two: id },
                };
                let phase = match &self.explicit_boundary {
                    Some(_) => Phase::ResolvingBoundary,
                    None => Phase::FindingBoundary,
                };
                let next = RebaseTransaction { phase, ..self };
                (next, action)
            },
            Phase::ResolvingBoundary => {
                let action = RebaseAction::Checkout(self.base.clone());
                let next = RebaseTransaction { phase: Phase::CheckingOut, boundary: id, ..self };
                (next, action)
            },
            Phase::ResolvingTip => {
                let action = RebaseAction::ListRange { from: id, hide: self.boundary.clone() };
                let next = RebaseTransaction { phase: Phase::ListingRange, ..self };
                (next, action)
            },
            Phase::ResolvingRemote => {
                let instruction = PushInstruction {
                    tip: self.tip.clone(),
                    branch: String::from_str(self.requests[self.cursor].head()),
                };
                let length = self.requests.len();
                let cursor: usize = self.cursor + 1;
                let ghost added = self@.pushes.push(
                    PushView { tip: self@.tip, branch: self@.requests[self@.cursor as int].head.gitref },
                );
                proof {
                    records_agree_with_push(self@.requests, self@.pending, self@.pushes);
                }
                if cursor < length {
                    let action = RebaseAction::Resolve(String::from_str(self.requests[cursor].head()));
                    let mut pushes = self.pushes;
                    pushes.push(instruction);
                    assert(Seq::new(pushes@.len(), |i: int| pushes@[i]@) =~= added);
                    let next = RebaseTransaction {
                        phase: Phase::ResolvingTip,
                        boundary: id,
                        pushes,
                        cursor,
                        ..self
                    };
                    (next, action)
                } else {
                    let mut pushes = self.pushes;
                    pushes.push(instruction);
                    assert(Seq::new(pushes@.len(), |i: int| pushes@[i]@) =~= added);
                    let action = RebaseAction::ConfirmPush(render_refspecs(&pushes));
                    let next = RebaseTransaction {
                        phase: Phase::Confirming,
                        boundary: id,
                        pushes,
                        cursor,
                        ..self
                    };
                    (next, action)
                }
            },
            _ => self.fail(RebaseError::Unexpected),
        }
    }

    fn conclude(self, resolved: bool) -> (next: (RebaseTransaction, RebaseAction))
        requires
            self@.phase is Picking || self@.phase is AwaitingResolution,
        ensures
            (next.0@, next.1@) == self@.conclude(resolved),
    {
        proof {
            use_type_invariant(&self);
        }
        let action = RebaseAction::Commit {
            message: self.range[self.next].message.clone(),
            parent: self.tip.clone(),
            resolved,
        };
        let next = RebaseTransaction { phase: Phase::Committing, ..self };
        (next, action)
    }

    fn continue_replay(self) -> (next: (RebaseTransaction, RebaseAction))
        requires
            self@.phase is ListingRange || self@.phase is Committing,
        ensures
            (next.0@, next.1@) == self@.continue_replay(),
    {
        proof {
            use_type_invariant(&self);
        }
        if self.next < self.range.len() {
            let action = RebaseAction::CherryPick(self.range[self.next].id.clone());
            let next = RebaseTransaction { phase: Phase::Picking, ..self };
            (next, action)
        } else {
            let head = self.requests[self.cursor].head();
            let action = RebaseAction::Resolve(remote_ref(self.remote.as_str(), head));
            let update = BranchUpdate { branch: String::from_str(head), target: self.tip.clone() };
            let ghost added = self@.pending.push(update@);
            proof {
                records_agree_with_tip(self@.requests, self@.pending, self@.pushes, self@.tip);
            }
            let mut pending = self.pending;
            pending.push(update);
            assert(Seq::new(pending@.len(), |i: int| pending@[i]@) =~= added);
            let next = RebaseTransaction { phase: Phase::ResolvingRemote, pending, ..self };
            (next, action)
        }
    }

    /// The step after the last commit of the range was concluded as `id`.
    fn close_range(self, id: String) -> (next: (RebaseTransaction, RebaseAction))
        requires
            self@.phase is Committing,
            self@.next + 1 >= self@.range.len(),
        ensures
            (next.0@, next.1@) == (TransactionView {
                tip: id@,
                next: self@.next + 1,
                ..self@
            }).continue_replay(),
    {
        proof {
            use_type_invariant(&self);
        }
        let head = self.requests[self.cursor].head();
        let action = RebaseAction::Resolve(remote_ref(self.remote.as_str(), head));
        let update = BranchUpdate { branch: String::from_str(head), target: id.clone() };
        let ghost added = self@.pending.push(update@);
        proof {
            records_agree_with_tip(self@.requests, self@.pending, self@.pushes, id@);
        }
        let mut pending = self.pending;
        pending.push(update);
        assert(Seq::new(pending@.len(), |i: int| pending@[i]@) =~= added);
        let length = self.range.len();
        let next_place: usize = self.next + 1;
        let next = RebaseTransaction {
            phase: Phase::ResolvingRemote,
            tip: id,
            next: next_place,
            pending,
            ..self
        };
        assert(next@ =~= (TransactionView {
            tip: id@,
            next: self@.next + 1,
            ..self@
        }).continue_replay().0);
        (next, action)
    }

    fn continue_update(self, updated: usize) -> (next: (RebaseTransaction, RebaseAction))
        requires
            self@.phase is Pushing || self@.phase is Updating,
            updated <= self@.pending.len(),
        ensures
            (next.0@, next.1@) == (TransactionView {
                updated: updated as nat,
                ..self@
            }).continue_update(),
    {
        proof {
            use_type_invariant(&self);
        }
        if updated < self.pending.len() {
            let action = RebaseAction::UpdateBranch {
                branch: self.pending[updated].branch.clone(),
                target: self.pending[updated].target.clone(),
            };
            let next = RebaseTransaction { phase: Phase::Updating, updated, ..self };
            assert(next@ =~= (TransactionView {
                updated: updated as nat,
                ..self@
            }).continue_update().0);
            (next, action)
        } else {
            let next = RebaseTransaction { phase: Phase::Done, updated, ..self };
            assert(next@ =~= (TransactionView {
                updated: updated as nat,
                ..self@
            }).continue_update().0);
            (next, RebaseAction::Finish)
        }
    }
}

} // verus!
