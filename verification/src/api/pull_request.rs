//! Snapshots of pull requests and of their reviews.

use crate::text::trim;
use crate::text::trimmed;
use vstd::prelude::*;
use vstd::string::*;

verus! {

/// The verdict of one review, or of a pull request as a whole.
#[derive(Debug, Clone, Copy, PartialEq, Eq, Structural)]
#[allow(non_camel_case_types)]
pub enum PullRequestReviewState {
    APPROVED,
    PENDING,
    CHANGES_REQUESTED,
    DISMISSED,
    COMMENTED,
    MERGED,
}

/// What a [`PullRequestReview`] holds.
pub struct ReviewView {
    pub state: PullRequestReviewState,
    pub body: Seq<char>,
}

/// One review left on a pull request.
#[derive(Debug, Clone)]
pub struct PullRequestReview {
    state: PullRequestReviewState,
    body: String,
}

impl View for PullRequestReview {
    type V = ReviewView;

    closed spec fn view(&self) -> ReviewView {
        ReviewView { state: self.state, body: self.body@ }
    }
}

impl PullRequestReview {
    pub fn new(state: PullRequestReviewState, body: &str) -> (review: PullRequestReview)
        ensures
            review@ == (ReviewView { state, body: body@ }),
    {
        PullRequestReview { state, body: body.to_owned() }
    }

    pub fn state(&self) -> (state: PullRequestReviewState)
        ensures
            state == self@.state,
    {
        self.state
    }

    pub fn body(&self) -> (body: &str)
        ensures
            body@ == self@.body,
    {
        self.body.as_str()
    }

    pub fn is_approved(&self) -> (approved: bool)
        ensures
            approved == (self@.state == PullRequestReviewState::APPROVED),
    {
        self.state == PullRequestReviewState::APPROVED
    }
}

/// What a [`PullRequestRef`] holds.
pub struct RefView {
    pub label: Seq<char>,
    pub gitref: Seq<char>,
    pub sha: Seq<char>,
}

/// One end of a pull request: a branch and the commit it pointed at.
#[derive(Debug, Clone)]
pub struct PullRequestRef {
    label: String,
    gitref: String,
    sha: String,
}

impl View for PullRequestRef {
    type V = RefView;

    closed spec fn view(&self) -> RefView {
        RefView { label: self.label@, gitref: self.gitref@, sha: self.sha@ }
    }
}

impl PullRequestRef {
    pub fn new(label: &str, gitref: &str, sha: &str) -> (r: PullRequestRef)
        ensures
            r@ == (RefView { label: label@, gitref: gitref@, sha: sha@ }),
    {
        PullRequestRef { label: label.to_owned(), gitref: gitref.to_owned(), sha: sha.to_owned() }
    }

    /// The branch with the name of its owner before it.
    pub fn label(&self) -> (label: &str)
        ensures
            label@ == self@.label,
    {
        self.label.as_str()
    }

    /// The name of the branch.
    pub fn gitref(&self) -> (gitref: &str)
        ensures
            gitref@ == self@.gitref,
    {
        self.gitref.as_str()
    }

    /// The commit that the branch pointed at.
    pub fn sha(&self) -> (sha: &str)
        ensures
            sha@ == self@.sha,
    {
        self.sha.as_str()
    }
}

/// Whether a pull request is still open.
#[derive(Debug, Clone, Copy, PartialEq, Eq, PartialOrd, Ord, Structural)]
pub enum PullRequestStatus {
    Open,
    Closed,
}

/// What a [`PullRequest`] holds.
pub struct RequestSnapshot {
    pub id: nat,
    pub number: nat,
    pub head: RefView,
    pub base: RefView,
    pub title: Seq<char>,
    pub url: Seq<char>,
    pub body: Seq<char>,
    pub state: PullRequestStatus,
    pub draft: bool,
    pub reviews: Seq<ReviewView>,
}

impl RequestSnapshot {
    /// Whether some review approves the request.
    pub open spec fn approved(self) -> bool {
        exists|i: int| 0 <= i < self.reviews.len() && (#[trigger] self.reviews[i]).state == PullRequestReviewState::APPROVED
    }

    /// The review state shown for the request: approved as soon as one
    /// review approves, pending otherwise.
    pub open spec fn review_state(self) -> PullRequestReviewState {
        if self.approved() {
            PullRequestReviewState::APPROVED
        } else {
            PullRequestReviewState::PENDING
        }
    }

    /// The title as it is displayed: trimmed, marked as a draft where it is
    /// one, and struck through once the request is closed.
    pub open spec fn display_title(self) -> Seq<char> {
        let plain = trim(self.title);
        let marked = if self.draft {
            "*(Draft) "@ + plain + "*"@
        } else {
            plain
        };
        match self.state {
            PullRequestStatus::Open => marked,
            PullRequestStatus::Closed => "~~"@ + marked + "~~"@,
        }
    }
}

/// A pull request as it was fetched.
#[derive(Debug, Clone)]
pub struct PullRequest {
    id: usize,
    number: usize,
    head: PullRequestRef,
    base: PullRequestRef,
    title: String,
    url: String,
    body: String,
    state: PullRequestStatus,
    draft: bool,
    reviews: Vec<PullRequestReview>,
}

impl View for PullRequest {
    type V = RequestSnapshot;

    closed spec fn view(&self) -> RequestSnapshot {
        RequestSnapshot {
            id: self.id as nat,
            number: self.number as nat,
            head: self.head@,
            base: self.base@,
            title: self.title@,
            url: self.url@,
            body: self.body@,
            state: self.state,
            draft: self.draft,
            reviews: Seq::new(self.reviews@.len(), |i: int| self.reviews@[i]@),
        }
    }
}

impl PullRequest {
    /// A request without reviews.
    pub fn new(
        id: usize,
        number: usize,
        head: PullRequestRef,
        base: PullRequestRef,
        title: &str,
        url: &str,
        body: &str,
        state: PullRequestStatus,
        draft: bool,
    ) -> (pr: PullRequest)
        ensures
            pr@ == (RequestSnapshot {
                id: id as nat,
                number: number as nat,
                head: head@,
                base: base@,
                title: title@,
                url: url@,
                body: body@,
                state,
                draft,
                reviews: Seq::empty(),
            }),
    {
        let pr = PullRequest {
            id,
            number,
            head,
            base,
            title: title.to_owned(),
            url: url.to_owned(),
            body: body.to_owned(),
            state,
            draft,
            reviews: Vec::new(),
        };
        assert(pr@.reviews =~= Seq::empty());
        pr
    }

    /// The same request with `reviews` in place of the reviews it had.
    pub fn with_reviews(self, reviews: Vec<PullRequestReview>) -> (pr: PullRequest)
        ensures
            pr@ == (RequestSnapshot {
                reviews: Seq::new(reviews@.len(), |i: int| reviews@[i]@),
                ..self@
            }),
    {
        PullRequest { reviews, ..self }
    }

    pub fn id(&self) -> (id: usize)
        ensures
            id == self@.id,
    {
        self.id
    }

    /// The branch that the request comes from.
    pub fn head_ref(&self) -> (head: &PullRequestRef)
        ensures
            head@ == self@.head,
    {
        &self.head
    }

    /// The branch that the request merges into.
    pub fn base_ref(&self) -> (base: &PullRequestRef)
        ensures
            base@ == self@.base,
    {
        &self.base
    }

    /// The title as it was fetched.
    pub fn raw_title(&self) -> (title: &str)
        ensures
            title@ == self@.title,
    {
        self.title.as_str()
    }

    pub fn is_draft(&self) -> (draft: bool)
        ensures
            draft == self@.draft,
    {
        self.draft
    }

    /// The reviews attached to the request.
    pub fn reviews(&self) -> (reviews: &Vec<PullRequestReview>)
        ensures
            Seq::new(reviews@.len(), |i: int| reviews@[i]@) == self@.reviews,
    {
        &self.reviews
    }

    pub fn head(&self) -> (name: &str)
        ensures
            name@ == self@.head.gitref,
    {
        self.head.gitref.as_str()
    }

    pub fn base(&self) -> (name: &str)
        ensures
            name@ == self@.base.gitref,
    {
        self.base.gitref.as_str()
    }

    pub fn url(&self) -> (url: &str)
        ensures
            url@ == self@.url,
    {
        self.url.as_str()
    }

    pub fn number(&self) -> (number: usize)
        ensures
            number == self@.number,
    {
        self.number
    }

    pub fn title(&self) -> (title: String)
        ensures
            title@ == self@.display_title(),
    {
        let plain = trimmed(self.title.as_str());
        let mut marked = String::new();
        if self.draft {
            marked.append("*(Draft) ");
            marked.append(plain);
            marked.append("*");
        } else {
            marked.append(plain);
        }
        match self.state {
            PullRequestStatus::Open => marked,
            PullRequestStatus::Closed => {
                let mut struck = String::from_str("~~");
                struck.append(marked.as_str());
                struck.append("~~");
                struck
            },
        }
    }

    pub fn state(&self) -> (state: &PullRequestStatus)
        ensures
            *state == self@.state,
    {
        &self.state
    }

    pub fn review_state(&self) -> (state: PullRequestReviewState)
        ensures
            state == self@.review_state(),
    {
        if self.at_least_one_approval() {
            PullRequestReviewState::APPROVED
        } else {
            PullRequestReviewState::PENDING
        }
    }

    pub fn body(&self) -> (body: &str)
        ensures
            body@ == self@.body,
    {
        self.body.as_str()
    }

    pub fn at_least_one_approval(&self) -> (approved: bool)
        ensures
            approved == self@.approved(),
    {
        let mut i: usize = 0;
        while i < self.reviews.len()
            invariant
                i <= self.reviews.len(),
                forall|j: int| 0 <= j < i ==> (#[trigger] self@.reviews[j]).state != PullRequestReviewState::APPROVED,
            decreases self.reviews.len() - i,
        {
            if self.reviews[i].is_approved() {
                assert(self@.reviews[i as int].state == PullRequestReviewState::APPROVED);
                return true;
            }
            i += 1;
        }
        false
    }
}

} // verus!
