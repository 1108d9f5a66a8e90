//! The table that summarises a stack in the description of each of its
//! pull requests.

use crate::api::pull_request::PullRequestReviewState;
use crate::api::pull_request::PullRequestStatus;
use crate::api::pull_request::RequestSnapshot;
use crate::graph::flat_view;
use crate::graph::Dependency;
use crate::graph::FlatDep;
use crate::text::decimal;
use crate::text::optional_text;
use crate::text::to_decimal;
use vstd::prelude::*;
use vstd::string::*;

verus! {

/// Whether every request of the stack is closed.
pub open spec fn is_complete(deps: Seq<Dependency>) -> bool {
    forall|i: int| 0 <= i < deps.len() ==> (#[trigger] deps[i]).request.state == PullRequestStatus::Closed
}

/// The first line of the table: the title of the stack, with a check mark
/// once the stack is complete.
pub open spec fn heading(deps: Seq<Dependency>, title: Seq<char>) -> Seq<char> {
    if is_complete(deps) {
        "### ✅ Stacked PR Chain: "@ + title + "\n"@
    } else {
        "### Stacked PR Chain: "@ + title + "\n"@
    }
}

/// The text placed between the heading and the table.
pub open spec fn prelude_block(prelude: Option<Seq<char>>) -> Seq<char> {
    match prelude {
        Some(text) => text + "\n"@,
        None => Seq::empty(),
    }
}

/// The two lines that open the table.
pub open spec fn table_head() -> Seq<char> {
    "| PR | Title | Status |  Merges Into  |\n"@ + "|:--:|:------|:-------|:-------------:|\n"@
}

/// How a review state reads in the table.
pub open spec fn review_label(state: PullRequestReviewState) -> Seq<char> {
    match state {
        PullRequestReviewState::APPROVED => "**Approved**"@,
        PullRequestReviewState::MERGED => "**Merged**"@,
        PullRequestReviewState::PENDING => "Pending"@,
        PullRequestReviewState::CHANGES_REQUESTED => "Changes requested"@,
        PullRequestReviewState::DISMISSED => "Dismissed"@,
        PullRequestReviewState::COMMENTED => "Commented"@,
    }
}

/// The status column of a request: closed requests read as closed unless
/// they were merged, the others by their review state.
pub open spec fn status_label(request: RequestSnapshot) -> Seq<char> {
    if request.review_state() != PullRequestReviewState::MERGED && request.state
        == PullRequestStatus::Closed {
        "**Closed**"@
    } else {
        review_label(request.review_state())
    }
}

/// The last column of a request: the number of the request it merges into.
pub open spec fn target_label(parent: Option<RequestSnapshot>) -> Seq<char> {
    match parent {
        Some(parent) => "#"@ + decimal(parent.number),
        None => "-"@,
    }
}

/// The line of the table for one entry of the stack.
pub open spec fn row(entry: Dependency) -> Seq<char> {
    "|#"@ + decimal(entry.request.number) + "|"@ + entry.request.display_title() + "|"@
        + status_label(entry.request) + "|"@ + target_label(entry.parent) + "|\n"@
}

/// The lines of the table for the entries of the stack, in their order.
pub open spec fn rows(deps: Seq<Dependency>) -> Seq<char>
    decreases deps.len(),
{
    if deps.len() == 0 {
        Seq::empty()
    } else {
        rows(deps.drop_last()) + row(deps.last())
    }
}

/// The whole table.
pub open spec fn table(deps: Seq<Dependency>, title: Seq<char>, prelude: Option<Seq<char>>) -> Seq<
    char,
> {
    heading(deps, title) + prelude_block(prelude) + table_head() + rows(deps)
}

fn all_closed(deps: &FlatDep) -> (complete: bool)
    ensures
        complete == is_complete(flat_view(deps@)),
{
    let mut i: usize = 0;
    while i < deps.len()
        invariant
            i <= deps.len(),
            forall|j: int| 0 <= j < i ==> (#[trigger] flat_view(deps@)[j]).request.state == PullRequestStatus::Closed,
        decreases deps.len() - i,
    {
        if *deps[i].0.state() != PullRequestStatus::Closed {
            assert(flat_view(deps@)[i as int].request.state != PullRequestStatus::Closed);
            return false;
        }
        i += 1;
    }
    true
}

fn status_text(state: PullRequestReviewState, status: PullRequestStatus) -> (label: &'static str)
    ensures
        label@ == if state != PullRequestReviewState::MERGED && status == PullRequestStatus::Closed {
            "**Closed**"@
        } else {
            review_label(state)
        },
{
    let by_review = match state {
        PullRequestReviewState::APPROVED => "**Approved**",
        PullRequestReviewState::MERGED => "**Merged**",
        PullRequestReviewState::PENDING => "Pending",
        PullRequestReviewState::CHANGES_REQUESTED => "Changes requested",
        PullRequestReviewState::DISMISSED => "Dismissed",
        PullRequestReviewState::COMMENTED => "Commented",
    };
    if state != PullRequestReviewState::MERGED && status == PullRequestStatus::Closed {
        "**Closed**"
    } else {
        by_review
    }
}

/// Renders the table for the stack `deps` under the title `title`. `prelude`
/// is text to place before the table, already read.
pub fn build_table(deps: &FlatDep, title: &str, prelude: Option<&str>) -> (out: String)
    ensures
        out@ == table(flat_view(deps@), title@, optional_text(prelude)),
{
    let mut out = String::new();
    if all_closed(deps) {
        out.append("### ✅ Stacked PR Chain: ");
    } else {
        out.append("### Stacked PR Chain: ");
    }
    out.append(title);
    out.append("\n");
    if let Some(text) = prelude {
        out.append(text);
        out.append("\n");
    }
    out.append("| PR | Title | Status |  Merges Into  |\n");
    out.append("|:--:|:------|:-------|:-------------:|\n");
    let ghost top = heading(flat_view(deps@), title@) + prelude_block(optional_text(prelude)) + table_head();
    let mut i: usize = 0;
    while i < deps.len()
        invariant
            i <= deps.len(),
            out@ == top + rows(flat_view(deps@).take(i as int)),
        decreases deps.len() - i,
    {
        let node = &deps[i].0;
        let number = to_decimal(node.number());
        let shown = node.title();
        let status = status_text(node.review_state(), *node.state());
        let ghost before = out@;
        out.append("|#");
        out.append(number.as_str());
        out.append("|");
        out.append(shown.as_str());
        out.append("|");
        out.append(status);
        out.append("|");
        match &deps[i].1 {
            None => {
                out.append("-");
            },
            Some(parent) => {
                let target = to_decimal(parent.number());
                out.append("#");
                out.append(target.as_str());
            },
        }
        out.append("|\n");
        proof {
            let all = flat_view(deps@);
            let done = all.take(i as int + 1);
            assert(done.drop_last() =~= all.take(i as int));
            assert(out@ =~= before + row(all[i as int]));
        }
        i += 1;
    }
    assert(flat_view(deps@).take(deps.len() as int) =~= flat_view(deps@));
    out
}

} // verus!
