use gh_stack::api::pull_request::PullRequest;
use gh_stack::api::pull_request::PullRequestRef;
use gh_stack::api::pull_request::PullRequestReview;
use gh_stack::api::pull_request::PullRequestReviewState;
use gh_stack::api::pull_request::PullRequestStatus;
use gh_stack::graph::FlatDep;
use gh_stack::markdown::build_table;
use std::rc::Rc;

fn listed(number: usize, title: &str, state: PullRequestStatus, draft: bool, approved: bool) -> Rc<PullRequest> {
    let pr = PullRequest::new(
        number,
        number,
        PullRequestRef::new("", &format!("b{}", number), ""),
        PullRequestRef::new("", "develop", ""),
        title,
        "",
        "",
        state,
        draft,
    );
    if approved {
        Rc::new(pr.with_reviews(vec![PullRequestReview::new(PullRequestReviewState::APPROVED, "")]))
    } else {
        Rc::new(pr)
    }
}

const TABLE_HEAD: &str = "| PR | Title | Status |  Merges Into  |\n|:--:|:------|:-------|:-------------:|\n";

#[test]
fn table_of_an_empty_stack_is_complete() {
    let deps: FlatDep = Vec::new();
    assert_eq!(
        build_table(&deps, "JIRA-1", None),
        format!("### ✅ Stacked PR Chain: JIRA-1\n{}", TABLE_HEAD)
    );
}

#[test]
fn table_lists_each_request_with_its_target() {
    let first = listed(1, " First ", PullRequestStatus::Open, false, true);
    let second = listed(22, "Second", PullRequestStatus::Closed, true, false);
    let third = listed(333, "Third", PullRequestStatus::Open, true, false);
    let deps: FlatDep = vec![
        (first.clone(), None),
        (second.clone(), Some(first.clone())),
        (third.clone(), Some(second.clone())),
    ];
    let expected = format!(
        "### Stacked PR Chain: JIRA-1\n{}{}{}{}",
        TABLE_HEAD,
        "|#1|First|**Approved**|-|\n",
        "|#22|~~*(Draft) Second*~~|**Closed**|#1|\n",
        "|#333|*(Draft) Third*|Pending|#22|\n",
    );
    assert_eq!(build_table(&deps, "JIRA-1", None), expected);
}

#[test]
fn table_of_closed_requests_carries_the_check_mark() {
    let first = listed(4, "One", PullRequestStatus::Closed, false, true);
    let second = listed(5, "Two", PullRequestStatus::Closed, false, false);
    let deps: FlatDep = vec![(first.clone(), None), (second.clone(), Some(first.clone()))];
    let expected = format!(
        "### ✅ Stacked PR Chain: done\n{}{}{}",
        TABLE_HEAD, "|#4|~~One~~|**Closed**|-|\n", "|#5|~~Two~~|**Closed**|#4|\n",
    );
    assert_eq!(build_table(&deps, "done", None), expected);
}

#[test]
fn table_follows_the_prelude() {
    let only = listed(10, "Only", PullRequestStatus::Open, false, false);
    let deps: FlatDep = vec![(only, None)];
    let expected = format!(
        "### Stacked PR Chain: T\nRead this first.\n\n{}{}",
        TABLE_HEAD, "|#10|Only|Pending|-|\n",
    );
    assert_eq!(build_table(&deps, "T", Some("Read this first.\n")), expected);
    let bare = format!("### Stacked PR Chain: T\n\n{}{}", TABLE_HEAD, "|#10|Only|Pending|-|\n");
    assert_eq!(build_table(&deps, "T", Some("")), bare);
}

#[test]
fn table_writes_the_largest_number() {
    let largest = listed(usize::MAX, "Largest", PullRequestStatus::Open, false, false);
    let nine = listed(9, "Nine", PullRequestStatus::Open, false, false);
    let ten = listed(10, "Ten", PullRequestStatus::Open, false, false);
    let deps: FlatDep = vec![(largest.clone(), None), (nine, Some(largest.clone())), (ten, None)];
    let expected = format!(
        "### Stacked PR Chain: n\n{}|#{}|Largest|Pending|-|\n|#9|Nine|Pending|#{}|\n|#10|Ten|Pending|-|\n",
        TABLE_HEAD,
        usize::MAX,
        usize::MAX,
    );
    assert_eq!(build_table(&deps, "n", None), expected);
}

#[test]
fn table_writes_numbers_in_base_ten() {
    let zero = listed(0, "Zero", PullRequestStatus::Open, false, false);
    let large = listed(1234567890, "Large", PullRequestStatus::Open, false, false);
    let round = listed(1000, "Round", PullRequestStatus::Open, false, false);
    let deps: FlatDep = vec![
        (zero.clone(), None),
        (large.clone(), Some(zero.clone())),
        (round.clone(), Some(large.clone())),
    ];
    let expected = format!(
        "### Stacked PR Chain: n\n{}{}{}{}",
        TABLE_HEAD,
        "|#0|Zero|Pending|-|\n",
        "|#1234567890|Large|Pending|#0|\n",
        "|#1000|Round|Pending|#1234567890|\n",
    );
    assert_eq!(build_table(&deps, "n", None), expected);
}
