use gh_stack::api::authorization;
use gh_stack::api::pull_request::PullRequest;
use gh_stack::api::pull_request::PullRequestRef;
use gh_stack::api::pull_request::PullRequestReview;
use gh_stack::api::pull_request::PullRequestReviewState;
use gh_stack::api::pull_request::PullRequestStatus;
use gh_stack::api::search::reviews_url;
use gh_stack::api::search::search_query;
use gh_stack::api::search::SearchItem;
use gh_stack::api::search_url;
use gh_stack::api::user_agent;
use gh_stack::Credentials;

fn fetched(title: &str, state: PullRequestStatus, draft: bool) -> PullRequest {
    PullRequest::new(
        99,
        7,
        PullRequestRef::new("owner:feature", "feature", "abc"),
        PullRequestRef::new("owner:develop", "develop", "def"),
        title,
        "https://api.github.com/repos/owner/repo/pulls/7",
        "The body.",
        state,
        draft,
    )
}

#[test]
fn getters_return_what_was_fetched() {
    let pr = fetched("A title", PullRequestStatus::Open, false);
    assert_eq!(pr.head(), "feature");
    assert_eq!(pr.base(), "develop");
    assert_eq!(pr.url(), "https://api.github.com/repos/owner/repo/pulls/7");
    assert_eq!(pr.number(), 7);
    assert_eq!(pr.body(), "The body.");
    assert_eq!(*pr.state(), PullRequestStatus::Open);
    let closed = fetched("A title", PullRequestStatus::Closed, false);
    assert_eq!(*closed.state(), PullRequestStatus::Closed);
}

#[test]
fn title_is_trimmed() {
    assert_eq!(fetched("  A title \n", PullRequestStatus::Open, false).title(), "A title");
    assert_eq!(fetched("A  title", PullRequestStatus::Open, false).title(), "A  title");
    assert_eq!(fetched("", PullRequestStatus::Open, false).title(), "");
    assert_eq!(fetched(" \t ", PullRequestStatus::Open, false).title(), "");
}

#[test]
fn title_is_trimmed_of_unicode_white_space() {
    let title = "\u{2003}\u{a0}\u{3000}A title\u{85}\u{2028}\u{1680}";
    assert_eq!(fetched(title, PullRequestStatus::Open, false).title(), "A title");
    // A zero width space is no white space.
    assert_eq!(fetched("\u{200b}x", PullRequestStatus::Open, false).title(), "\u{200b}x");
}

#[test]
fn title_is_trimmed_of_exactly_the_white_space_characters() {
    let white = |c: char| {
        let u = c as u32;
        (0x09..=0x0d).contains(&u)
            || u == 0x20
            || u == 0x85
            || u == 0xa0
            || u == 0x1680
            || (0x2000..=0x200a).contains(&u)
            || u == 0x2028
            || u == 0x2029
            || u == 0x202f
            || u == 0x205f
            || u == 0x3000
    };
    let mut seen = 0;
    for u in 0..=0x10ffffu32 {
        if let Some(c) = char::from_u32(u) {
            let title = format!("{}x{}", c, c);
            let shown = fetched(&title, PullRequestStatus::Open, false).title();
            if white(c) {
                assert_eq!(shown, "x");
                seen += 1;
            } else {
                assert_eq!(shown, title);
            }
        }
    }
    assert_eq!(seen, 25);
}

#[test]
fn title_keeps_white_space_inside() {
    assert_eq!(fetched(" a \t b ", PullRequestStatus::Open, false).title(), "a \t b");
    assert_eq!(fetched("\n\n", PullRequestStatus::Closed, true).title(), "~~*(Draft) *~~");
}

#[test]
fn title_shows_draft_and_closed() {
    assert_eq!(fetched(" T ", PullRequestStatus::Open, true).title(), "*(Draft) T*");
    assert_eq!(fetched(" T ", PullRequestStatus::Closed, false).title(), "~~T~~");
    assert_eq!(fetched(" T ", PullRequestStatus::Closed, true).title(), "~~*(Draft) T*~~");
}

#[test]
fn review_state_is_approved_after_one_approval() {
    let pr = fetched("T", PullRequestStatus::Open, false);
    assert_eq!(pr.review_state(), PullRequestReviewState::PENDING);
    assert!(!pr.at_least_one_approval());
    let commented = pr.with_reviews(vec![
        PullRequestReview::new(PullRequestReviewState::COMMENTED, "hm"),
        PullRequestReview::new(PullRequestReviewState::CHANGES_REQUESTED, "no"),
    ]);
    assert_eq!(commented.review_state(), PullRequestReviewState::PENDING);
    let approved = commented.with_reviews(vec![
        PullRequestReview::new(PullRequestReviewState::DISMISSED, ""),
        PullRequestReview::new(PullRequestReviewState::APPROVED, "fine"),
        PullRequestReview::new(PullRequestReviewState::COMMENTED, ""),
    ]);
    assert_eq!(approved.review_state(), PullRequestReviewState::APPROVED);
    assert!(approved.at_least_one_approval());
    assert_eq!(approved.head(), "feature");
    assert_eq!(approved.number(), 7);
}

#[test]
fn review_is_approved_only_when_approved() {
    assert!(PullRequestReview::new(PullRequestReviewState::APPROVED, "").is_approved());
    assert!(!PullRequestReview::new(PullRequestReviewState::PENDING, "").is_approved());
    assert!(!PullRequestReview::new(PullRequestReviewState::CHANGES_REQUESTED, "").is_approved());
    assert!(!PullRequestReview::new(PullRequestReviewState::DISMISSED, "").is_approved());
    assert!(!PullRequestReview::new(PullRequestReviewState::COMMENTED, "").is_approved());
    assert!(!PullRequestReview::new(PullRequestReviewState::MERGED, "").is_approved());
}

#[test]
fn status_orders_open_before_closed() {
    assert!(PullRequestStatus::Open < PullRequestStatus::Closed);
}

#[test]
fn credentials_keep_the_token() {
    let credentials = Credentials::new("t0ken");
    assert_eq!(credentials.token(), "t0ken");
    assert_eq!(authorization(&credentials), "token t0ken");
    assert_eq!(user_agent(), "timothyandrew/gh-stack");
    assert_eq!(search_url(), "https://api.github.com/search/issues");
}

#[test]
fn search_asks_for_the_title() {
    assert_eq!(search_query("JIRA-1"), "\"JIRA-1\" in:title");
    assert_eq!(search_query(""), "\"\" in:title");
}

#[test]
fn search_item_leads_to_the_pull_request() {
    let item = SearchItem::new("https://api.github.com/repos/owner/repo/issues/7", "A title");
    assert_eq!(item.url(), "https://api.github.com/repos/owner/repo/issues/7");
    assert_eq!(item.title(), "A title");
    assert_eq!(item.pull_request_url(), "https://api.github.com/repos/owner/repo/pulls/7");
    let twice = SearchItem::new("issues/issuesissues/issue", "");
    assert_eq!(twice.pull_request_url(), "pulls/pullspulls/issue");
    let partly = SearchItem::new("issuissues-issue-sissues", "");
    assert_eq!(partly.pull_request_url(), "issupulls-issue-spulls");
    let none = SearchItem::new("https://example.org/7", "");
    assert_eq!(none.pull_request_url(), "https://example.org/7");
}

#[test]
fn reviews_are_found_below_the_request() {
    let pr = fetched("T", PullRequestStatus::Open, false);
    assert_eq!(reviews_url(&pr), "https://api.github.com/repos/owner/repo/pulls/7/reviews");
}
