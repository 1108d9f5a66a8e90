//! The search for the pull requests of a stack: what is asked of the
//! hosting service, and where.

use crate::api::pull_request::PullRequest;
use crate::text::replace;
use crate::text::replaced;
use vstd::prelude::*;
use vstd::string::*;

verus! {

/// What a [`SearchItem`] holds.
pub struct SearchItemView {
    pub url: Seq<char>,
    pub title: Seq<char>,
}

/// One hit of a search: an issue that the title matched.
#[derive(Debug, Clone)]
pub struct SearchItem {
    url: String,
    title: String,
}

impl View for SearchItem {
    type V = SearchItemView;

    closed spec fn view(&self) -> SearchItemView {
        SearchItemView { url: self.url@, title: self.title@ }
    }
}

/// The query that finds the requests with `pattern` in their title.
pub open spec fn query_text(pattern: Seq<char>) -> Seq<char> {
    "\""@ + pattern + "\" in:title"@
}

/// The address of the reviews of the request at the address `url`.
pub open spec fn reviews_address(url: Seq<char>) -> Seq<char> {
    url + "/reviews"@
}

impl SearchItem {
    pub fn new(url: &str, title: &str) -> (item: SearchItem)
        ensures
            item@ == (SearchItemView { url: url@, title: title@ }),
    {
        SearchItem { url: url.to_owned(), title: title.to_owned() }
    }

    /// The address of the issue.
    pub fn url(&self) -> (url: &str)
        ensures
            url@ == self@.url,
    {
        self.url.as_str()
    }

    pub fn title(&self) -> (title: &str)
        ensures
            title@ == self@.title,
    {
        self.title.as_str()
    }

    /// The address of the pull request that the issue is: that of the
    /// issue, with `pulls` wherever it says `issues`.
    pub fn pull_request_url(&self) -> (url: String)
        ensures
            url@ == replaced(self@.url, "issues"@, "pulls"@),
    {
        proof {
            reveal_strlit("issues");
        }
        replace(self.url.as_str(), "issues", "pulls")
    }
}

/// The query for the requests of the stack that `pattern` names.
pub fn search_query(pattern: &str) -> (query: String)
    ensures
        query@ == query_text(pattern@),
{
    let mut query = String::from_str("\"");
    query.append(pattern);
    query.append("\" in:title");
    query
}

/// The address of the reviews of the request `pr`.
pub fn reviews_url(pr: &PullRequest) -> (url: String)
    ensures
        url@ == reviews_address(pr@.url),
{
    let mut url = String::from_str(pr.url());
    url.append("/reviews");
    url
}

} // verus!
