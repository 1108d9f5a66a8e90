//! What the library knows of the hosting service: the records it returns,
//! and what a request to it carries.

use crate::Credentials;
use vstd::prelude::*;
use vstd::string::*;

pub mod pull_request;
pub mod search;

pub use pull_request::PullRequest;
pub use pull_request::PullRequestReview;
pub use pull_request::PullRequestReviewState;
pub use pull_request::PullRequestStatus;

verus! {

/// The value of the authorization header for the token `token`.
pub open spec fn authorization_text(token: Seq<char>) -> Seq<char> {
    "token "@ + token
}

/// The value of the authorization header of every request.
pub fn authorization(credentials: &Credentials) -> (value: String)
    ensures
        value@ == authorization_text(credentials@),
{
    let mut value = String::from_str("token ");
    value.append(credentials.token());
    value
}

/// The name under which the library speaks to the hosting service.
pub fn user_agent() -> (name: &'static str)
    ensures
        name@ == "timothyandrew/gh-stack"@,
{
    "timothyandrew/gh-stack"
}

/// The address of the search for issues.
pub fn search_url() -> (url: &'static str)
    ensures
        url@ == "https://api.github.com/search/issues"@,
{
    "https://api.github.com/search/issues"
}

} // verus!
