//! Stacked pull requests: reconstruct the chain of dependent requests from
//! their branch names, and replay that chain onto an updated base.

use vstd::prelude::*;

pub mod api;
pub mod digraph;
pub mod git;
pub mod graph;
pub mod markdown;
pub mod persist;
pub mod rebase;
pub mod rebase_laws;
pub mod text;
pub mod traversal;
pub mod util;

verus! {

/// A personal access token for the hosting service.
pub struct Credentials {
    token: String,
}

impl View for Credentials {
    type V = Seq<char>;

    /// The characters of the token.
    closed spec fn view(&self) -> Seq<char> {
        self.token@
    }
}

impl Credentials {
    /// Keeps a copy of `token`.
    pub fn new(token: &str) -> (credentials: Credentials)
        ensures
            credentials@ == token@,
    {
        Credentials { token: token.to_owned() }
    }

    /// The token.
    pub fn token(&self) -> (token: &str)
        ensures
            token@ == self@,
    {
        self.token.as_str()
    }
}

} // verus!
