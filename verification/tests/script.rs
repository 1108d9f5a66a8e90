use gh_stack::api::pull_request::PullRequest;
use gh_stack::api::pull_request::PullRequestRef;
use gh_stack::api::pull_request::PullRequestStatus;
use gh_stack::git::generate_rebase_script;
use gh_stack::git::push_command;
use gh_stack::git::refspec;
use gh_stack::git::remote_ref;
use gh_stack::graph::build;
use gh_stack::graph::log;
use gh_stack::graph::FlatDep;
use std::rc::Rc;

fn branch(number: usize, head: &str, base: &str, state: PullRequestStatus) -> Rc<PullRequest> {
    Rc::new(PullRequest::new(
        number,
        number,
        PullRequestRef::new("", head, ""),
        PullRequestRef::new("", base, ""),
        "",
        "",
        "",
        state,
        false,
    ))
}

const SCRIPT_HEAD: &str = "#!/usr/bin/env bash

set -euo pipefail
set -o xtrace

# ------ THIS SCRIPT ASSUMES YOUR PR STACK IS A SINGLE CHAIN WITHOUT BRANCHING ----- #

# It starts at the base of the stack, cherry-picking onto the new base and force-pushing as it goes.
# We can't tell where the initial cherry-pick should stop (mainly because of our squash merge workflow),
# so that initial stopping point for the first PR needs to be specified manually.

export PREBASE=\"<enter a marker to stop the initial cherry-pick at>\"
";

fn step(to: &str, from: &str) -> String {
    format!(
        "
# -------------- #

export TO=\"heap/{}\"
export FROM=\"heap/{}\"

git checkout \"$TO\"
git cherry-pick \"$PREBASE\"..\"$FROM\"
export PREBASE=\"$(git rev-parse --verify $FROM)\"
git push -f heap HEAD:refs/heads/\"$FROM\"
",
        to, from
    )
}

#[test]
fn remote_ref_joins_remote_and_branch() {
    assert_eq!(remote_ref("origin", "feature/one"), "origin/feature/one");
    assert_eq!(remote_ref("", ""), "/");
}

#[test]
fn refspec_points_the_branch_at_the_commit() {
    assert_eq!(refspec("0123abcd", "feature/one"), "0123abcd:refs/heads/feature/one");
}

#[test]
fn push_command_forces_all_refspecs_at_once() {
    let refspecs = vec!["n2:refs/heads/b1".to_string(), "n3:refs/heads/b2".to_string()];
    assert_eq!(
        push_command("origin", &refspecs),
        vec!["push", "-f", "origin", "n2:refs/heads/b1", "n3:refs/heads/b2"]
    );
    assert_eq!(push_command("upstream", &Vec::new()), vec!["push", "-f", "upstream"]);
}

#[test]
fn script_of_an_empty_stack_is_its_head() {
    let deps: FlatDep = Vec::new();
    assert_eq!(generate_rebase_script(deps), SCRIPT_HEAD);
}

#[test]
fn script_replays_each_open_request_onto_its_parent() {
    let prs = vec![
        branch(1, "b1", "trunk", PullRequestStatus::Open),
        branch(2, "b2", "b1", PullRequestStatus::Open),
        branch(3, "b3", "b2", PullRequestStatus::Open),
    ];
    let deps = log(&build(&prs));
    let expected = format!(
        "{}{}{}{}",
        SCRIPT_HEAD,
        step("<enter a ref to rebase the stack on; usually `develop`>", "b1"),
        step("b1", "b2"),
        step("b2", "b3"),
    );
    assert_eq!(generate_rebase_script(deps), expected);
}

#[test]
fn script_skips_closed_requests() {
    let prs = vec![
        branch(1, "b1", "trunk", PullRequestStatus::Closed),
        branch(2, "b2", "b1", PullRequestStatus::Open),
        branch(3, "b3", "b2", PullRequestStatus::Closed),
    ];
    let deps = log(&build(&prs));
    let expected = format!("{}{}", SCRIPT_HEAD, step("b1", "b2"));
    assert_eq!(generate_rebase_script(deps), expected);
    let closed = vec![branch(1, "b1", "trunk", PullRequestStatus::Closed)];
    assert_eq!(generate_rebase_script(log(&build(&closed))), SCRIPT_HEAD);
}
