//! Names of remote branches and push instructions, and the shell script that
//! rebases a stack by hand.

use crate::api::pull_request::PullRequestStatus;
use crate::graph::flat_view;
use crate::graph::open_entries;
use crate::graph::open_entries_step;
use crate::graph::Dependency;
use crate::graph::FlatDep;
use crate::text::strings_view;
use vstd::prelude::*;
use vstd::string::*;

verus! {

/// The name of the copy of `git_ref` that the remote `remote` holds.
pub open spec fn remote_ref_text(remote: Seq<char>, git_ref: Seq<char>) -> Seq<char> {
    remote + "/"@ + git_ref
}

/// The instruction that makes the branch `branch` of a remote point at the
/// commit `tip`.
pub open spec fn refspec_text(tip: Seq<char>, branch: Seq<char>) -> Seq<char> {
    tip + ":refs/heads/"@ + branch
}

/// The lines that open the script, up to the marker that the operator fills in.
pub open spec fn script_head() -> Seq<char> {
    "#!/usr/bin/env bash\n\n"@ + "set -euo pipefail\n"@ + "set -o xtrace\n\n"@
        + "# ------ THIS SCRIPT ASSUMES YOUR PR STACK IS A SINGLE CHAIN WITHOUT BRANCHING ----- #\n\n"@
        + "# It starts at the base of the stack, cherry-picking onto the new base and force-pushing as it goes.\n"@
        + "# We can't tell where the initial cherry-pick should stop (mainly because of our squash merge workflow),\n"@
        + "# so that initial stopping point for the first PR needs to be specified manually.\n\n"@
        + "export PREBASE=\"<enter a marker to stop the initial cherry-pick at>\"\n"@
}

/// The branch that the script replays an entry onto: the head of the request
/// it merges into, or a place for the operator to fill in.
pub open spec fn script_target(entry: Dependency) -> Seq<char> {
    match entry.parent {
        Some(parent) => parent.head.gitref,
        None => "<enter a ref to rebase the stack on; usually `develop`>"@,
    }
}

/// The commands that replay one entry: check out the target, cherry-pick
/// what lies above the marker, move the marker, and force-push.
pub open spec fn script_step(entry: Dependency) -> Seq<char> {
    "\n# -------------- #\n\n"@ + "export TO=\""@ + remote_ref_text("heap"@, script_target(entry))
        + "\"\n"@ + "export FROM=\""@ + remote_ref_text("heap"@, entry.request.head.gitref)
        + "\"\n\n"@ + "git checkout \"$TO\"\n"@ + "git cherry-pick \"$PREBASE\"..\"$FROM\"\n"@
        + "export PREBASE=\"$(git rev-parse --verify $FROM)\"\n"@
        + "git push -f heap HEAD:refs/heads/\"$FROM\"\n"@
}

/// The commands for the entries `entries`, in their order.
pub open spec fn script_steps(entries: Seq<Dependency>) -> Seq<char>
    decreases entries.len(),
{
    if entries.len() == 0 {
        Seq::empty()
    } else {
        script_steps(entries.drop_last()) + script_step(entries.last())
    }
}

/// The script for a flattened stack: its head, then one step for each open
/// request.
pub open spec fn rebase_script(deps: Seq<Dependency>) -> Seq<char> {
    script_head() + script_steps(open_entries(deps))
}

pub fn remote_ref(remote: &str, git_ref: &str) -> (name: String)
    ensures
        name@ == remote_ref_text(remote@, git_ref@),
{
    let mut name = String::from_str(remote);
    name.append("/");
    name.append(git_ref);
    name
}

/// The push instruction for the commit `tip` and the branch `branch`.
pub fn refspec(tip: &str, branch: &str) -> (spec: String)
    ensures
        spec@ == refspec_text(tip@, branch@),
{
    let mut spec = String::from_str(tip);
    spec.append(":refs/heads/");
    spec.append(branch);
    spec
}

/// The arguments of the `git` command that pushes `refspecs` to `remote`,
/// all at once and by force.
pub open spec fn push_arguments(remote: Seq<char>, refspecs: Seq<Seq<char>>) -> Seq<Seq<char>> {
    seq!["push"@, "-f"@, remote] + refspecs
}

/// The arguments to call `git` with in order to push `refspecs` to
/// `remote`.
pub fn push_command(remote: &str, refspecs: &Vec<String>) -> (arguments: Vec<String>)
    ensures
        strings_view(arguments@) == push_arguments(remote@, strings_view(refspecs@)),
{
    let mut arguments: Vec<String> = Vec::new();
    arguments.push(String::from_str("push"));
    arguments.push(String::from_str("-f"));
    arguments.push(String::from_str(remote));
    let ghost start = strings_view(arguments@);
    assert(start =~= seq!["push"@, "-f"@, remote@]);
    let mut i: usize = 0;
    while i < refspecs.len()
        invariant
            i <= refspecs.len(),
            start == seq!["push"@, "-f"@, remote@],
            strings_view(arguments@) == start + strings_view(refspecs@).take(i as int),
        decreases refspecs.len() - i,
    {
        let ghost before = strings_view(arguments@);
        arguments.push(refspecs[i].clone());
        proof {
            let given = strings_view(refspecs@);
            assert(strings_view(arguments@) =~= before.push(given[i as int]));
            assert(given.take(i as int + 1) =~= given.take(i as int).push(given[i as int]));
            assert(before.push(given[i as int]) =~= start + given.take(i as int + 1));
        }
        i += 1;
    }
    assert(strings_view(refspecs@).take(refspecs.len() as int) =~= strings_view(refspecs@));
    arguments
}

/// For all open pull requests of the stack, a series of commands
/// (force-pushes) that rebase the entire stack. The `PREBASE` variable is the
/// base of the first branch of the stack: a marker at which to stop
/// cherry-picking. The operator fills it in, because with squash merges the
/// point where the stack forked cannot be told.
pub fn generate_rebase_script(deps: FlatDep) -> (out: String)
    ensures
        out@ == rebase_script(flat_view(deps@)),
{
    let mut out = String::new();
    out.append("#!/usr/bin/env bash\n\n");
    out.append("set -euo pipefail\n");
    out.append("set -o xtrace\n\n");
    out.append(
        "# ------ THIS SCRIPT ASSUMES YOUR PR STACK IS A SINGLE CHAIN WITHOUT BRANCHING ----- #\n\n",
    );
    out.append(
        "# It starts at the base of the stack, cherry-picking onto the new base and force-pushing as it goes.\n",
    );
    out.append(
        "# We can't tell where the initial cherry-pick should stop (mainly because of our squash merge workflow),\n",
    );
    out.append("# so that initial stopping point for the first PR needs to be specified manually.\n\n");
    out.append("export PREBASE=\"<enter a marker to stop the initial cherry-pick at>\"\n");
    let ghost all = flat_view(deps@);
    let mut i: usize = 0;
    while i < deps.len()
        invariant
            i <= deps.len(),
            all == flat_view(deps@),
            out@ == script_head() + script_steps(open_entries(all.take(i as int))),
        decreases deps.len() - i,
    {
        proof {
            open_entries_step(all, i as int);
        }
        if *deps[i].0.state() == PullRequestStatus::Open {
            let to = match &deps[i].1 {
                Some(parent) => String::from_str(parent.head()),
                None => String::from_str("<enter a ref to rebase the stack on; usually `develop`>"),
            };
            let target = remote_ref("heap", to.as_str());
            let source = remote_ref("heap", deps[i].0.head());
            let ghost before = out@;
            out.append("\n# -------------- #\n\n");
            out.append("export TO=\"");
            out.append(target.as_str());
            out.append("\"\n");
            out.append("export FROM=\"");
            out.append(source.as_str());
            out.append("\"\n\n");
            out.append("git checkout \"$TO\"\n");
            out.append("git cherry-pick \"$PREBASE\"..\"$FROM\"\n");
            out.append("export PREBASE=\"$(git rev-parse --verify $FROM)\"\n");
            out.append("git push -f heap HEAD:refs/heads/\"$FROM\"\n");
            proof {
                let done = open_entries(all.take(i as int));
                assert(done.push(all[i as int]).drop_last() =~= done);
                assert(out@ =~= before + script_step(all[i as int]));
            }
        }
        i += 1;
    }
    assert(all.take(deps.len() as int) =~= all);
    out
}

} // verus!
