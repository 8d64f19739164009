//! Names and decisions for the work with remotes, branches and stashes.

use vstd::prelude::*;
use vstd::string::StringExecFns;
use crate::text::{contains_text, decimal, occurs_at, push_decimal, text_contains, text_starts_with};

verus! {

/// The reference of a local branch.
pub open spec fn branch_ref_text(name: Seq<char>) -> Seq<char> {
    "refs/heads/"@ + name
}

/// The reference under which a branch of a remote is kept.
pub open spec fn remote_ref_text(remote: Seq<char>, branch: Seq<char>) -> Seq<char> {
    "refs/remotes/"@ + remote + "/"@ + branch
}

/// The refspec that pushes a branch to the branch of the same name.
pub open spec fn push_refspec_text(branch: Seq<char>) -> Seq<char> {
    branch_ref_text(branch) + ":"@ + branch_ref_text(branch)
}

/// The refspec that fetches a branch of a remote, also where it was
/// rewound.
pub open spec fn fetch_refspec_text(remote: Seq<char>, branch: Seq<char>) -> Seq<char> {
    "+"@ + branch_ref_text(branch) + ":"@ + remote_ref_text(remote, branch)
}

/// The message of the commit that merges a pulled branch.
pub open spec fn merge_message_text(branch: Seq<char>, remote: Seq<char>) -> Seq<char> {
    "merge branch "@ + branch + " of "@ + remote
}

/// The line that stands for a stash in the list of stashes.
pub open spec fn stash_label_text(index: nat, message: Seq<char>) -> Seq<char> {
    "stash@{"@ + decimal(index) + "}: "@ + message
}

/// The private key that is tried where the agent has none.
pub open spec fn ssh_key_path_text(home: Seq<char>) -> Seq<char> {
    home + "/.ssh/id_rsa"@
}

/// The address is one that is reached over ssh.
pub open spec fn is_ssh_url(url: Seq<char>) -> bool {
    occurs_at(url, "git@"@, 0) || contains_text(url, "ssh://"@)
}

/// The reference of a local branch.
pub fn branch_ref(name: &str) -> (reference: String)
    ensures
        reference@ == branch_ref_text(name@),
{
    let mut reference = String::from_str("refs/heads/");
    reference.append(name);
    reference
}

/// The reference under which a branch of a remote is kept.
pub fn remote_ref(remote: &str, branch: &str) -> (reference: String)
    ensures
        reference@ == remote_ref_text(remote@, branch@),
{
    let mut reference = String::from_str("refs/remotes/");
    reference.append(remote);
    reference.append("/");
    reference.append(branch);
    reference
}

/// The reference of the branch of `origin` that a local branch follows.
pub fn upstream_ref(branch: &str) -> (reference: String)
    ensures
        reference@ == remote_ref_text("origin"@, branch@),
{
    remote_ref("origin", branch)
}

/// The refspec that pushes a branch to the branch of the same name.
pub fn push_refspec(branch: &str) -> (refspec: String)
    ensures
        refspec@ == push_refspec_text(branch@),
{
    let mut refspec = branch_ref(branch);
    refspec.append(":");
    refspec.append(branch_ref(branch).as_str());
    refspec
}

/// The refspec that fetches a branch of a remote.
pub fn fetch_refspec(remote: &str, branch: &str) -> (refspec: String)
    ensures
        refspec@ == fetch_refspec_text(remote@, branch@),
{
    let mut refspec = String::from_str("+");
    refspec.append(branch_ref(branch).as_str());
    refspec.append(":");
    refspec.append(remote_ref(remote, branch).as_str());
    refspec
}

/// The message of the commit that merges a pulled branch.
pub fn merge_message(branch: &str, remote: &str) -> (message: String)
    ensures
        message@ == merge_message_text(branch@, remote@),
{
    let mut message = String::from_str("merge branch ");
    message.append(branch);
    message.append(" of ");
    message.append(remote);
    message
}

/// The line that stands for a stash in the list of stashes.
pub fn stash_label(index: usize, message: &str) -> (label: String)
    ensures
        label@ == stash_label_text(index as nat, message@),
{
    let mut label = String::from_str("stash@{");
    push_decimal(&mut label, index);
    label.append("}: ");
    label.append(message);
    label
}

/// The message of a stash: the one given, or a standing one.
pub fn stash_message(message: Option<&str>) -> (text: String)
    ensures
        text@ == match message {
            Some(given) => given@,
            None => "WIP on branch"@,
        },
{
    match message {
        Some(given) => String::from_str(given),
        None => String::from_str("WIP on branch"),
    }
}

/// The private key that is tried where the agent has none.
pub fn ssh_key_path(home: &str) -> (path: String)
    ensures
        path@ == ssh_key_path_text(home@),
{
    let mut path = String::from_str(home);
    path.append("/.ssh/id_rsa");
    path
}

/// Whether the address is one that is reached over ssh.
pub fn uses_ssh(url: &str) -> (ssh: bool)
    ensures
        ssh == is_ssh_url(url@),
{
    text_starts_with(url, "git@") || text_contains(url, "ssh://")
}

/// What the repository says of merging a fetched commit.
#[derive(Clone, Copy, Debug, PartialEq, Eq, Structural)]
pub struct MergeAnalysis {
    pub fast_forward: bool,
    pub normal: bool,
    pub up_to_date: bool,
}

/// How a pull goes on after the fetch.
#[derive(Clone, Copy, Debug, PartialEq, Eq, Structural)]
pub enum PullPlan {
    /// Move the branch to the fetched commit and check it out.
    FastForward,
    /// Merge the fetched commit into the branch.
    Merge,
    /// Nothing is to be done.
    UpToDate,
    /// No merge is possible.
    Refuse,
}

/// How a pull goes on: a fast-forward where one is possible, else a merge
/// where one is possible, nothing where the branch is up to date, and a
/// refusal otherwise.
pub open spec fn pull_plan_for(analysis: MergeAnalysis) -> PullPlan {
    if analysis.fast_forward {
        PullPlan::FastForward
    } else if analysis.normal {
        PullPlan::Merge
    } else if analysis.up_to_date {
        PullPlan::UpToDate
    } else {
        PullPlan::Refuse
    }
}

/// How a pull goes on after the fetch.
pub fn pull_plan(analysis: MergeAnalysis) -> (plan: PullPlan)
    ensures
        plan == pull_plan_for(analysis),
{
    if analysis.fast_forward {
        PullPlan::FastForward
    } else if analysis.normal {
        PullPlan::Merge
    } else if analysis.up_to_date {
        PullPlan::UpToDate
    } else {
        PullPlan::Refuse
    }
}

/// Why a pull stops: the merge left conflicts, or no merge is possible.
#[derive(Clone, Copy, Debug, PartialEq, Eq, Structural)]
pub enum PullStop {
    Conflicts,
    NoMerge,
}

/// The text with which a pull stops.
pub open spec fn pull_stop_text(stop: PullStop) -> Seq<char> {
    match stop {
        PullStop::Conflicts => "merge conflicts require resolution!"@,
        PullStop::NoMerge => "cannot merge - conflicting changes"@,
    }
}

/// The text with which a pull stops.
pub fn pull_stop_message(stop: PullStop) -> (text: String)
    ensures
        text@ == pull_stop_text(stop),
{
    match stop {
        PullStop::Conflicts => String::from_str("merge conflicts require resolution!"),
        PullStop::NoMerge => String::from_str("cannot merge - conflicting changes"),
    }
}

/// Whether a merge that was made is committed: it is unless it left
/// conflicts, in which case the pull stops.
pub fn after_merge(has_conflicts: bool) -> (stop: Option<PullStop>)
    ensures
        stop == (if has_conflicts {
            Some(PullStop::Conflicts)
        } else {
            None::<PullStop>
        }),
{
    if has_conflicts {
        Some(PullStop::Conflicts)
    } else {
        None
    }
}

} // verus!
