//! Completing and aborting a merge: what must hold before, which files of
//! the merge state are removed after, and which error a failed step gives.

use vstd::prelude::*;
use vstd::string::StringExecFns;
use crate::conflict::{files_view, FileView};
use crate::detector::{holds_commit_id, is_commit_id};
use crate::error::MergeError;
use crate::model::{all_resolved, ConflictModel};
use crate::text::{option_text, strings_view, trim, trimmed};

verus! {

/// The name of the sentinel file of the merge state.
pub open spec fn sentinel_name() -> Seq<char> {
    "MERGE_HEAD"@
}

/// The names of the files of the merge state: the sentinel, the prepared
/// message and the merge mode.
pub open spec fn merge_state_names() -> Seq<Seq<char>> {
    seq!["MERGE_HEAD"@, "MERGE_MSG"@, "MERGE_MODE"@]
}

/// The names of the files that are removed from the repository's metadata
/// when a merge is completed or aborted, the sentinel first.
pub fn merge_state_files() -> (names: Vec<String>)
    ensures
        strings_view(names@) == merge_state_names(),
{
    let mut names: Vec<String> = Vec::new();
    names.push(String::from_str("MERGE_HEAD"));
    names.push(String::from_str("MERGE_MSG"));
    names.push(String::from_str("MERGE_MODE"));
    assert(strings_view(names@) =~= merge_state_names());
    names
}

/// What completing a merge will do: rewrite the files at these paths, in
/// this order, and commit with this message and the two parents, the tip of
/// the current branch and this commit.
#[derive(Debug)]
pub struct CompletionPlan {
    pub message: String,
    pub their_commit: String,
    pub paths: Vec<String>,
}

/// The paths of the files.
pub open spec fn file_paths(files: Seq<FileView>) -> Seq<Seq<char>> {
    files.map_values(|file: FileView| file.path)
}

/// Prepares the completion of the merge under review. It is refused,
/// and nothing is prepared, unless a conflict is held and every hunk of it
/// has a resolution.
pub fn plan_completion(model: &ConflictModel, message: &str) -> (plan: Result<
    CompletionPlan,
    MergeError,
>)
    ensures
        match plan {
            Ok(prepared) => {
                &&& model.snapshot() is Some
                &&& all_resolved(model.snapshot()->0, model.choices())
                &&& prepared.message@ == message@
                &&& prepared.their_commit@ == model.snapshot()->0.their_commit
                &&& strings_view(prepared.paths@) == file_paths(model.snapshot()->0.files)
            },
            Err(error) => {
                &&& error == MergeError::PreconditionFailed
                &&& !(model.snapshot() is Some && all_resolved(
                    model.snapshot()->0,
                    model.choices(),
                ))
            },
        },
{
    if !model.can_complete() {
        return Err(MergeError::PreconditionFailed);
    }
    match model.conflict() {
        Some(conflict) => {
            let ghost files = files_view(conflict.files@);
            let mut paths: Vec<String> = Vec::new();
            let mut i: usize = 0;
            while i < conflict.files.len()
                invariant
                    i <= conflict.files.len(),
                    files == files_view(conflict.files@),
                    strings_view(paths@) == file_paths(files.take(i as int)),
                decreases conflict.files.len() - i,
            {
                let ghost before = strings_view(paths@);
                paths.push(conflict.files[i].path.clone());
                assert(files[i as int] == conflict.files@[i as int]@);
                assert(strings_view(paths@) == before.push(files[i as int].path));
                assert(file_paths(files.take(i + 1)) == file_paths(files.take(i as int)).push(
                    files[i as int].path,
                ));
                i += 1;
            }
            assert(files.take(conflict.files.len() as int) == files);
            Ok(
                CompletionPlan {
                    message: String::from_str(message),
                    their_commit: conflict.their_commit.clone(),
                    paths,
                },
            )
        },
        None => Err(MergeError::PreconditionFailed),
    }
}

/// The commit being merged in, as the sentinel names it when the merge is
/// completed: the content of the sentinel without the whitespace around it,
/// where the sentinel could be read and holds a commit identifier.
pub open spec fn merged_commit(sentinel: Option<Seq<char>>) -> Result<Seq<char>, MergeError> {
    match sentinel {
        Some(content) => if is_commit_id(trim(content)) {
            Ok(trim(content))
        } else {
            Err(MergeError::StateError)
        },
        None => Err(MergeError::StateError),
    }
}

/// A result with its text as a sequence of characters.
pub open spec fn text_result(result: Result<String, MergeError>) -> Result<Seq<char>, MergeError> {
    match result {
        Ok(text) => Ok(text@),
        Err(error) => Err(error),
    }
}

/// Reads the commit being merged in from the content of the sentinel, which
/// is missing where the sentinel could not be read.
pub fn read_merged_commit(sentinel: &Option<String>) -> (commit: Result<String, MergeError>)
    ensures
        text_result(commit) == merged_commit(option_text(*sentinel)),
{
    match sentinel {
        Some(content) => {
            let id = trimmed(content.as_str());
            if holds_commit_id(id.as_str()) {
                Ok(id)
            } else {
                Err(MergeError::StateError)
            }
        },
        None => Err(MergeError::StateError),
    }
}

/// The second parent of the merge commit: the commit that the conflict
/// names as the one being merged in, where the sentinel can still be read
/// and holds a commit identifier.
pub open spec fn merge_parent_of(their_commit: Seq<char>, sentinel: Option<Seq<char>>) -> Result<
    Seq<char>,
    MergeError,
> {
    match merged_commit(sentinel) {
        Ok(_) => Ok(their_commit),
        Err(error) => Err(error),
    }
}

/// The second parent of the merge commit that a plan asks for, given the
/// content of the sentinel, which is missing where the sentinel could not
/// be read.
pub fn merge_parent(plan: &CompletionPlan, sentinel: &Option<String>) -> (parent: Result<
    String,
    MergeError,
>)
    ensures
        text_result(parent) == merge_parent_of(plan.their_commit@, option_text(*sentinel)),
{
    match read_merged_commit(sentinel) {
        Ok(_) => Ok(plan.their_commit.clone()),
        Err(error) => Err(error),
    }
}

/// A step of applying resolutions, completing or aborting a merge.
#[derive(Clone, Copy, Debug, PartialEq, Eq, Structural)]
pub enum FinalizeStep {
    /// Reading a conflicted file.
    ReadFile,
    /// Writing a rewritten file.
    WriteFile,
    /// Staging a rewritten file.
    StageFile,
    /// Reading the sentinel when the merge is committed.
    ReadSentinel,
    /// Creating the merge commit.
    CreateCommit,
    /// Resetting the working tree and the index to the tip.
    Reset,
}

/// The error that a failed step gives.
pub open spec fn step_error(step: FinalizeStep) -> MergeError {
    match step {
        FinalizeStep::ReadFile => MergeError::IOFailure,
        FinalizeStep::WriteFile => MergeError::IOFailure,
        FinalizeStep::StageFile => MergeError::BackendFailure,
        FinalizeStep::ReadSentinel => MergeError::StateError,
        FinalizeStep::CreateCommit => MergeError::BackendFailure,
        FinalizeStep::Reset => MergeError::BackendFailure,
    }
}

/// The error that a failed step gives.
pub fn error_of_step(step: FinalizeStep) -> (error: MergeError)
    ensures
        error == step_error(step),
{
    match step {
        FinalizeStep::ReadFile => MergeError::IOFailure,
        FinalizeStep::WriteFile => MergeError::IOFailure,
        FinalizeStep::StageFile => MergeError::BackendFailure,
        FinalizeStep::ReadSentinel => MergeError::StateError,
        FinalizeStep::CreateCommit => MergeError::BackendFailure,
        FinalizeStep::Reset => MergeError::BackendFailure,
    }
}

/// How the rewriting of the conflicted files goes on.
#[derive(Clone, Copy, Debug, PartialEq, Eq, Structural)]
pub enum ApplyNext {
    /// Rewrite the file with this index.
    Rewrite(usize),
    /// Every file was rewritten.
    Finished,
    /// A step failed. The files before this index stay rewritten; the
    /// others were not touched.
    Stopped { error: MergeError, rewritten: usize },
}

/// How the rewriting begins: with the first file, where there is one.
pub open spec fn apply_start(files: nat) -> ApplyNext {
    if files > 0 {
        ApplyNext::Rewrite(0)
    } else {
        ApplyNext::Finished
    }
}

/// How the rewriting goes on after the file with index `current`: on with
/// the next file where the file was read, written and staged, and to a stop
/// at that file where one of these steps failed.
pub open spec fn apply_next(files: nat, current: usize, failed: Option<FinalizeStep>) -> ApplyNext {
    match failed {
        Some(step) => ApplyNext::Stopped { error: step_error(step), rewritten: current },
        None => if current + 1 < files {
            ApplyNext::Rewrite((current + 1) as usize)
        } else {
            ApplyNext::Finished
        },
    }
}

/// How the rewriting of `files` files begins.
pub fn start_apply(files: usize) -> (next: ApplyNext)
    ensures
        next == apply_start(files as nat),
{
    if files > 0 {
        ApplyNext::Rewrite(0)
    } else {
        ApplyNext::Finished
    }
}

/// How the rewriting of `files` files goes on after the file with index
/// `current`, of which a step failed or none.
pub fn continue_apply(files: usize, current: usize, failed: Option<FinalizeStep>) -> (next:
    ApplyNext)
    ensures
        next == apply_next(files as nat, current, failed),
{
    match failed {
        Some(step) => ApplyNext::Stopped { error: error_of_step(step), rewritten: current },
        None => {
            if files > 0 && current < files - 1 {
                ApplyNext::Rewrite(current + 1)
            } else {
                ApplyNext::Finished
            }
        },
    }
}

} // verus!
