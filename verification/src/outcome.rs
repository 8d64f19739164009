//! How the session goes on when the work it asked for is done, and how it
//! takes in what a refresh has loaded.

use vstd::prelude::*;
use vstd::string::StringExecFns;
use crate::app::{App, AppMode, AppView};
use crate::conflict::{ConflictView, MergeConflict, ResolutionView};
use crate::detector::detected_view;
use crate::error::{error_text, MergeError};
use crate::keys::{with_error, Action, ActionView};
use crate::navigation::Cursor;
use crate::status::{Commit, RepoStatus};
use crate::remote::{pull_stop_text, PullStop};
use crate::text::{contains_text, occurs_at, strings_view, text_contains};

verus! {

/// How work on the repository went.
#[derive(Debug)]
pub enum Outcome {
    /// It was done.
    Done,
    /// It failed, for the reason given.
    Failed(String),
}

/// An outcome with its text as a sequence of characters.
pub enum OutcomeView {
    Done,
    Failed(Seq<char>),
}

impl View for Outcome {
    type V = OutcomeView;

    open spec fn view(&self) -> OutcomeView {
        match self {
            Outcome::Done => OutcomeView::Done,
            Outcome::Failed(reason) => OutcomeView::Failed(reason@),
        }
    }
}

/// What a refresh is to load after detection.
#[derive(Clone, Copy, Debug, PartialEq, Eq, Structural)]
pub enum Load {
    Nothing,
    Status,
    Commits,
    Branches,
    Stashes,
    Remotes,
}

/// How many commits the log view loads.
pub const COMMITS_SHOWN: usize = 50;

/// The words by which a failed pull tells that it left conflicts behind.
pub open spec fn conflict_words() -> Seq<char> {
    "merge conflicts require resolution"@
}

/// The text with which a pull stops over conflicts holds the words that
/// the session looks for.
pub proof fn lemma_conflict_stop_is_recognised()
    ensures
        contains_text(pull_stop_text(PullStop::Conflicts), conflict_words()),
{
    reveal_strlit("merge conflicts require resolution!");
    reveal_strlit("merge conflicts require resolution");
    let stop = "merge conflicts require resolution!"@;
    let words = "merge conflicts require resolution"@;
    assert(stop.subrange(0, words.len() as int) == words);
    assert(occurs_at(stop, words, 0));
}

/// The session with the error of failed work: what was tried, and why it
/// failed.
pub open spec fn with_failure(s: AppView, tried: Seq<char>, reason: Seq<char>) -> AppView {
    with_error(s, tried + reason)
}

/// What the session does when work is done, and whether it asks for a
/// refresh. Work that went well closes its dialog; work that failed leaves
/// everything as it is and shows why. A merge that is reported as
/// completed while a hunk of the conflict held has no resolution is not
/// taken for completed: the session stays as it is and shows the refusal.
pub open spec fn outcome_step(s: AppView, action: ActionView, outcome: OutcomeView) -> (
    AppView,
    bool,
) {
    match action {
        ActionView::Nothing => (s, false),
        ActionView::Refresh => (s, false),
        ActionView::Commit(_) => match outcome {
            OutcomeView::Done => (
                AppView { mode: AppMode::Status, commit_message: Seq::empty(), ..s },
                true,
            ),
            OutcomeView::Failed(reason) => (with_failure(s, "commit failed: "@, reason), false),
        },
        ActionView::CreateBranch(_) => match outcome {
            OutcomeView::Done => (
                AppView { mode: AppMode::Branches, branch_name: Seq::empty(), ..s },
                true,
            ),
            OutcomeView::Failed(reason) => (
                with_failure(s, "failed to create branch: "@, reason),
                false,
            ),
        },
        ActionView::StashSave(_) => match outcome {
            OutcomeView::Done => (
                AppView { mode: AppMode::Status, stash_message: Seq::empty(), ..s },
                true,
            ),
            OutcomeView::Failed(reason) => (with_failure(s, "failed to stash: "@, reason), false),
        },
        ActionView::StashPop => match outcome {
            OutcomeView::Done => (AppView { mode: AppMode::Status, ..s }, true),
            OutcomeView::Failed(reason) => (with_failure(s, "failed to pop stash: "@, reason), false),
        },
        ActionView::StashDrop(_) => match outcome {
            OutcomeView::Done => (s, true),
            OutcomeView::Failed(reason) => (
                with_failure(s, "failed to drop stash: "@, reason),
                false,
            ),
        },
        ActionView::Push { .. } => match outcome {
            OutcomeView::Done => (
                AppView {
                    is_pushing: false,
                    push_progress: Some("Push completed successfully!"@),
                    ..s
                },
                true,
            ),
            OutcomeView::Failed(reason) => (
                with_failure(
                    AppView { is_pushing: false, push_progress: None, ..s },
                    "push failed: "@,
                    reason,
                ),
                false,
            ),
        },
        ActionView::Pull { .. } => match outcome {
            OutcomeView::Done => (
                AppView {
                    is_pulling: false,
                    pull_progress: Some("pull completed successfully!"@),
                    ..s
                },
                true,
            ),
            OutcomeView::Failed(reason) => if contains_text(reason, conflict_words()) {
                (AppView { is_pulling: false, pull_progress: None, ..s }, true)
            } else {
                (
                    with_failure(
                        AppView { is_pulling: false, pull_progress: None, ..s },
                        "pull failed: "@,
                        reason,
                    ),
                    false,
                )
            },
        },
        ActionView::Unstage(_) => match outcome {
            OutcomeView::Done => (s, true),
            OutcomeView::Failed(reason) => (with_failure(s, "failed to unstage: "@, reason), true),
        },
        ActionView::Stage(_) => match outcome {
            OutcomeView::Done => (s, true),
            OutcomeView::Failed(reason) => (with_failure(s, "failed to stage: "@, reason), true),
        },
        ActionView::Checkout(_) => match outcome {
            OutcomeView::Done => (s, true),
            OutcomeView::Failed(reason) => (with_failure(s, "failed to checkout: "@, reason), false),
        },
        ActionView::DetectMerge => match outcome {
            OutcomeView::Done => (AppView { mode: AppMode::MergeConflict, ..s }, true),
            OutcomeView::Failed(_) => (with_error(s, "no merge conflicts detected."@), false),
        },
        ActionView::CompleteMerge(_) => match outcome {
            OutcomeView::Done => if s.can_complete() {
                (s.after_merge(), true)
            } else {
                (with_error(s, error_text(MergeError::PreconditionFailed)), false)
            },
            OutcomeView::Failed(reason) => (
                with_failure(s, "failed to complete merge: "@, reason),
                false,
            ),
        },
        ActionView::AbortMerge => match outcome {
            OutcomeView::Done => (s.after_merge(), true),
            OutcomeView::Failed(reason) => (
                with_failure(s, "failed to abort merge: "@, reason),
                false,
            ),
        },
    }
}

/// What the session does once the refresh that followed work is over: a
/// pull that ended in the merge review says so.
pub open spec fn after_refresh_step(s: AppView, action: ActionView, outcome: OutcomeView) -> AppView {
    match action {
        ActionView::Pull { .. } => match outcome {
            OutcomeView::Done => if s.mode == AppMode::MergeConflict {
                with_error(s, "merge conflict detected after pull, please resolve."@)
            } else {
                s
            },
            OutcomeView::Failed(reason) => if contains_text(reason, conflict_words()) {
                if s.mode == AppMode::MergeConflict {
                    with_error(s, "merge conflict detected after pull, please resolve."@)
                } else {
                    with_failure(s, "pull failed: "@, reason)
                }
            } else {
                s
            },
        },
        _ => s,
    }
}

/// What a view loads on a refresh.
pub open spec fn load_for(mode: AppMode) -> Load {
    match mode {
        AppMode::Status => Load::Status,
        AppMode::Log => Load::Commits,
        AppMode::Branches => Load::Branches,
        AppMode::StashList => Load::Stashes,
        AppMode::RemoteOperations => Load::Remotes,
        _ => Load::Nothing,
    }
}

/// What the session does with the result of a detection pass, and what is
/// to be loaded next. A conflict that was found replaces the one held,
/// without any resolution, and the merge review is shown; the cursor stays
/// where the review was shown already and the cursor is on a hunk of the new
/// conflict, and goes to the first hunk otherwise. Where none was found, the
/// one held is forgotten and a merge review gives way to the status view.
/// A failed detection changes nothing but the error shown.
pub open spec fn detection_step(
    s: AppView,
    found: Result<Option<ConflictView>, MergeError>,
) -> (AppView, Load) {
    match found {
        Ok(Some(conflict)) => (
            AppView {
                conflict: Some(conflict),
                resolutions: Map::empty(),
                mode: AppMode::MergeConflict,
                cursor: if s.mode == AppMode::MergeConflict && s.cursor.within(conflict.files) {
                    s.cursor
                } else {
                    Cursor { file: 0, hunk: 0 }
                },
                ..s
            },
            Load::Nothing,
        ),
        Ok(None) => {
            let mode = if s.mode == AppMode::MergeConflict {
                AppMode::Status
            } else {
                s.mode
            };
            (AppView { conflict: None, resolutions: Map::empty(), mode, ..s }, load_for(mode))
        },
        Err(error) => (
            with_failure(s, "failed to detect merge conflicts: "@, error_text(error)),
            load_for(s.mode),
        ),
    }
}

/// A detection pass that does not fail leaves no resolution behind, and the
/// conflict held after it is the one that was found.
pub proof fn lemma_detection_replaces_the_snapshot(s: AppView, found: Option<ConflictView>)
    ensures
        detection_step(s, Ok(found)).0.conflict == found,
        detection_step(s, Ok(found)).0.resolutions == Map::<(int, int), ResolutionView>::empty(),
        found matches Some(conflict) ==> detection_step(s, Ok(found)).0.mode
            == AppMode::MergeConflict,
        found matches Some(conflict) ==> (conflict.wf() ==> detection_step(
            s,
            Ok(found),
        ).0.cursor_on_hunk()),
{
    if let Some(conflict) = found {
        if conflict.wf() {
            assert(conflict.files[0].wf());
        }
    }
}

/// A failed detection pass leaves the conflict, the resolutions, the
/// cursor and the view as they were.
pub proof fn lemma_failed_detection_keeps_the_state(s: AppView, error: MergeError)
    ensures
        detection_step(s, Err(error)).0 == (AppView {
            error_message: detection_step(s, Err(error)).0.error_message,
            ..s
        }),
        detection_step(s, Err(error)).0.error_message is Some,
{
}

/// The selection moved to the last of `count` places where it lay beyond
/// them.
pub open spec fn selection_within(selected: usize, count: nat) -> usize {
    if selected >= count {
        if count > 0 {
            (count - 1) as usize
        } else {
            0
        }
    } else {
        selected
    }
}

/// The selection moved to the last of `count` places where it lay beyond
/// them.
fn keep_within(selected: usize, count: usize) -> (kept: usize)
    ensures
        kept == selection_within(selected, count as nat),
{
    if selected >= count {
        if count > 0 {
            count - 1
        } else {
            0
        }
    } else {
        selected
    }
}

/// What a view loads on a refresh.
pub fn load_of(mode: AppMode) -> (load: Load)
    ensures
        load == load_for(mode),
{
    match mode {
        AppMode::Status => Load::Status,
        AppMode::Log => Load::Commits,
        AppMode::Branches => Load::Branches,
        AppMode::StashList => Load::Stashes,
        AppMode::RemoteOperations => Load::Remotes,
        _ => Load::Nothing,
    }
}

impl App {
    fn show_failure(&mut self, tried: &str, reason: &str)
        ensures
            final(self)@ == with_failure(old(self)@, tried@, reason@),
    {
        let mut message = String::from_str(tried);
        message.append(reason);
        self.error_message = Some(message);
    }

    /// Takes note of how the work that `action` asked for went. Returns
    /// whether a refresh is to follow.
    pub fn action_finished(&mut self, action: &Action, outcome: &Outcome) -> (refresh: bool)
        ensures
            (final(self)@, refresh) == outcome_step(old(self)@, action@, outcome@),
    {
        match action {
            Action::Nothing => false,
            Action::Refresh => false,
            Action::Commit(_) => match outcome {
                Outcome::Done => {
                    self.mode = AppMode::Status;
                    self.commit_message = String::new();
                    true
                },
                Outcome::Failed(reason) => {
                    self.show_failure("commit failed: ", reason.as_str());
                    false
                },
            },
            Action::CreateBranch(_) => match outcome {
                Outcome::Done => {
                    self.mode = AppMode::Branches;
                    self.branch_name = String::new();
                    true
                },
                Outcome::Failed(reason) => {
                    self.show_failure("failed to create branch: ", reason.as_str());
                    false
                },
            },
            Action::StashSave(_) => match outcome {
                Outcome::Done => {
                    self.mode = AppMode::Status;
                    self.stash_message = String::new();
                    true
                },
                Outcome::Failed(reason) => {
                    self.show_failure("failed to stash: ", reason.as_str());
                    false
                },
            },
            Action::StashPop => match outcome {
                Outcome::Done => {
                    self.mode = AppMode::Status;
                    true
                },
                Outcome::Failed(reason) => {
                    self.show_failure("failed to pop stash: ", reason.as_str());
                    false
                },
            },
            Action::StashDrop(_) => match outcome {
                Outcome::Done => true,
                Outcome::Failed(reason) => {
                    self.show_failure("failed to drop stash: ", reason.as_str());
                    false
                },
            },
            Action::Push { .. } => {
                self.is_pushing = false;
                match outcome {
                    Outcome::Done => {
                        self.push_progress = Some(String::from_str("Push completed successfully!"));
                        true
                    },
                    Outcome::Failed(reason) => {
                        self.push_progress = None;
                        self.show_failure("push failed: ", reason.as_str());
                        false
                    },
                }
            },
            Action::Pull { .. } => {
                self.is_pulling = false;
                match outcome {
                    Outcome::Done => {
                        self.pull_progress = Some(String::from_str("pull completed successfully!"));
                        true
                    },
                    Outcome::Failed(reason) => {
                        self.pull_progress = None;
                        if text_contains(reason.as_str(), "merge conflicts require resolution") {
                            true
                        } else {
                            self.show_failure("pull failed: ", reason.as_str());
                            false
                        }
                    },
                }
            },
            Action::Unstage(_) => match outcome {
                Outcome::Done => true,
                Outcome::Failed(reason) => {
                    self.show_failure("failed to unstage: ", reason.as_str());
                    true
                },
            },
            Action::Stage(_) => match outcome {
                Outcome::Done => true,
                Outcome::Failed(reason) => {
                    self.show_failure("failed to stage: ", reason.as_str());
                    true
                },
            },
            Action::Checkout(_) => match outcome {
                Outcome::Done => true,
                Outcome::Failed(reason) => {
                    self.show_failure("failed to checkout: ", reason.as_str());
                    false
                },
            },
            Action::DetectMerge => match outcome {
                Outcome::Done => {
                    self.mode = AppMode::MergeConflict;
                    true
                },
                Outcome::Failed(_) => {
                    self.error_message = Some(String::from_str("no merge conflicts detected."));
                    false
                },
            },
            Action::CompleteMerge(_) => match outcome {
                Outcome::Done => match self.complete_merge() {
                    Ok(_) => true,
                    Err(error) => {
                        self.error_message = Some(error.message());
                        false
                    },
                },
                Outcome::Failed(reason) => {
                    self.show_failure("failed to complete merge: ", reason.as_str());
                    false
                },
            },
            Action::AbortMerge => match outcome {
                Outcome::Done => {
                    self.abort_merge();
                    true
                },
                Outcome::Failed(reason) => {
                    self.show_failure("failed to abort merge: ", reason.as_str());
                    false
                },
            },
        }
    }

    /// Takes note that the refresh which followed the work of `action` is
    /// over.
    pub fn refresh_finished(&mut self, action: &Action, outcome: &Outcome)
        ensures
            final(self)@ == after_refresh_step(old(self)@, action@, outcome@),
    {
        match action {
            Action::Pull { .. } => {
                let in_review = self.mode == AppMode::MergeConflict;
                match outcome {
                    Outcome::Done => {
                        if in_review {
                            self.error_message = Some(
                                String::from_str(
                                    "merge conflict detected after pull, please resolve.",
                                ),
                            );
                        }
                    },
                    Outcome::Failed(reason) => {
                        if text_contains(reason.as_str(), "merge conflicts require resolution") {
                            if in_review {
                                self.error_message = Some(
                                    String::from_str(
                                        "merge conflict detected after pull, please resolve.",
                                    ),
                                );
                            } else {
                                self.show_failure("pull failed: ", reason.as_str());
                            }
                        }
                    },
                }
            },
            _ => {},
        }
    }

    /// Takes in the result of a detection pass, as `detection_step` says,
    /// and returns what is to be loaded next.
    pub fn apply_detection(&mut self, found: Result<Option<MergeConflict>, MergeError>) -> (load:
        Load)
        ensures
            (final(self)@, load) == detection_step(old(self)@, detected_view(found)),
    {
        match found {
            Ok(Some(conflict)) => {
                let keep = self.mode == AppMode::MergeConflict && self.cursor.is_within(
                    &conflict.files,
                );
                if !keep {
                    self.cursor = Cursor::first();
                }
                self.review.replace(Some(conflict));
                self.mode = AppMode::MergeConflict;
                Load::Nothing
            },
            Ok(None) => {
                self.review.replace(None);
                if self.mode == AppMode::MergeConflict {
                    self.mode = AppMode::Status;
                }
                load_of(self.mode)
            },
            Err(error) => {
                let reason = error.message();
                self.show_failure("failed to detect merge conflicts: ", reason.as_str());
                load_of(self.mode)
            },
        }
    }

    /// Takes in the status that a refresh has loaded.
    pub fn set_status(&mut self, status: RepoStatus)
        ensures
            final(self)@ == (AppView { status: Some(status@), ..old(self)@ }),
    {
        self.status = Some(status);
    }

    /// Takes in the commits that a refresh has loaded. A selection beyond
    /// them moves to the last.
    pub fn set_commits(&mut self, commits: Vec<Commit>)
        ensures
            final(self)@ == (AppView {
                commits: commits@,
                selected_commit: selection_within(old(self).selected_commit, commits@.len()),
                ..old(self)@
            }),
    {
        self.selected_commit = keep_within(self.selected_commit, commits.len());
        self.commits = commits;
    }

    /// Takes in the branches that a refresh has loaded.
    pub fn set_branches(&mut self, branches: Vec<String>)
        ensures
            final(self)@ == (AppView { branches: strings_view(branches@), ..old(self)@ }),
    {
        self.branches = branches;
    }

    /// Takes in the stashes that a refresh has loaded. A selection beyond
    /// them moves to the last.
    pub fn set_stashes(&mut self, stashes: Vec<String>)
        ensures
            final(self)@ == (AppView {
                stashes: strings_view(stashes@),
                selected_stash: selection_within(old(self).selected_stash, stashes@.len()),
                ..old(self)@
            }),
    {
        self.selected_stash = keep_within(self.selected_stash, stashes.len());
        self.stashes = stashes;
    }

    /// Takes in the remotes and the name of the current branch that a
    /// refresh has loaded. A selection beyond the remotes moves to the last.
    pub fn set_remotes(&mut self, remotes: Vec<String>, current_branch: String)
        ensures
            final(self)@ == (AppView {
                remotes: strings_view(remotes@),
                current_branch: current_branch@,
                selected_remote: selection_within(old(self).selected_remote, remotes@.len()),
                ..old(self)@
            }),
    {
        self.selected_remote = keep_within(self.selected_remote, remotes.len());
        self.remotes = remotes;
        self.current_branch = current_branch;
    }
}

} // verus!
