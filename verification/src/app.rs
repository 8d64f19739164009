//! The state of the interactive session: what is shown, what is selected,
//! what is being typed, and the merge under review.
//!
//! The session never touches the repository. It says what is to be done
//! next, the caller does it and reports how it went.

use vstd::prelude::*;
use crate::conflict::{
    ConflictHunk, ConflictView, ConflictedFile, FileView, MergeResolution, ResolutionView,
};

use crate::error::MergeError;
use crate::model::{all_resolved, ConflictModel};
use crate::navigation::Cursor;
use crate::status::{Commit, RepoStatus, RepoStatusView};
use crate::text::{option_text, strings_view};

verus! {

/// What the screen shows.
#[derive(Clone, Copy, Debug, PartialEq, Eq, Structural)]
pub enum AppMode {
    Status,
    Log,
    Branches,
    CommitDialog,
    CreateBranchDialog,
    StashDialog,
    StashList,
    RemoteOperations,
    MergeConflict,
}

/// The session.
pub struct App {
    pub should_quit: bool,
    pub mode: AppMode,
    pub status: Option<RepoStatus>,
    pub commits: Vec<Commit>,
    pub branches: Vec<String>,
    pub selected_commit: usize,
    pub selected_file: usize,
    pub commit_message: String,
    pub error_message: Option<String>,
    pub diff_scroll: u16,
    pub branch_name: String,
    pub stash_message: String,
    pub stashes: Vec<String>,
    pub selected_stash: usize,
    pub remotes: Vec<String>,
    pub selected_remote: usize,
    pub current_branch: String,
    pub is_pushing: bool,
    pub is_pulling: bool,
    pub push_progress: Option<String>,
    pub pull_progress: Option<String>,
    pub review: ConflictModel,
    pub cursor: Cursor,
}

/// The session as a mathematical value.
pub struct AppView {
    pub should_quit: bool,
    pub mode: AppMode,
    pub status: Option<RepoStatusView>,
    pub commits: Seq<Commit>,
    pub branches: Seq<Seq<char>>,
    pub selected_commit: usize,
    pub selected_file: usize,
    pub commit_message: Seq<char>,
    pub error_message: Option<Seq<char>>,
    pub diff_scroll: u16,
    pub branch_name: Seq<char>,
    pub stash_message: Seq<char>,
    pub stashes: Seq<Seq<char>>,
    pub selected_stash: usize,
    pub remotes: Seq<Seq<char>>,
    pub selected_remote: usize,
    pub current_branch: Seq<char>,
    pub is_pushing: bool,
    pub is_pulling: bool,
    pub push_progress: Option<Seq<char>>,
    pub pull_progress: Option<Seq<char>>,
    pub conflict: Option<ConflictView>,
    pub resolutions: Map<(int, int), ResolutionView>,
    pub cursor: Cursor,
}

impl View for App {
    type V = AppView;

    open spec fn view(&self) -> AppView {
        AppView {
            should_quit: self.should_quit,
            mode: self.mode,
            status: match self.status {
                Some(status) => Some(status@),
                None => None,
            },
            commits: self.commits@,
            branches: strings_view(self.branches@),
            selected_commit: self.selected_commit,
            selected_file: self.selected_file,
            commit_message: self.commit_message@,
            error_message: option_text(self.error_message),
            diff_scroll: self.diff_scroll,
            branch_name: self.branch_name@,
            stash_message: self.stash_message@,
            stashes: strings_view(self.stashes@),
            selected_stash: self.selected_stash,
            remotes: strings_view(self.remotes@),
            selected_remote: self.selected_remote,
            current_branch: self.current_branch@,
            is_pushing: self.is_pushing,
            is_pulling: self.is_pulling,
            push_progress: option_text(self.push_progress),
            pull_progress: option_text(self.pull_progress),
            conflict: self.review.snapshot(),
            resolutions: self.review.choices(),
            cursor: self.cursor,
        }
    }
}

/// The session at its start: the status view, nothing loaded, nothing
/// selected, nothing typed, no merge under review.
pub open spec fn initial_view() -> AppView {
    AppView {
        should_quit: false,
        mode: AppMode::Status,
        status: None,
        commits: Seq::empty(),
        branches: Seq::empty(),
        selected_commit: 0,
        selected_file: 0,
        commit_message: Seq::empty(),
        error_message: None,
        diff_scroll: 0,
        branch_name: Seq::empty(),
        stash_message: Seq::empty(),
        stashes: Seq::empty(),
        selected_stash: 0,
        remotes: Seq::empty(),
        selected_remote: 0,
        current_branch: Seq::empty(),
        is_pushing: false,
        is_pulling: false,
        push_progress: None,
        pull_progress: None,
        conflict: None,
        resolutions: Map::empty(),
        cursor: Cursor { file: 0, hunk: 0 },
    }
}

impl AppView {
    /// The files of the conflict under review; none without a conflict.
    pub open spec fn conflict_files(self) -> Seq<FileView> {
        match self.conflict {
            Some(conflict) => conflict.files,
            None => Seq::empty(),
        }
    }

    /// The cursor addresses a hunk of the conflict under review.
    pub open spec fn cursor_on_hunk(self) -> bool {
        self.cursor.within(self.conflict_files())
    }

    /// The session with `resolution` recorded for the hunk under the
    /// cursor; the session as it is where the cursor is on no hunk.
    pub open spec fn with_resolution(self, resolution: ResolutionView) -> AppView {
        if self.cursor_on_hunk() {
            AppView {
                resolutions: self.resolutions.insert(
                    (self.cursor.file as int, self.cursor.hunk as int),
                    resolution,
                ),
                ..self
            }
        } else {
            self
        }
    }

    /// The session after a merge was completed or aborted: no conflict, no
    /// resolution, the status view.
    pub open spec fn after_merge(self) -> AppView {
        AppView { conflict: None, resolutions: Map::empty(), mode: AppMode::Status, ..self }
    }

    /// A conflict is under review and every hunk of it has a resolution.
    pub open spec fn can_complete(self) -> bool {
        self.conflict is Some && all_resolved(self.conflict->0, self.resolutions)
    }
}

impl App {
    /// The session at its start.
    pub fn new() -> (app: Self)
        ensures
            app@ == initial_view(),
    {
        let app = App {
            should_quit: false,
            mode: AppMode::Status,
            status: None,
            commits: Vec::new(),
            branches: Vec::new(),
            selected_commit: 0,
            selected_file: 0,
            commit_message: String::new(),
            error_message: None,
            diff_scroll: 0,
            branch_name: String::new(),
            stash_message: String::new(),
            stashes: Vec::new(),
            selected_stash: 0,
            remotes: Vec::new(),
            selected_remote: 0,
            current_branch: String::new(),
            is_pushing: false,
            is_pulling: false,
            push_progress: None,
            pull_progress: None,
            review: ConflictModel::new(),
            cursor: Cursor::first(),
        };
        assert(app@.branches == Seq::<Seq<char>>::empty());
        assert(app@.stashes == Seq::<Seq<char>>::empty());
        assert(app@.remotes == Seq::<Seq<char>>::empty());
        app
    }

    /// The path of the selected file of the status view, counting through
    /// staged, unstaged and untracked files.
    pub fn get_selected_file_path(&self) -> (path: Option<String>)
        ensures
            match path {
                Some(found) => self@.status is Some && self.selected_file
                    < self@.status->0.all_files().len() && found@
                    == self@.status->0.all_files()[self.selected_file as int].path,
                None => self@.status is None || self.selected_file
                    >= self@.status->0.all_files().len(),
            },
    {
        match &self.status {
            Some(status) => status.path_at(self.selected_file),
            None => None,
        }
    }

    /// The file of the conflict that the cursor is in.
    pub fn get_current_conflict_file(&self) -> (file: Option<&ConflictedFile>)
        ensures
            match file {
                Some(found) => self.cursor.file < self@.conflict_files().len() && found@
                    == self@.conflict_files()[self.cursor.file as int],
                None => self.cursor.file >= self@.conflict_files().len(),
            },
    {
        match self.review.conflict() {
            Some(conflict) => {
                if self.cursor.file < conflict.files.len() {
                    assert(conflict@.files[self.cursor.file as int]
                        == conflict.files@[self.cursor.file as int]@);
                    Some(&conflict.files[self.cursor.file])
                } else {
                    None
                }
            },
            None => None,
        }
    }

    /// The hunk that the cursor is on.
    pub fn get_current_conflict_hunk(&self) -> (hunk: Option<&ConflictHunk>)
        ensures
            match hunk {
                Some(found) => self@.cursor_on_hunk() && found@
                    == self@.conflict_files()[self.cursor.file as int].hunks[self.cursor.hunk as int],
                None => !self@.cursor_on_hunk(),
            },
    {
        match self.get_current_conflict_file() {
            Some(file) => {
                if self.cursor.hunk < file.conflicts.len() {
                    assert(file@.hunks[self.cursor.hunk as int]
                        == file.conflicts@[self.cursor.hunk as int]@);
                    Some(&file.conflicts[self.cursor.hunk])
                } else {
                    None
                }
            },
            None => None,
        }
    }

    /// The resolution chosen for the hunk under the cursor, if there is
    /// one.
    pub fn get_current_resolution(&self) -> (resolution: Option<&MergeResolution>)
        ensures
            match resolution {
                Some(found) => self@.resolutions.contains_key(
                    (self.cursor.file as int, self.cursor.hunk as int),
                ) && found@ == self@.resolutions[(self.cursor.file as int, self.cursor.hunk as int)],
                None => !self@.resolutions.contains_key(
                    (self.cursor.file as int, self.cursor.hunk as int),
                ),
            },
    {
        self.review.resolutions().get(self.cursor.file, self.cursor.hunk)
    }

    /// Records `resolution` for the hunk under the cursor. The cursor does
    /// not move, and where it is on no hunk nothing is recorded.
    pub fn set_current_resolution(&mut self, resolution: MergeResolution)
        ensures
            final(self)@ == old(self)@.with_resolution(resolution@),
            final(self).cursor == old(self).cursor,
    {
        let on_hunk = match self.review.conflict() {
            Some(conflict) => self.cursor.is_within(&conflict.files),
            None => false,
        };
        if on_hunk {
            self.review.set_resolution(self.cursor.file, self.cursor.hunk, resolution);
        }
    }

    /// Whether a conflict is under review and every hunk of it has a
    /// resolution.
    pub fn can_complete_merge(&self) -> (complete: bool)
        ensures
            complete == self@.can_complete(),
    {
        self.review.can_complete()
    }

    /// Completes the merge under review in the session: the conflict and
    /// the resolutions are forgotten and the status view is shown. This is
    /// refused, and the session stays as it is, unless a conflict is held and
    /// every hunk of it has a resolution.
    pub fn complete_merge(&mut self) -> (done: Result<(), MergeError>)
        ensures
            old(self)@.can_complete() ==> done is Ok && final(self)@ == old(self)@.after_merge(),
            !old(self)@.can_complete() ==> done == Err::<(), MergeError>(
                MergeError::PreconditionFailed,
            ) && final(self)@ == old(self)@,
    {
        if self.review.can_complete() {
            self.review.replace(None);
            self.mode = AppMode::Status;
            Ok(())
        } else {
            Err(MergeError::PreconditionFailed)
        }
    }

    /// Takes note that the merge was aborted: the conflict and the
    /// resolutions are forgotten and the status view is shown.
    pub fn abort_merge(&mut self)
        ensures
            final(self)@ == old(self)@.after_merge(),
    {
        self.review.replace(None);
        self.mode = AppMode::Status;
    }
}

} // verus!
