//! What a key does to the session, and what the session asks for in return.
//!
//! A key changes the session at once and may ask for work on the
//! repository. When the work is done, the session is told how it went; it
//! then changes once more and may ask for a refresh.

use vstd::prelude::*;
use vstd::string::StringExecFns;
use crate::app::{App, AppMode, AppView};
use crate::conflict::{files_view, ConflictedFile, FileView, MergeResolution, ResolutionView};
use crate::navigation::{
    after_file_next, after_hunk_down, after_hunk_up, file_next, hunk_down, hunk_up,
};
use crate::text::{
    is_blank, occurs_at, option_text, pop_char, push_char, text_is_blank, text_starts_with,
};

verus! {

/// A key of the keyboard, as far as the session tells keys apart.
#[derive(Clone, Copy, Debug, PartialEq, Eq, Structural)]
pub enum Key {
    Char(char),
    Esc,
    Enter,
    Backspace,
    Up,
    Down,
    Right,
    Delete,
    PageUp,
    PageDown,
    Home,
    End,
    F(u8),
    Other,
}

/// Work that the session asks for.
#[derive(Debug)]
pub enum Action {
    /// Nothing is to be done.
    Nothing,
    /// Load anew what the screen shows.
    Refresh,
    /// Commit the staged changes with this message.
    Commit(String),
    /// Create a branch of this name at the tip.
    CreateBranch(String),
    /// Stash the changes, with this message if there is one.
    StashSave(Option<String>),
    /// Apply the newest stash and drop it.
    StashPop,
    /// Drop the stash with this number.
    StashDrop(usize),
    /// Push the branch to the remote.
    Push { remote: String, branch: String },
    /// Pull the branch from the remote.
    Pull { remote: String, branch: String },
    /// Take the file at this path out of the index.
    Unstage(String),
    /// Put the file at this path into the index.
    Stage(String),
    /// Check out the branch of this name.
    Checkout(String),
    /// Look for a merge in progress.
    DetectMerge,
    /// Apply the resolutions and commit the merge with this message.
    CompleteMerge(String),
    /// Abort the merge.
    AbortMerge,
}

/// An action with its texts as sequences of characters.
pub enum ActionView {
    Nothing,
    Refresh,
    Commit(Seq<char>),
    CreateBranch(Seq<char>),
    StashSave(Option<Seq<char>>),
    StashPop,
    StashDrop(usize),
    Push { remote: Seq<char>, branch: Seq<char> },
    Pull { remote: Seq<char>, branch: Seq<char> },
    Unstage(Seq<char>),
    Stage(Seq<char>),
    Checkout(Seq<char>),
    DetectMerge,
    CompleteMerge(Seq<char>),
    AbortMerge,
}

impl View for Action {
    type V = ActionView;

    open spec fn view(&self) -> ActionView {
        match self {
            Action::Nothing => ActionView::Nothing,
            Action::Refresh => ActionView::Refresh,
            Action::Commit(message) => ActionView::Commit(message@),
            Action::CreateBranch(name) => ActionView::CreateBranch(name@),
            Action::StashSave(message) => ActionView::StashSave(option_text(*message)),
            Action::StashPop => ActionView::StashPop,
            Action::StashDrop(index) => ActionView::StashDrop(*index),
            Action::Push { remote, branch } => ActionView::Push { remote: remote@, branch: branch@ },
            Action::Pull { remote, branch } => ActionView::Pull { remote: remote@, branch: branch@ },
            Action::Unstage(path) => ActionView::Unstage(path@),
            Action::Stage(path) => ActionView::Stage(path@),
            Action::Checkout(name) => ActionView::Checkout(name@),
            Action::DetectMerge => ActionView::DetectMerge,
            Action::CompleteMerge(message) => ActionView::CompleteMerge(message@),
            Action::AbortMerge => ActionView::AbortMerge,
        }
    }
}

/// The selection one place up, or where it is at the top.
pub open spec fn selection_up(selected: usize) -> usize {
    if selected > 0 {
        (selected - 1) as usize
    } else {
        selected
    }
}

/// The selection one place down, or where it is at the last of `count`
/// places.
pub open spec fn selection_down(selected: usize, count: nat) -> usize {
    if selected + 1 < count && selected < usize::MAX {
        (selected + 1) as usize
    } else {
        selected
    }
}

/// A text that is being typed, after a key: a character is appended, the
/// backspace key removes the last one, any other key leaves the text.
pub open spec fn text_after_key(text: Seq<char>, key: Key) -> Seq<char> {
    match key {
        Key::Char(c) => text.push(c),
        Key::Backspace => if text.len() > 0 {
            text.drop_last()
        } else {
            text
        },
        _ => text,
    }
}

/// The session with the messages of the last key taken away.
pub open spec fn without_messages(s: AppView) -> AppView {
    AppView { error_message: None, push_progress: None, pull_progress: None, ..s }
}

/// The session with an error message.
pub open spec fn with_error(s: AppView, message: Seq<char>) -> AppView {
    AppView { error_message: Some(message), ..s }
}

/// The session showing another view, which is to be loaded.
pub open spec fn switched_to(s: AppView, mode: AppMode) -> (AppView, ActionView) {
    (AppView { mode, ..s }, ActionView::Refresh)
}

/// A key in the dialog that asks for a commit message.
pub open spec fn commit_dialog_step(s: AppView, key: Key) -> (AppView, ActionView) {
    match key {
        Key::Esc => (
            AppView { mode: AppMode::Status, commit_message: Seq::empty(), ..s },
            ActionView::Nothing,
        ),
        Key::Enter => if is_blank(s.commit_message) {
            (s, ActionView::Nothing)
        } else {
            (s, ActionView::Commit(s.commit_message))
        },
        _ => (
            AppView { commit_message: text_after_key(s.commit_message, key), ..s },
            ActionView::Nothing,
        ),
    }
}

/// A key in the dialog that asks for the name of a new branch.
pub open spec fn branch_dialog_step(s: AppView, key: Key) -> (AppView, ActionView) {
    match key {
        Key::Esc => (
            AppView { mode: AppMode::Branches, branch_name: Seq::empty(), ..s },
            ActionView::Nothing,
        ),
        Key::Enter => if is_blank(s.branch_name) {
            (s, ActionView::Nothing)
        } else {
            (s, ActionView::CreateBranch(s.branch_name))
        },
        _ => (AppView { branch_name: text_after_key(s.branch_name, key), ..s }, ActionView::Nothing),
    }
}

/// A key in the dialog that asks for a stash message.
pub open spec fn stash_dialog_step(s: AppView, key: Key) -> (AppView, ActionView) {
    match key {
        Key::Esc => (
            AppView { mode: AppMode::Status, stash_message: Seq::empty(), ..s },
            ActionView::Nothing,
        ),
        Key::Enter => (
            s,
            ActionView::StashSave(
                if is_blank(s.stash_message) {
                    None
                } else {
                    Some(s.stash_message)
                },
            ),
        ),
        _ => (
            AppView { stash_message: text_after_key(s.stash_message, key), ..s },
            ActionView::Nothing,
        ),
    }
}

/// A key in the list of stashes.
pub open spec fn stash_list_step(s: AppView, key: Key) -> (AppView, ActionView) {
    match key {
        Key::Char(c) => if c == 'q' {
            (AppView { should_quit: true, ..s }, ActionView::Nothing)
        } else if c == '1' {
            switched_to(s, AppMode::Status)
        } else if c == '2' {
            switched_to(s, AppMode::Log)
        } else if c == '3' {
            switched_to(s, AppMode::Branches)
        } else {
            (s, ActionView::Nothing)
        },
        Key::Esc => (AppView { mode: AppMode::Status, ..s }, ActionView::Nothing),
        Key::Up => (
            AppView { selected_stash: selection_up(s.selected_stash), ..s },
            ActionView::Nothing,
        ),
        Key::Down => (
            AppView { selected_stash: selection_down(s.selected_stash, s.stashes.len()), ..s },
            ActionView::Nothing,
        ),
        Key::Enter => (s, ActionView::StashPop),
        Key::Delete => if s.selected_stash < s.stashes.len() {
            (s, ActionView::StashDrop(s.selected_stash))
        } else {
            (s, ActionView::Nothing)
        },
        _ => (s, ActionView::Nothing),
    }
}

/// The text that refuses to leave the merge review.
pub open spec fn exit_refused_text() -> Seq<char> {
    "cannot exit merge mode while conflicts exist. use 'a' to abort or 'c' to complete."@
}

/// The text that refuses to complete a merge with unresolved hunks.
pub open spec fn unresolved_text() -> Seq<char> {
    "cannot complete merge, some conflicts are unresolved."@
}

/// The key would leave the merge review: escape, quit, another view, or
/// the stash dialog.
pub open spec fn leaves_review(key: Key) -> bool {
    match key {
        Key::Esc => true,
        Key::Char(c) => c == 'q' || c == '1' || c == '2' || c == '3' || c == '4' || c == '5' || c
            == 's',
        _ => false,
    }
}

/// A key in the merge review. While a conflict is held, no key leaves the
/// review but by completing or aborting the merge.
pub open spec fn merge_step(s: AppView, key: Key) -> (AppView, ActionView) {
    match key {
        Key::Up => (
            AppView { cursor: after_hunk_up(s.conflict_files(), s.cursor), ..s },
            ActionView::Nothing,
        ),
        Key::Down => (
            AppView { cursor: after_hunk_down(s.conflict_files(), s.cursor), ..s },
            ActionView::Nothing,
        ),
        Key::Right => (
            AppView { cursor: after_file_next(s.conflict_files(), s.cursor), ..s },
            ActionView::Nothing,
        ),
        Key::F(n) => if n == 5 {
            (s, ActionView::Refresh)
        } else {
            global_step(s, key)
        },
        Key::Char(c) => if c == 'o' {
            (s.with_resolution(ResolutionView::KeepOurs), ActionView::Nothing)
        } else if c == 't' {
            (s.with_resolution(ResolutionView::KeepTheirs), ActionView::Nothing)
        } else if c == 'b' {
            (s.with_resolution(ResolutionView::KeepBoth), ActionView::Nothing)
        } else if c == 'e' {
            (s, ActionView::Nothing)
        } else if c == 'c' {
            if s.can_complete() {
                (s, ActionView::CompleteMerge("Merge commit"@))
            } else {
                (with_error(s, unresolved_text()), ActionView::Nothing)
            }
        } else if c == 'a' {
            (s, ActionView::AbortMerge)
        } else if leaves_review(key) && s.conflict is Some {
            (with_error(s, exit_refused_text()), ActionView::Nothing)
        } else {
            global_step(s, key)
        },
        Key::Esc => if s.conflict is Some {
            (with_error(s, exit_refused_text()), ActionView::Nothing)
        } else {
            (AppView { mode: AppMode::Status, ..s }, ActionView::Nothing)
        },
        _ => global_step(s, key),
    }
}

/// A key in the view of the remotes.
pub open spec fn remote_step(s: AppView, key: Key) -> (AppView, ActionView) {
    match key {
        Key::Up => (
            AppView { selected_remote: selection_up(s.selected_remote), ..s },
            ActionView::Nothing,
        ),
        Key::Down => (
            AppView { selected_remote: selection_down(s.selected_remote, s.remotes.len()), ..s },
            ActionView::Nothing,
        ),
        _ => global_step(s, key),
    }
}

/// The key that stages or unstages the selected file: a staged file is
/// taken out of the index, any other is put into it.
pub open spec fn toggle_stage_step(s: AppView) -> (AppView, ActionView) {
    match s.status {
        Some(status) => if s.selected_file < status.all_files().len() {
            let path = status.all_files()[s.selected_file as int].path;
            if s.selected_file < status.staged.len() {
                (s, ActionView::Unstage(path))
            } else {
                (s, ActionView::Stage(path))
            }
        } else {
            (s, ActionView::Nothing)
        },
        None => (s, ActionView::Nothing),
    }
}

/// The key that pushes the current branch to the selected remote.
pub open spec fn push_step(s: AppView) -> (AppView, ActionView) {
    if s.mode == AppMode::RemoteOperations && s.selected_remote < s.remotes.len() {
        (
            AppView { is_pushing: true, push_progress: Some("pushing to remote..."@), ..s },
            ActionView::Push {
                remote: s.remotes[s.selected_remote as int],
                branch: s.current_branch,
            },
        )
    } else {
        (s, ActionView::Nothing)
    }
}

/// The key that pulls the current branch from the selected remote.
pub open spec fn pull_step(s: AppView) -> (AppView, ActionView) {
    if s.mode == AppMode::RemoteOperations && s.selected_remote < s.remotes.len() {
        (
            AppView { is_pulling: true, pull_progress: Some("pulling from remote..."@), ..s },
            ActionView::Pull {
                remote: s.remotes[s.selected_remote as int],
                branch: s.current_branch,
            },
        )
    } else {
        (s, ActionView::Nothing)
    }
}

/// The enter key in the views that have no dialog.
pub open spec fn enter_step(s: AppView) -> (AppView, ActionView) {
    match s.mode {
        AppMode::Status => toggle_stage_step(s),
        AppMode::Branches => if s.selected_file < s.branches.len() {
            let branch = s.branches[s.selected_file as int];
            if occurs_at(branch, "origin/"@, 0) {
                (s, ActionView::Nothing)
            } else {
                (s, ActionView::Checkout(branch))
            }
        } else {
            (with_error(s, "cannot checkout remote branch directly."@), ActionView::Nothing)
        },
        _ => (s, ActionView::Nothing),
    }
}

/// The up key in the views that have no dialog.
pub open spec fn up_step(s: AppView) -> AppView {
    match s.mode {
        AppMode::Log => AppView { selected_commit: selection_up(s.selected_commit), ..s },
        AppMode::Status => if s.selected_file > 0 {
            AppView { selected_file: selection_up(s.selected_file), diff_scroll: 0, ..s }
        } else {
            s
        },
        AppMode::Branches => AppView { selected_file: selection_up(s.selected_file), ..s },
        _ => s,
    }
}

/// The down key in the views that have no dialog.
pub open spec fn down_step(s: AppView) -> AppView {
    match s.mode {
        AppMode::Log => AppView {
            selected_commit: selection_down(s.selected_commit, s.commits.len()),
            ..s
        },
        AppMode::Status => match s.status {
            Some(status) => if selection_down(s.selected_file, status.all_files().len())
                != s.selected_file {
                AppView {
                    selected_file: selection_down(s.selected_file, status.all_files().len()),
                    diff_scroll: 0,
                    ..s
                }
            } else {
                s
            },
            None => s,
        },
        AppMode::Branches => AppView {
            selected_file: selection_down(s.selected_file, s.branches.len()),
            ..s
        },
        _ => s,
    }
}

/// The scroll position a number of lines further up, not above the top.
pub open spec fn scrolled_up(scroll: u16, lines: u16) -> u16 {
    if scroll >= lines {
        (scroll - lines) as u16
    } else {
        0
    }
}

/// The scroll position a number of lines further down, as far as it can
/// be counted.
pub open spec fn scrolled_down(scroll: u16, lines: u16) -> u16 {
    if scroll + lines <= u16::MAX {
        (scroll + lines) as u16
    } else {
        u16::MAX
    }
}

/// A key that scrolls the diff of the status view.
pub open spec fn scroll_step(s: AppView, key: Key) -> AppView {
    if s.mode == AppMode::Status {
        match key {
            Key::PageUp => AppView { diff_scroll: scrolled_up(s.diff_scroll, 10), ..s },
            Key::PageDown => AppView { diff_scroll: scrolled_down(s.diff_scroll, 10), ..s },
            Key::Home => AppView { diff_scroll: 0, ..s },
            Key::End => AppView { diff_scroll: scrolled_down(s.diff_scroll, 1000), ..s },
            _ => s,
        }
    } else {
        s
    }
}

/// A letter or digit in the views that have no dialog.
pub open spec fn char_step(s: AppView, c: char) -> (AppView, ActionView) {
    if c == 'q' {
        (AppView { should_quit: true, ..s }, ActionView::Nothing)
    } else if c == '1' {
        switched_to(s, AppMode::Status)
    } else if c == '2' {
        switched_to(s, AppMode::Log)
    } else if c == '3' {
        switched_to(s, AppMode::Branches)
    } else if c == '4' {
        switched_to(s, AppMode::StashList)
    } else if c == '5' {
        switched_to(s, AppMode::RemoteOperations)
    } else if c == 'p' {
        push_step(s)
    } else if c == 'u' {
        pull_step(s)
    } else if c == 's' {
        (
            AppView { mode: AppMode::StashDialog, stash_message: Seq::empty(), ..s },
            ActionView::Nothing,
        )
    } else if c == 'n' {
        if s.mode == AppMode::Branches {
            (
                AppView { mode: AppMode::CreateBranchDialog, branch_name: Seq::empty(), ..s },
                ActionView::Nothing,
            )
        } else {
            (s, ActionView::Nothing)
        }
    } else if c == 'c' {
        match s.status {
            Some(status) => if status.staged.len() > 0 {
                (
                    AppView { mode: AppMode::CommitDialog, commit_message: Seq::empty(), ..s },
                    ActionView::Nothing,
                )
            } else {
                (with_error(s, "no staged files to commit."@), ActionView::Nothing)
            },
            None => (s, ActionView::Nothing),
        }
    } else if c == 'm' {
        (s, ActionView::DetectMerge)
    } else if c == ' ' {
        toggle_stage_step(s)
    } else {
        (s, ActionView::Nothing)
    }
}

/// A key in the views that have no dialog.
pub open spec fn global_step(s: AppView, key: Key) -> (AppView, ActionView) {
    match key {
        Key::Char(c) => char_step(s, c),
        Key::Up => (up_step(s), ActionView::Nothing),
        Key::Down => (down_step(s), ActionView::Nothing),
        Key::F(n) => if n == 5 {
            (s, ActionView::Refresh)
        } else {
            (s, ActionView::Nothing)
        },
        Key::Enter => enter_step(s),
        _ => (scroll_step(s, key), ActionView::Nothing),
    }
}

/// What a key does: the messages of the key before are taken away, and the
/// key is handled by the view that is shown.
pub open spec fn key_step(s: AppView, key: Key) -> (AppView, ActionView) {
    let s = without_messages(s);
    match s.mode {
        AppMode::CommitDialog => commit_dialog_step(s, key),
        AppMode::CreateBranchDialog => branch_dialog_step(s, key),
        AppMode::StashDialog => stash_dialog_step(s, key),
        AppMode::StashList => stash_list_step(s, key),
        AppMode::RemoteOperations => remote_step(s, key),
        AppMode::MergeConflict => merge_step(s, key),
        _ => global_step(s, key),
    }
}

/// In the merge review, the keys that choose a resolution leave the cursor
/// where it is, and so does the key that is kept for editing.
pub proof fn lemma_choosing_keeps_the_cursor(s: AppView, c: char)
    requires
        s.mode == AppMode::MergeConflict,
        c == 'o' || c == 't' || c == 'b' || c == 'e',
    ensures
        key_step(s, Key::Char(c)).0.cursor == s.cursor,
        key_step(s, Key::Char(c)).0.mode == s.mode,
        key_step(s, Key::Char(c)).0.conflict == s.conflict,
        key_step(s, Key::Char(c)).1 == ActionView::Nothing,
{
}

/// While a conflict is under review, a key that would leave the review is
/// refused: an error is shown, nothing is asked for, and the session is
/// otherwise as it was when the messages of the key before were taken away.
pub proof fn lemma_review_cannot_be_left(s: AppView, key: Key)
    requires
        s.mode == AppMode::MergeConflict,
        s.conflict is Some,
        leaves_review(key),
    ensures
        key_step(s, key) == (
            with_error(without_messages(s), exit_refused_text()),
            ActionView::Nothing,
        ),
        key_step(s, key).0.mode == AppMode::MergeConflict,
        key_step(s, key).0.should_quit == s.should_quit,
        key_step(s, key).0.conflict == s.conflict,
        key_step(s, key).0.resolutions == s.resolutions,
        key_step(s, key).0.cursor == s.cursor,
{
}

/// No key changes the conflict under review, and no key takes a resolution
/// away.
pub proof fn lemma_keys_keep_the_conflict(s: AppView, key: Key)
    ensures
        key_step(s, key).0.conflict == s.conflict,
        forall|pair: (int, int)| #[trigger]
            s.resolutions.contains_key(pair) ==> key_step(s, key).0.resolutions.contains_key(pair),
{
}

/// The selection one place up, or where it is at the top.
fn move_up(selected: usize) -> (next: usize)
    ensures
        next == selection_up(selected),
{
    if selected > 0 {
        selected - 1
    } else {
        selected
    }
}

/// The selection one place down, or where it is at the last of `count`
/// places.
fn move_down(selected: usize, count: usize) -> (next: usize)
    ensures
        next == selection_down(selected, count as nat),
{
    if count > 0 && selected < count - 1 {
        selected + 1
    } else {
        selected
    }
}

/// Changes a text that is being typed.
fn edit_text(text: &mut String, key: Key)
    ensures
        final(text)@ == text_after_key(old(text)@, key),
{
    match key {
        Key::Char(c) => {
            push_char(text, c);
        },
        Key::Backspace => {
            pop_char(text);
        },
        _ => {},
    }
}

impl App {
    fn commit_dialog_key(&mut self, key: Key) -> (action: Action)
        ensures
            (final(self)@, action@) == commit_dialog_step(old(self)@, key),
    {
        match key {
            Key::Esc => {
                self.mode = AppMode::Status;
                self.commit_message = String::new();
                Action::Nothing
            },
            Key::Enter => {
                if text_is_blank(self.commit_message.as_str()) {
                    Action::Nothing
                } else {
                    Action::Commit(self.commit_message.clone())
                }
            },
            _ => {
                edit_text(&mut self.commit_message, key);
                Action::Nothing
            },
        }
    }

    fn branch_dialog_key(&mut self, key: Key) -> (action: Action)
        ensures
            (final(self)@, action@) == branch_dialog_step(old(self)@, key),
    {
        match key {
            Key::Esc => {
                self.mode = AppMode::Branches;
                self.branch_name = String::new();
                Action::Nothing
            },
            Key::Enter => {
                if text_is_blank(self.branch_name.as_str()) {
                    Action::Nothing
                } else {
                    Action::CreateBranch(self.branch_name.clone())
                }
            },
            _ => {
                edit_text(&mut self.branch_name, key);
                Action::Nothing
            },
        }
    }

    fn stash_dialog_key(&mut self, key: Key) -> (action: Action)
        ensures
            (final(self)@, action@) == stash_dialog_step(old(self)@, key),
    {
        match key {
            Key::Esc => {
                self.mode = AppMode::Status;
                self.stash_message = String::new();
                Action::Nothing
            },
            Key::Enter => {
                if text_is_blank(self.stash_message.as_str()) {
                    Action::StashSave(None)
                } else {
                    Action::StashSave(Some(self.stash_message.clone()))
                }
            },
            _ => {
                edit_text(&mut self.stash_message, key);
                Action::Nothing
            },
        }
    }

    fn switch_to(&mut self, mode: AppMode) -> (action: Action)
        ensures
            (final(self)@, action@) == switched_to(old(self)@, mode),
    {
        self.mode = mode;
        Action::Refresh
    }

    fn show_error(&mut self, message: &str)
        ensures
            final(self)@ == with_error(old(self)@, message@),
    {
        self.error_message = Some(String::from_str(message));
    }

    fn stash_list_key(&mut self, key: Key) -> (action: Action)
        ensures
            (final(self)@, action@) == stash_list_step(old(self)@, key),
    {
        match key {
            Key::Char(c) => {
                if c == 'q' {
                    self.should_quit = true;
                    Action::Nothing
                } else if c == '1' {
                    self.switch_to(AppMode::Status)
                } else if c == '2' {
                    self.switch_to(AppMode::Log)
                } else if c == '3' {
                    self.switch_to(AppMode::Branches)
                } else {
                    Action::Nothing
                }
            },
            Key::Esc => {
                self.mode = AppMode::Status;
                Action::Nothing
            },
            Key::Up => {
                self.selected_stash = move_up(self.selected_stash);
                Action::Nothing
            },
            Key::Down => {
                self.selected_stash = move_down(self.selected_stash, self.stashes.len());
                Action::Nothing
            },
            Key::Enter => Action::StashPop,
            Key::Delete => {
                if self.selected_stash < self.stashes.len() {
                    Action::StashDrop(self.selected_stash)
                } else {
                    Action::Nothing
                }
            },
            _ => Action::Nothing,
        }
    }

    fn toggle_stage(&self) -> (action: Action)
        ensures
            (self@, action@) == toggle_stage_step(self@),
    {
        match &self.status {
            Some(status) => {
                match status.path_at(self.selected_file) {
                    Some(path) => {
                        if self.selected_file < status.staged.len() {
                            Action::Unstage(path)
                        } else {
                            Action::Stage(path)
                        }
                    },
                    None => Action::Nothing,
                }
            },
            None => Action::Nothing,
        }
    }

    fn push_key(&mut self) -> (action: Action)
        ensures
            (final(self)@, action@) == push_step(old(self)@),
    {
        if self.mode == AppMode::RemoteOperations && self.selected_remote < self.remotes.len() {
            assert(self@.remotes[self.selected_remote as int]
                == self.remotes@[self.selected_remote as int]@);
            let remote = self.remotes[self.selected_remote].clone();
            let branch = self.current_branch.clone();
            self.is_pushing = true;
            self.push_progress = Some(String::from_str("pushing to remote..."));
            Action::Push { remote, branch }
        } else {
            Action::Nothing
        }
    }

    fn pull_key(&mut self) -> (action: Action)
        ensures
            (final(self)@, action@) == pull_step(old(self)@),
    {
        if self.mode == AppMode::RemoteOperations && self.selected_remote < self.remotes.len() {
            assert(self@.remotes[self.selected_remote as int]
                == self.remotes@[self.selected_remote as int]@);
            let remote = self.remotes[self.selected_remote].clone();
            let branch = self.current_branch.clone();
            self.is_pulling = true;
            self.pull_progress = Some(String::from_str("pulling from remote..."));
            Action::Pull { remote, branch }
        } else {
            Action::Nothing
        }
    }

    fn enter_key(&mut self) -> (action: Action)
        ensures
            (final(self)@, action@) == enter_step(old(self)@),
    {
        match self.mode {
            AppMode::Status => self.toggle_stage(),
            AppMode::Branches => {
                if self.selected_file < self.branches.len() {
                    assert(self@.branches[self.selected_file as int]
                        == self.branches@[self.selected_file as int]@);
                    let branch = &self.branches[self.selected_file];
                    if text_starts_with(branch.as_str(), "origin/") {
                        Action::Nothing
                    } else {
                        Action::Checkout(branch.clone())
                    }
                } else {
                    self.show_error("cannot checkout remote branch directly.");
                    Action::Nothing
                }
            },
            _ => Action::Nothing,
        }
    }

    fn up_key(&mut self)
        ensures
            final(self)@ == up_step(old(self)@),
    {
        match self.mode {
            AppMode::Log => {
                self.selected_commit = move_up(self.selected_commit);
            },
            AppMode::Status => {
                if self.selected_file > 0 {
                    self.selected_file = move_up(self.selected_file);
                    self.diff_scroll = 0;
                }
            },
            AppMode::Branches => {
                self.selected_file = move_up(self.selected_file);
            },
            _ => {},
        }
    }

    fn down_key(&mut self)
        ensures
            final(self)@ == down_step(old(self)@),
    {
        match self.mode {
            AppMode::Log => {
                self.selected_commit = move_down(self.selected_commit, self.commits.len());
            },
            AppMode::Status => {
                let more = match &self.status {
                    Some(status) => self.selected_file < usize::MAX && status.has_file_at(
                        self.selected_file + 1,
                    ),
                    None => false,
                };
                if more {
                    self.selected_file = self.selected_file + 1;
                    self.diff_scroll = 0;
                }
            },
            AppMode::Branches => {
                self.selected_file = move_down(self.selected_file, self.branches.len());
            },
            _ => {},
        }
    }

    fn scroll_key(&mut self, key: Key)
        ensures
            final(self)@ == scroll_step(old(self)@, key),
    {
        if self.mode == AppMode::Status {
            match key {
                Key::PageUp => {
                    self.diff_scroll = if self.diff_scroll >= 10 {
                        self.diff_scroll - 10
                    } else {
                        0
                    };
                },
                Key::PageDown => {
                    self.diff_scroll = if self.diff_scroll <= u16::MAX - 10 {
                        self.diff_scroll + 10
                    } else {
                        u16::MAX
                    };
                },
                Key::Home => {
                    self.diff_scroll = 0;
                },
                Key::End => {
                    self.diff_scroll = if self.diff_scroll <= u16::MAX - 1000 {
                        self.diff_scroll + 1000
                    } else {
                        u16::MAX
                    };
                },
                _ => {},
            }
        }
    }

    fn char_key(&mut self, c: char) -> (action: Action)
        ensures
            (final(self)@, action@) == char_step(old(self)@, c),
    {
        if c == 'q' {
            self.should_quit = true;
            Action::Nothing
        } else if c == '1' {
            self.switch_to(AppMode::Status)
        } else if c == '2' {
            self.switch_to(AppMode::Log)
        } else if c == '3' {
            self.switch_to(AppMode::Branches)
        } else if c == '4' {
            self.switch_to(AppMode::StashList)
        } else if c == '5' {
            self.switch_to(AppMode::RemoteOperations)
        } else if c == 'p' {
            self.push_key()
        } else if c == 'u' {
            self.pull_key()
        } else if c == 's' {
            self.mode = AppMode::StashDialog;
            self.stash_message = String::new();
            Action::Nothing
        } else if c == 'n' {
            if self.mode == AppMode::Branches {
                self.mode = AppMode::CreateBranchDialog;
                self.branch_name = String::new();
            }
            Action::Nothing
        } else if c == 'c' {
            let staged = match &self.status {
                Some(status) => Some(status.staged.len() > 0),
                None => None,
            };
            match staged {
                Some(true) => {
                    self.mode = AppMode::CommitDialog;
                    self.commit_message = String::new();
                },
                Some(false) => {
                    self.show_error("no staged files to commit.");
                },
                None => {},
            }
            Action::Nothing
        } else if c == 'm' {
            Action::DetectMerge
        } else if c == ' ' {
            self.toggle_stage()
        } else {
            Action::Nothing
        }
    }

    fn global_key(&mut self, key: Key) -> (action: Action)
        ensures
            (final(self)@, action@) == global_step(old(self)@, key),
    {
        match key {
            Key::Char(c) => self.char_key(c),
            Key::Up => {
                self.up_key();
                Action::Nothing
            },
            Key::Down => {
                self.down_key();
                Action::Nothing
            },
            Key::F(n) => {
                if n == 5 {
                    Action::Refresh
                } else {
                    Action::Nothing
                }
            },
            Key::Enter => self.enter_key(),
            _ => {
                self.scroll_key(key);
                Action::Nothing
            },
        }
    }

    fn remote_key(&mut self, key: Key) -> (action: Action)
        ensures
            (final(self)@, action@) == remote_step(old(self)@, key),
    {
        match key {
            Key::Up => {
                self.selected_remote = move_up(self.selected_remote);
                Action::Nothing
            },
            Key::Down => {
                self.selected_remote = move_down(self.selected_remote, self.remotes.len());
                Action::Nothing
            },
            _ => self.global_key(key),
        }
    }

    fn move_cursor(&mut self, key: Key)
        requires
            key == Key::Up || key == Key::Down || key == Key::Right,
        ensures
            final(self)@ == (AppView {
                cursor: match key {
                    Key::Up => after_hunk_up(old(self)@.conflict_files(), old(self).cursor),
                    Key::Down => after_hunk_down(old(self)@.conflict_files(), old(self).cursor),
                    _ => after_file_next(old(self)@.conflict_files(), old(self).cursor),
                },
                ..old(self)@
            }),
    {
        let none: Vec<ConflictedFile> = Vec::new();
        assert(files_view(none@) == Seq::<FileView>::empty());
        let next = {
            let files = match self.review.conflict() {
                Some(conflict) => &conflict.files,
                None => &none,
            };
            match key {
                Key::Up => hunk_up(files, self.cursor),
                Key::Down => hunk_down(files, self.cursor),
                _ => file_next(files, self.cursor),
            }
        };
        self.cursor = next;
    }

    fn merge_key(&mut self, key: Key) -> (action: Action)
        ensures
            (final(self)@, action@) == merge_step(old(self)@, key),
    {
        match key {
            Key::Up => {
                self.move_cursor(key);
                Action::Nothing
            },
            Key::Down => {
                self.move_cursor(key);
                Action::Nothing
            },
            Key::Right => {
                self.move_cursor(key);
                Action::Nothing
            },
            Key::F(n) => {
                if n == 5 {
                    Action::Refresh
                } else {
                    self.global_key(key)
                }
            },
            Key::Char(c) => {
                if c == 'o' {
                    self.set_current_resolution(MergeResolution::KeepOurs);
                    Action::Nothing
                } else if c == 't' {
                    self.set_current_resolution(MergeResolution::KeepTheirs);
                    Action::Nothing
                } else if c == 'b' {
                    self.set_current_resolution(MergeResolution::KeepBoth);
                    Action::Nothing
                } else if c == 'e' {
                    Action::Nothing
                } else if c == 'c' {
                    if self.can_complete_merge() {
                        Action::CompleteMerge(String::from_str("Merge commit"))
                    } else {
                        self.show_error("cannot complete merge, some conflicts are unresolved.");
                        Action::Nothing
                    }
                } else if c == 'a' {
                    Action::AbortMerge
                } else if (c == 'q' || c == '1' || c == '2' || c == '3' || c == '4' || c == '5' || c
                    == 's') && self.review.conflict().is_some() {
                    self.show_error(
                        "cannot exit merge mode while conflicts exist. use 'a' to abort or 'c' to complete.",
                    );
                    Action::Nothing
                } else {
                    self.global_key(key)
                }
            },
            Key::Esc => {
                if self.review.conflict().is_some() {
                    self.show_error(
                        "cannot exit merge mode while conflicts exist. use 'a' to abort or 'c' to complete.",
                    );
                } else {
                    self.mode = AppMode::Status;
                }
                Action::Nothing
            },
            _ => self.global_key(key),
        }
    }

    /// Handles a key: changes the session as `key_step` says and returns
    /// the work it asks for.
    pub fn handle_key_event(&mut self, key: Key) -> (action: Action)
        ensures
            (final(self)@, action@) == key_step(old(self)@, key),
    {
        self.error_message = None;
        self.push_progress = None;
        self.pull_progress = None;
        match self.mode {
            AppMode::CommitDialog => self.commit_dialog_key(key),
            AppMode::CreateBranchDialog => self.branch_dialog_key(key),
            AppMode::StashDialog => self.stash_dialog_key(key),
            AppMode::StashList => self.stash_list_key(key),
            AppMode::RemoteOperations => self.remote_key(key),
            AppMode::MergeConflict => self.merge_key(key),
            _ => self.global_key(key),
        }
    }
}

} // verus!
