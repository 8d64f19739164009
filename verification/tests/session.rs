use git_hydra::app::{App, AppMode};
use git_hydra::conflict::{ConflictHunk, ConflictedFile, MergeConflict, MergeResolution};
use git_hydra::error::MergeError;
use git_hydra::keys::{Action, Key};
use git_hydra::navigation::Cursor;
use git_hydra::outcome::{load_of, Load, Outcome, COMMITS_SHOWN};
use git_hydra::status::{Commit, FileStatus, RepoStatus};

const REFUSED: &str =
    "cannot exit merge mode while conflicts exist. use 'a' to abort or 'c' to complete.";

fn some_hunk(start: usize) -> ConflictHunk {
    ConflictHunk {
        start_line: start,
        end_line: start + 4,
        our_content: "ours".to_string(),
        their_content: "theirs".to_string(),
        base_content: None,
    }
}

fn conflict(shape: &[usize]) -> MergeConflict {
    let mut files = Vec::new();
    for (number, hunks) in shape.iter().enumerate() {
        let conflicts = (0..*hunks).map(|hunk| some_hunk(hunk * 10)).collect();
        files.push(ConflictedFile { path: format!("file{}", number), conflicts });
    }
    MergeConflict { files, our_commit: "aa".to_string(), their_commit: "bb".to_string() }
}

fn reviewing(shape: &[usize]) -> App {
    let mut app = App::new();
    assert_eq!(app.apply_detection(Ok(Some(conflict(shape)))), Load::Nothing);
    app
}

fn changed(path: &str, status: &str) -> FileStatus {
    FileStatus { path: path.to_string(), status: status.to_string() }
}

fn status(staged: &[&str], unstaged: &[&str], untracked: &[&str]) -> RepoStatus {
    RepoStatus {
        branch: "main".to_string(),
        ahead: 0,
        behind: 0,
        staged: staged.iter().map(|path| changed(path, "M")).collect(),
        unstaged: unstaged.iter().map(|path| changed(path, "M")).collect(),
        untracked: untracked.iter().map(|path| changed(path, "??")).collect(),
    }
}

fn commit(id: &str) -> Commit {
    Commit {
        id: id.to_string(),
        message: "message".to_string(),
        author: "author".to_string(),
        timestamp: 0,
        parents: Vec::new(),
    }
}

fn type_text(app: &mut App, text: &str) {
    for c in text.chars() {
        assert!(matches!(app.handle_key_event(Key::Char(c)), Action::Nothing));
    }
}

#[test]
fn session_starts_in_the_status_view_with_nothing_loaded() {
    let app = App::new();
    assert_eq!(app.mode, AppMode::Status);
    assert!(!app.should_quit);
    assert!(app.status.is_none());
    assert!(app.review.conflict().is_none());
    assert_eq!(app.cursor, Cursor { file: 0, hunk: 0 });
    assert!(app.get_selected_file_path().is_none());
    assert!(app.get_current_conflict_file().is_none());
    assert!(app.get_current_conflict_hunk().is_none());
    assert!(app.get_current_resolution().is_none());
    assert!(!app.can_complete_merge());
}

#[test]
fn any_key_takes_the_messages_away() {
    let mut app = App::new();
    app.error_message = Some("old".to_string());
    app.push_progress = Some("old".to_string());
    app.pull_progress = Some("old".to_string());
    assert!(matches!(app.handle_key_event(Key::Other), Action::Nothing));
    assert!(app.error_message.is_none());
    assert!(app.push_progress.is_none());
    assert!(app.pull_progress.is_none());
}

#[test]
fn commit_dialog_takes_text_and_asks_for_the_commit() {
    let mut app = App::new();
    app.set_status(status(&["a"], &[], &[]));
    assert!(matches!(app.handle_key_event(Key::Char('c')), Action::Nothing));
    assert_eq!(app.mode, AppMode::CommitDialog);
    assert!(matches!(app.handle_key_event(Key::Enter), Action::Nothing));
    type_text(&mut app, "  ");
    assert!(matches!(app.handle_key_event(Key::Enter), Action::Nothing));
    type_text(&mut app, "fix qx");
    assert!(matches!(app.handle_key_event(Key::Backspace), Action::Nothing));
    assert_eq!(app.commit_message, "  fix q");
    let action = app.handle_key_event(Key::Enter);
    assert!(matches!(&action, Action::Commit(message) if message == "  fix q"));
    assert_eq!(app.mode, AppMode::CommitDialog);
    assert!(!app.action_finished(&action, &Outcome::Failed("no identity".to_string())));
    assert_eq!(app.error_message.as_deref(), Some("commit failed: no identity"));
    assert_eq!(app.mode, AppMode::CommitDialog);
    assert_eq!(app.commit_message, "  fix q");
    assert!(app.action_finished(&action, &Outcome::Done));
    assert_eq!(app.mode, AppMode::Status);
    assert_eq!(app.commit_message, "");
}

#[test]
fn backspace_on_an_empty_text_changes_nothing() {
    let mut app = App::new();
    app.mode = AppMode::StashDialog;
    app.handle_key_event(Key::Backspace);
    assert_eq!(app.stash_message, "");
    type_text(&mut app, "a");
    app.handle_key_event(Key::Backspace);
    app.handle_key_event(Key::Backspace);
    assert_eq!(app.stash_message, "");
}

#[test]
fn commit_key_without_staged_files_shows_an_error() {
    let mut app = App::new();
    assert!(matches!(app.handle_key_event(Key::Char('c')), Action::Nothing));
    assert_eq!(app.mode, AppMode::Status);
    assert!(app.error_message.is_none());
    app.set_status(status(&[], &["a"], &[]));
    app.handle_key_event(Key::Char('c'));
    assert_eq!(app.mode, AppMode::Status);
    assert_eq!(app.error_message.as_deref(), Some("no staged files to commit."));
}

#[test]
fn escape_leaves_a_dialog_and_forgets_its_text() {
    let mut app = App::new();
    app.mode = AppMode::Branches;
    app.handle_key_event(Key::Char('n'));
    assert_eq!(app.mode, AppMode::CreateBranchDialog);
    type_text(&mut app, "topic");
    assert_eq!(app.branch_name, "topic");
    app.handle_key_event(Key::Esc);
    assert_eq!(app.mode, AppMode::Branches);
    assert_eq!(app.branch_name, "");
    app.handle_key_event(Key::Char('s'));
    assert_eq!(app.mode, AppMode::StashDialog);
    type_text(&mut app, "wip");
    app.handle_key_event(Key::Esc);
    assert_eq!(app.mode, AppMode::Status);
    assert_eq!(app.stash_message, "");
}

#[test]
fn branch_dialog_asks_for_the_branch() {
    let mut app = App::new();
    app.mode = AppMode::CreateBranchDialog;
    assert!(matches!(app.handle_key_event(Key::Enter), Action::Nothing));
    type_text(&mut app, "topic");
    let action = app.handle_key_event(Key::Enter);
    assert!(matches!(&action, Action::CreateBranch(name) if name == "topic"));
    assert!(!app.action_finished(&action, &Outcome::Failed("exists".to_string())));
    assert_eq!(app.error_message.as_deref(), Some("failed to create branch: exists"));
    assert!(app.action_finished(&action, &Outcome::Done));
    assert_eq!(app.mode, AppMode::Branches);
    assert_eq!(app.branch_name, "");
}

#[test]
fn stash_dialog_stashes_with_or_without_message() {
    let mut app = App::new();
    app.mode = AppMode::StashDialog;
    type_text(&mut app, " ");
    let plain = app.handle_key_event(Key::Enter);
    assert!(matches!(&plain, Action::StashSave(None)));
    type_text(&mut app, "wip");
    let named = app.handle_key_event(Key::Enter);
    assert!(matches!(&named, Action::StashSave(Some(message)) if message == " wip"));
    assert!(!app.action_finished(&named, &Outcome::Failed("nothing".to_string())));
    assert_eq!(app.error_message.as_deref(), Some("failed to stash: nothing"));
    assert!(app.action_finished(&named, &Outcome::Done));
    assert_eq!(app.mode, AppMode::Status);
    assert_eq!(app.stash_message, "");
}

#[test]
fn stash_list_selects_pops_and_drops() {
    let mut app = App::new();
    app.mode = AppMode::StashList;
    app.set_stashes(vec!["s0".to_string(), "s1".to_string()]);
    app.handle_key_event(Key::Up);
    assert_eq!(app.selected_stash, 0);
    app.handle_key_event(Key::Down);
    app.handle_key_event(Key::Down);
    assert_eq!(app.selected_stash, 1);
    let drop = app.handle_key_event(Key::Delete);
    assert!(matches!(drop, Action::StashDrop(1)));
    assert!(app.action_finished(&drop, &Outcome::Done));
    app.set_stashes(vec!["s0".to_string()]);
    assert_eq!(app.selected_stash, 0);
    assert!(!app.action_finished(&drop, &Outcome::Failed("gone".to_string())));
    assert_eq!(app.error_message.as_deref(), Some("failed to drop stash: gone"));
    let pop = app.handle_key_event(Key::Enter);
    assert!(matches!(pop, Action::StashPop));
    assert!(!app.action_finished(&pop, &Outcome::Failed("dirty".to_string())));
    assert_eq!(app.error_message.as_deref(), Some("failed to pop stash: dirty"));
    assert_eq!(app.mode, AppMode::StashList);
    assert!(app.action_finished(&pop, &Outcome::Done));
    assert_eq!(app.mode, AppMode::Status);
}

#[test]
fn stash_list_has_its_own_keys() {
    let mut app = App::new();
    app.mode = AppMode::StashList;
    assert!(matches!(app.handle_key_event(Key::Delete), Action::Nothing));
    assert!(matches!(app.handle_key_event(Key::Char('4')), Action::Nothing));
    assert_eq!(app.mode, AppMode::StashList);
    assert!(matches!(app.handle_key_event(Key::Char('2')), Action::Refresh));
    assert_eq!(app.mode, AppMode::Log);
    app.mode = AppMode::StashList;
    app.handle_key_event(Key::Esc);
    assert_eq!(app.mode, AppMode::Status);
    app.mode = AppMode::StashList;
    app.handle_key_event(Key::Char('q'));
    assert!(app.should_quit);
}

#[test]
fn digits_switch_views_and_ask_for_a_refresh() {
    let mut app = App::new();
    for (key, mode) in [
        ('2', AppMode::Log),
        ('3', AppMode::Branches),
        ('4', AppMode::StashList),
        ('1', AppMode::Status),
        ('5', AppMode::RemoteOperations),
    ] {
        assert!(matches!(app.handle_key_event(Key::Char(key)), Action::Refresh));
        assert_eq!(app.mode, mode);
        app.mode = AppMode::Status;
    }
    assert!(matches!(app.handle_key_event(Key::F(5)), Action::Refresh));
    assert!(matches!(app.handle_key_event(Key::F(4)), Action::Nothing));
    assert!(matches!(app.handle_key_event(Key::Char('m')), Action::DetectMerge));
    app.handle_key_event(Key::Char('q'));
    assert!(app.should_quit);
}

#[test]
fn status_view_selects_files_and_resets_the_scroll() {
    let mut app = App::new();
    app.handle_key_event(Key::Down);
    assert_eq!(app.selected_file, 0);
    app.set_status(status(&["a"], &["b"], &["c"]));
    app.diff_scroll = 7;
    app.handle_key_event(Key::Down);
    assert_eq!((app.selected_file, app.diff_scroll), (1, 0));
    app.handle_key_event(Key::Down);
    app.diff_scroll = 3;
    app.handle_key_event(Key::Down);
    assert_eq!((app.selected_file, app.diff_scroll), (2, 3));
    app.handle_key_event(Key::Up);
    assert_eq!((app.selected_file, app.diff_scroll), (1, 0));
    app.handle_key_event(Key::Up);
    app.diff_scroll = 9;
    app.handle_key_event(Key::Up);
    assert_eq!((app.selected_file, app.diff_scroll), (0, 9));
}

#[test]
fn enter_and_space_stage_or_unstage_the_selected_file() {
    let mut app = App::new();
    assert!(matches!(app.handle_key_event(Key::Enter), Action::Nothing));
    app.set_status(status(&["staged.txt"], &["changed.txt"], &["new.txt"]));
    assert_eq!(app.get_selected_file_path().as_deref(), Some("staged.txt"));
    let unstage = app.handle_key_event(Key::Enter);
    assert!(matches!(&unstage, Action::Unstage(path) if path == "staged.txt"));
    app.selected_file = 1;
    let stage = app.handle_key_event(Key::Char(' '));
    assert!(matches!(&stage, Action::Stage(path) if path == "changed.txt"));
    app.selected_file = 2;
    assert!(matches!(app.handle_key_event(Key::Enter), Action::Stage(path) if path == "new.txt"));
    app.selected_file = 3;
    assert!(app.get_selected_file_path().is_none());
    assert!(matches!(app.handle_key_event(Key::Enter), Action::Nothing));
    assert!(app.action_finished(&stage, &Outcome::Done));
    assert!(app.error_message.is_none());
    assert!(app.action_finished(&stage, &Outcome::Failed("locked".to_string())));
    assert_eq!(app.error_message.as_deref(), Some("failed to stage: locked"));
    assert!(app.action_finished(&unstage, &Outcome::Failed("locked".to_string())));
    assert_eq!(app.error_message.as_deref(), Some("failed to unstage: locked"));
}

#[test]
fn scroll_keys_work_in_the_status_view_only() {
    let mut app = App::new();
    app.handle_key_event(Key::PageUp);
    assert_eq!(app.diff_scroll, 0);
    app.handle_key_event(Key::PageDown);
    app.handle_key_event(Key::PageDown);
    assert_eq!(app.diff_scroll, 20);
    app.handle_key_event(Key::PageUp);
    assert_eq!(app.diff_scroll, 10);
    app.handle_key_event(Key::End);
    assert_eq!(app.diff_scroll, 1010);
    app.diff_scroll = 65000;
    app.handle_key_event(Key::End);
    assert_eq!(app.diff_scroll, 65535);
    app.handle_key_event(Key::PageDown);
    assert_eq!(app.diff_scroll, 65535);
    app.handle_key_event(Key::Home);
    assert_eq!(app.diff_scroll, 0);
    app.diff_scroll = 5;
    app.handle_key_event(Key::PageUp);
    assert_eq!(app.diff_scroll, 0);
    app.diff_scroll = 5;
    app.mode = AppMode::Log;
    app.handle_key_event(Key::Home);
    app.handle_key_event(Key::PageDown);
    assert_eq!(app.diff_scroll, 5);
}

#[test]
fn log_and_branch_views_keep_the_selection_in_the_list() {
    let mut app = App::new();
    app.mode = AppMode::Log;
    app.set_commits(vec![commit("a"), commit("b")]);
    app.handle_key_event(Key::Down);
    app.handle_key_event(Key::Down);
    assert_eq!(app.selected_commit, 1);
    app.set_commits(vec![commit("a")]);
    assert_eq!(app.selected_commit, 0);
    app.handle_key_event(Key::Up);
    assert_eq!(app.selected_commit, 0);
    app.selected_commit = 4;
    app.set_commits(Vec::new());
    assert_eq!(app.selected_commit, 0);
    app.mode = AppMode::Branches;
    app.set_branches(vec!["main".to_string(), "origin/main".to_string()]);
    app.handle_key_event(Key::Down);
    app.handle_key_event(Key::Down);
    assert_eq!(app.selected_file, 1);
    app.handle_key_event(Key::Up);
    assert_eq!(app.selected_file, 0);
}

#[test]
fn enter_checks_out_local_branches_only() {
    let mut app = App::new();
    app.mode = AppMode::Branches;
    app.set_branches(vec!["topic".to_string(), "origin/main".to_string()]);
    let checkout = app.handle_key_event(Key::Enter);
    assert!(matches!(&checkout, Action::Checkout(name) if name == "topic"));
    assert!(!app.action_finished(&checkout, &Outcome::Failed("dirty".to_string())));
    assert_eq!(app.error_message.as_deref(), Some("failed to checkout: dirty"));
    assert!(app.action_finished(&checkout, &Outcome::Done));
    app.selected_file = 1;
    assert!(matches!(app.handle_key_event(Key::Enter), Action::Nothing));
    assert!(app.error_message.is_none());
    app.selected_file = 2;
    assert!(matches!(app.handle_key_event(Key::Enter), Action::Nothing));
    assert_eq!(app.error_message.as_deref(), Some("cannot checkout remote branch directly."));
}

#[test]
fn remote_view_pushes_and_pulls_the_current_branch() {
    let mut app = App::new();
    app.mode = AppMode::RemoteOperations;
    assert!(matches!(app.handle_key_event(Key::Char('p')), Action::Nothing));
    app.set_remotes(vec!["origin".to_string(), "backup".to_string()], "main".to_string());
    app.handle_key_event(Key::Down);
    app.handle_key_event(Key::Down);
    assert_eq!(app.selected_remote, 1);
    app.handle_key_event(Key::Up);
    let push = app.handle_key_event(Key::Char('p'));
    assert!(matches!(&push, Action::Push { remote, branch } if remote == "origin" && branch == "main"));
    assert!(app.is_pushing);
    assert_eq!(app.push_progress.as_deref(), Some("pushing to remote..."));
    assert!(app.action_finished(&push, &Outcome::Done));
    assert!(!app.is_pushing);
    assert_eq!(app.push_progress.as_deref(), Some("Push completed successfully!"));
    assert!(!app.action_finished(&push, &Outcome::Failed("denied".to_string())));
    assert_eq!(app.error_message.as_deref(), Some("push failed: denied"));
    assert!(app.push_progress.is_none());
    app.mode = AppMode::Status;
    assert!(matches!(app.handle_key_event(Key::Char('p')), Action::Nothing));
    assert!(matches!(app.handle_key_event(Key::Char('u')), Action::Nothing));
}

#[test]
fn pull_tells_of_conflicts_once_the_review_is_shown() {
    let mut app = App::new();
    app.mode = AppMode::RemoteOperations;
    app.set_remotes(vec!["origin".to_string()], "main".to_string());
    let pull = app.handle_key_event(Key::Char('u'));
    assert!(matches!(&pull, Action::Pull { remote, branch } if remote == "origin" && branch == "main"));
    assert!(app.is_pulling);
    assert_eq!(app.pull_progress.as_deref(), Some("pulling from remote..."));
    let stopped = Outcome::Failed("merge conflicts require resolution!".to_string());
    assert!(app.action_finished(&pull, &stopped));
    assert!(!app.is_pulling);
    assert!(app.error_message.is_none());
    app.refresh_finished(&pull, &stopped);
    assert_eq!(
        app.error_message.as_deref(),
        Some("pull failed: merge conflicts require resolution!")
    );
    app.apply_detection(Ok(Some(conflict(&[1]))));
    app.refresh_finished(&pull, &stopped);
    assert_eq!(
        app.error_message.as_deref(),
        Some("merge conflict detected after pull, please resolve.")
    );
    app.error_message = None;
    app.refresh_finished(&pull, &Outcome::Done);
    assert_eq!(
        app.error_message.as_deref(),
        Some("merge conflict detected after pull, please resolve.")
    );
    let failed = Outcome::Failed("no route".to_string());
    assert!(!app.action_finished(&pull, &failed));
    assert_eq!(app.error_message.as_deref(), Some("pull failed: no route"));
    let mut calm = App::new();
    assert!(calm.action_finished(&pull, &Outcome::Done));
    assert_eq!(calm.pull_progress.as_deref(), Some("pull completed successfully!"));
    calm.refresh_finished(&pull, &Outcome::Done);
    assert!(calm.error_message.is_none());
}

#[test]
fn found_conflict_opens_the_review_at_the_first_hunk() {
    let mut app = App::new();
    app.cursor = Cursor { file: 3, hunk: 3 };
    assert_eq!(app.apply_detection(Ok(Some(conflict(&[2, 1])))), Load::Nothing);
    assert_eq!(app.mode, AppMode::MergeConflict);
    assert_eq!(app.cursor, Cursor { file: 0, hunk: 0 });
    assert_eq!(app.get_current_conflict_file().unwrap().path, "file0");
    assert_eq!(app.get_current_conflict_hunk().unwrap().start_line, 0);
}

#[test]
fn new_snapshot_clears_the_resolutions_and_keeps_a_cursor_that_fits() {
    let mut app = reviewing(&[2, 2]);
    app.handle_key_event(Key::Down);
    app.handle_key_event(Key::Down);
    app.handle_key_event(Key::Down);
    app.handle_key_event(Key::Char('o'));
    assert_eq!(app.cursor, Cursor { file: 1, hunk: 1 });
    assert!(app.get_current_resolution().is_some());
    app.apply_detection(Ok(Some(conflict(&[2, 2]))));
    assert_eq!(app.cursor, Cursor { file: 1, hunk: 1 });
    assert!(app.get_current_resolution().is_none());
    app.apply_detection(Ok(Some(conflict(&[2, 1]))));
    assert_eq!(app.cursor, Cursor { file: 0, hunk: 0 });
    assert_eq!(app.mode, AppMode::MergeConflict);
}

#[test]
fn no_conflict_any_more_ends_the_review() {
    let mut app = reviewing(&[1]);
    app.handle_key_event(Key::Char('t'));
    assert_eq!(app.apply_detection(Ok(None)), Load::Status);
    assert_eq!(app.mode, AppMode::Status);
    assert!(app.review.conflict().is_none());
    assert!(app.get_current_resolution().is_none());
    app.mode = AppMode::Log;
    assert_eq!(app.apply_detection(Ok(None)), Load::Commits);
    assert_eq!(app.mode, AppMode::Log);
}

#[test]
fn failed_detection_keeps_the_conflict_and_shows_the_error() {
    let mut app = reviewing(&[1]);
    app.handle_key_event(Key::Char('b'));
    assert_eq!(app.apply_detection(Err(MergeError::BackendFailure)), Load::Nothing);
    assert_eq!(
        app.error_message.as_deref(),
        Some("failed to detect merge conflicts: repository operation failed.")
    );
    assert_eq!(app.mode, AppMode::MergeConflict);
    assert!(app.review.conflict().is_some());
    assert!(matches!(app.get_current_resolution(), Some(MergeResolution::KeepBoth)));
    let mut other = App::new();
    other.mode = AppMode::Branches;
    assert_eq!(other.apply_detection(Err(MergeError::NotFound)), Load::Branches);
    assert_eq!(
        other.error_message.as_deref(),
        Some("failed to detect merge conflicts: merge state not found.")
    );
}

#[test]
fn each_view_loads_its_own_data() {
    assert_eq!(load_of(AppMode::Status), Load::Status);
    assert_eq!(load_of(AppMode::Log), Load::Commits);
    assert_eq!(load_of(AppMode::Branches), Load::Branches);
    assert_eq!(load_of(AppMode::StashList), Load::Stashes);
    assert_eq!(load_of(AppMode::RemoteOperations), Load::Remotes);
    assert_eq!(load_of(AppMode::CommitDialog), Load::Nothing);
    assert_eq!(load_of(AppMode::CreateBranchDialog), Load::Nothing);
    assert_eq!(load_of(AppMode::StashDialog), Load::Nothing);
    assert_eq!(load_of(AppMode::MergeConflict), Load::Nothing);
    assert_eq!(COMMITS_SHOWN, 50);
}

#[test]
fn review_keys_move_the_cursor_over_hunks_and_files() {
    let mut app = reviewing(&[2, 1, 2]);
    app.handle_key_event(Key::Up);
    assert_eq!(app.cursor, Cursor { file: 0, hunk: 0 });
    app.handle_key_event(Key::Down);
    assert_eq!(app.cursor, Cursor { file: 0, hunk: 1 });
    app.handle_key_event(Key::Down);
    assert_eq!(app.cursor, Cursor { file: 1, hunk: 0 });
    app.handle_key_event(Key::Right);
    assert_eq!(app.cursor, Cursor { file: 2, hunk: 0 });
    app.handle_key_event(Key::Right);
    assert_eq!(app.cursor, Cursor { file: 2, hunk: 0 });
    app.handle_key_event(Key::Down);
    app.handle_key_event(Key::Down);
    assert_eq!(app.cursor, Cursor { file: 2, hunk: 1 });
    app.handle_key_event(Key::Up);
    app.handle_key_event(Key::Up);
    assert_eq!(app.cursor, Cursor { file: 1, hunk: 0 });
    app.handle_key_event(Key::Up);
    assert_eq!(app.cursor, Cursor { file: 0, hunk: 1 });
}

#[test]
fn setting_a_resolution_does_not_move_the_cursor() {
    let mut app = reviewing(&[2, 1]);
    app.handle_key_event(Key::Down);
    let before = app.cursor;
    for (key, _) in [('o', 0), ('t', 1), ('b', 2), ('e', 3)] {
        assert!(matches!(app.handle_key_event(Key::Char(key)), Action::Nothing));
        assert_eq!(app.cursor, before);
    }
    assert!(matches!(app.get_current_resolution(), Some(MergeResolution::KeepBoth)));
    app.set_current_resolution(MergeResolution::Custom("text".to_string()));
    assert_eq!(app.cursor, before);
    assert!(matches!(app.get_current_resolution(), Some(MergeResolution::Custom(text)) if text == "text"));
}

#[test]
fn resolution_is_not_recorded_where_the_cursor_is_on_no_hunk() {
    let mut app = reviewing(&[1]);
    app.cursor = Cursor { file: 0, hunk: 5 };
    app.set_current_resolution(MergeResolution::KeepOurs);
    assert!(app.get_current_resolution().is_none());
    let mut idle = App::new();
    idle.set_current_resolution(MergeResolution::KeepOurs);
    assert!(idle.get_current_resolution().is_none());
}

#[test]
fn review_is_left_by_completing_or_aborting_only() {
    let mut app = reviewing(&[1]);
    for key in [
        Key::Esc,
        Key::Char('q'),
        Key::Char('1'),
        Key::Char('2'),
        Key::Char('3'),
        Key::Char('4'),
        Key::Char('5'),
        Key::Char('s'),
    ] {
        app.error_message = None;
        assert!(matches!(app.handle_key_event(key), Action::Nothing));
        assert_eq!(app.error_message.as_deref(), Some(REFUSED));
        assert_eq!(app.mode, AppMode::MergeConflict);
        assert!(!app.should_quit);
        assert!(app.review.conflict().is_some());
    }
    assert!(matches!(app.handle_key_event(Key::F(5)), Action::Refresh));
    let abort = app.handle_key_event(Key::Char('a'));
    assert!(matches!(abort, Action::AbortMerge));
    assert!(!app.action_finished(&abort, &Outcome::Failed("reset".to_string())));
    assert_eq!(app.error_message.as_deref(), Some("failed to abort merge: reset"));
    assert_eq!(app.mode, AppMode::MergeConflict);
    assert!(app.review.conflict().is_some());
    assert!(app.action_finished(&abort, &Outcome::Done));
    assert_eq!(app.mode, AppMode::Status);
    assert!(app.review.conflict().is_none());
}

#[test]
fn review_without_conflict_can_be_left() {
    let mut app = App::new();
    app.mode = AppMode::MergeConflict;
    app.handle_key_event(Key::Esc);
    assert_eq!(app.mode, AppMode::Status);
    assert!(app.error_message.is_none());
    app.mode = AppMode::MergeConflict;
    assert!(matches!(app.handle_key_event(Key::Char('2')), Action::Refresh));
    assert_eq!(app.mode, AppMode::Log);
}

#[test]
fn completion_is_asked_for_when_every_hunk_is_resolved() {
    let mut app = reviewing(&[1, 1]);
    app.handle_key_event(Key::Char('o'));
    assert!(!app.can_complete_merge());
    assert!(matches!(app.handle_key_event(Key::Char('c')), Action::Nothing));
    assert_eq!(
        app.error_message.as_deref(),
        Some("cannot complete merge, some conflicts are unresolved.")
    );
    app.handle_key_event(Key::Down);
    app.handle_key_event(Key::Char('t'));
    assert!(app.can_complete_merge());
    let complete = app.handle_key_event(Key::Char('c'));
    assert!(matches!(&complete, Action::CompleteMerge(message) if message == "Merge commit"));
    assert!(!app.action_finished(&complete, &Outcome::Failed("no signature".to_string())));
    assert_eq!(app.error_message.as_deref(), Some("failed to complete merge: no signature"));
    assert_eq!(app.mode, AppMode::MergeConflict);
    assert!(app.can_complete_merge());
    assert!(app.action_finished(&complete, &Outcome::Done));
    assert_eq!(app.mode, AppMode::Status);
    assert!(app.review.conflict().is_none());
    assert!(!app.can_complete_merge());
}

#[test]
fn looking_for_a_merge_opens_the_review_or_says_there_is_none() {
    let mut app = App::new();
    let look = app.handle_key_event(Key::Char('m'));
    assert!(!app.action_finished(&look, &Outcome::Failed(String::new())));
    assert_eq!(app.error_message.as_deref(), Some("no merge conflicts detected."));
    assert_eq!(app.mode, AppMode::Status);
    assert!(app.action_finished(&look, &Outcome::Done));
    assert_eq!(app.mode, AppMode::MergeConflict);
}

#[test]
fn finished_merge_is_forgotten() {
    let mut app = reviewing(&[1]);
    app.handle_key_event(Key::Char('o'));
    assert_eq!(app.complete_merge(), Ok(()));
    assert_eq!(app.mode, AppMode::Status);
    assert!(app.review.conflict().is_none());
    assert!(app.get_current_resolution().is_none());
    let mut other = reviewing(&[1]);
    other.abort_merge();
    assert_eq!(other.mode, AppMode::Status);
    assert!(other.review.conflict().is_none());
}

#[test]
fn work_that_asks_for_nothing_changes_nothing() {
    let mut app = App::new();
    assert!(!app.action_finished(&Action::Nothing, &Outcome::Done));
    assert!(!app.action_finished(&Action::Refresh, &Outcome::Failed("x".to_string())));
    app.refresh_finished(&Action::Refresh, &Outcome::Done);
    assert!(app.error_message.is_none());
    assert_eq!(app.mode, AppMode::Status);
}

#[test]
fn completion_with_an_unresolved_hunk_is_refused_and_changes_nothing() {
    let mut app = reviewing(&[2, 1]);
    app.handle_key_event(Key::Char('t'));
    app.handle_key_event(Key::Down);
    let cursor = app.cursor;
    assert!(!app.can_complete_merge());
    assert_eq!(app.complete_merge(), Err(MergeError::PreconditionFailed));
    assert_eq!(app.mode, AppMode::MergeConflict);
    assert_eq!(app.cursor, cursor);
    assert!(app.error_message.is_none());
    let conflict = app.review.conflict().unwrap();
    assert_eq!(conflict.files.len(), 2);
    assert_eq!(conflict.files[0].conflicts.len(), 2);
    assert!(matches!(app.review.resolutions().get(0, 0), Some(MergeResolution::KeepTheirs)));
    assert!(!app.review.resolutions().contains_key(0, 1));
    assert!(!app.review.resolutions().contains_key(1, 0));
}

#[test]
fn completion_without_a_conflict_is_refused() {
    let mut app = App::new();
    app.mode = AppMode::Log;
    assert_eq!(app.complete_merge(), Err(MergeError::PreconditionFailed));
    assert_eq!(app.mode, AppMode::Log);
    assert!(app.review.conflict().is_none());
}

#[test]
fn merge_reported_as_completed_with_an_unresolved_hunk_is_not_taken_for_completed() {
    let mut app = reviewing(&[1, 1]);
    app.handle_key_event(Key::Char('o'));
    let complete = Action::CompleteMerge("Merge commit".to_string());
    assert!(!app.action_finished(&complete, &Outcome::Done));
    assert_eq!(
        app.error_message.as_deref(),
        Some("cannot complete merge, some conflicts are unresolved.")
    );
    assert_eq!(app.mode, AppMode::MergeConflict);
    assert!(app.review.conflict().is_some());
    assert!(matches!(app.get_current_resolution(), Some(MergeResolution::KeepOurs)));
}
