use git_hydra::app::AppMode;
use git_hydra::layout::{
    branch_label, cursor_column, diff_line, kind_of_diff_line, popup_split, scroll_of,
    selected_tab, shows_long_help, DiffLineKind, ScrollPosition,
};

#[test]
fn every_view_has_its_tab() {
    assert_eq!(selected_tab(AppMode::Status), 0);
    assert_eq!(selected_tab(AppMode::CommitDialog), 0);
    assert_eq!(selected_tab(AppMode::StashDialog), 0);
    assert_eq!(selected_tab(AppMode::MergeConflict), 0);
    assert_eq!(selected_tab(AppMode::Log), 1);
    assert_eq!(selected_tab(AppMode::Branches), 2);
    assert_eq!(selected_tab(AppMode::CreateBranchDialog), 2);
    assert_eq!(selected_tab(AppMode::StashList), 3);
    assert_eq!(selected_tab(AppMode::RemoteOperations), 4);
}

#[test]
fn long_help_needs_more_than_120_columns() {
    assert!(!shows_long_help(120));
    assert!(shows_long_help(121));
    assert!(!shows_long_help(0));
}

#[test]
fn lines_of_a_diff_are_told_apart_by_their_first_characters() {
    assert_eq!(kind_of_diff_line("+added"), DiffLineKind::Added);
    assert_eq!(kind_of_diff_line("++"), DiffLineKind::Added);
    assert_eq!(kind_of_diff_line("+++ b/file"), DiffLineKind::FileHeader);
    assert_eq!(kind_of_diff_line("-removed"), DiffLineKind::Removed);
    assert_eq!(kind_of_diff_line("--- a/file"), DiffLineKind::FileHeader);
    assert_eq!(kind_of_diff_line("@@ -1,2 +1,3 @@"), DiffLineKind::HunkHeader);
    assert_eq!(kind_of_diff_line("@ x"), DiffLineKind::Context);
    assert_eq!(kind_of_diff_line(" context"), DiffLineKind::Context);
    assert_eq!(kind_of_diff_line(""), DiffLineKind::Context);
}

#[test]
fn origin_of_a_diff_line_is_written_where_it_is_a_sign() {
    for origin in ['+', '-', ' '] {
        assert_eq!(diff_line(origin, "x\n", false), format!("{}x\n", origin));
        assert_eq!(diff_line(origin, "x\n", true), format!("{}x\n", origin));
    }
    for origin in ['=', '>', '<', 'F', 'H'] {
        assert_eq!(diff_line(origin, "x\n", false), format!("{}x\n", origin));
        assert_eq!(diff_line(origin, "x\n", true), "x\n");
    }
    assert_eq!(diff_line('B', "binary\n", false), "binary\n");
    assert_eq!(diff_line('+', "", true), "+");
}

#[test]
fn scroll_stays_within_the_diff_and_tells_how_far_it_is() {
    assert_eq!(scroll_of(5, 100, 22), ScrollPosition { top: 5, percent: Some(6) });
    assert_eq!(scroll_of(80, 100, 22), ScrollPosition { top: 80, percent: Some(100) });
    assert_eq!(scroll_of(500, 100, 22), ScrollPosition { top: 80, percent: Some(100) });
    assert_eq!(scroll_of(0, 100, 22), ScrollPosition { top: 0, percent: Some(0) });
    assert_eq!(scroll_of(40, 100, 22), ScrollPosition { top: 40, percent: Some(50) });
    assert_eq!(scroll_of(7, 20, 22), ScrollPosition { top: 0, percent: None });
    assert_eq!(scroll_of(7, 10, 22), ScrollPosition { top: 0, percent: None });
    assert_eq!(scroll_of(7, 21, 22), ScrollPosition { top: 1, percent: Some(100) });
    assert_eq!(scroll_of(3, 5, 1), ScrollPosition { top: 3, percent: Some(60) });
    assert_eq!(scroll_of(9, 0, 0), ScrollPosition { top: 0, percent: None });
    assert_eq!(scroll_of(700, 70000, 2), ScrollPosition { top: 700, percent: Some(1) });
    assert_eq!(scroll_of(65535, 70000, 0), ScrollPosition { top: 65535, percent: Some(100) });
}

#[test]
fn popup_leaves_two_margins_of_a_hundred_less_half_its_size() {
    assert_eq!(popup_split(60), (70, 60, 70));
    assert_eq!(popup_split(20), (90, 20, 90));
    assert_eq!(popup_split(15), (93, 15, 93));
    assert_eq!(popup_split(0), (100, 0, 100));
    assert_eq!(popup_split(200), (0, 200, 0));
    assert_eq!(popup_split(201), (0, 201, 0));
    assert_eq!(popup_split(300), (0, 300, 0));
}

#[test]
fn branches_are_labelled_as_local_or_remote() {
    assert_eq!(branch_label("main"), "local: main");
    assert_eq!(branch_label("origin/main"), "remote: origin/main");
    assert_eq!(branch_label("origin"), "local: origin");
    assert_eq!(branch_label(""), "local: ");
}

#[test]
fn text_cursor_stands_one_past_the_text() {
    assert_eq!(cursor_column(10, 0), 11);
    assert_eq!(cursor_column(10, 5), 16);
    assert_eq!(cursor_column(65530, 4), 65535);
    assert_eq!(cursor_column(65530, 5), 65535);
    assert_eq!(cursor_column(0, usize::MAX), 65535);
    assert_eq!(cursor_column(65535, 0), 65535);
}
