use git_hydra::status::{
    build_status, first_line_of, short_id_of, Commit, EntryFlags, FileStatus, RepoStatus,
    StatusEntry,
};

const CLEAN: EntryFlags = EntryFlags {
    index_new: false,
    index_modified: false,
    index_deleted: false,
    wt_new: false,
    wt_modified: false,
    wt_deleted: false,
};

fn entry(path: &str, flags: EntryFlags) -> StatusEntry {
    StatusEntry { path: path.to_string(), flags }
}

fn listed(files: &[FileStatus]) -> Vec<(String, String)> {
    files.iter().map(|file| (file.status.clone(), file.path.clone())).collect()
}

fn pair(status: &str, path: &str) -> (String, String) {
    (status.to_string(), path.to_string())
}

#[test]
fn entries_are_sorted_into_three_groups() {
    let entries = vec![
        entry("added", EntryFlags { index_new: true, ..CLEAN }),
        entry("staged", EntryFlags { index_modified: true, ..CLEAN }),
        entry("removed", EntryFlags { index_deleted: true, ..CLEAN }),
        entry("new", EntryFlags { wt_new: true, ..CLEAN }),
        entry("changed", EntryFlags { wt_modified: true, ..CLEAN }),
        entry("gone", EntryFlags { wt_deleted: true, ..CLEAN }),
        entry("both", EntryFlags { index_modified: true, wt_modified: true, ..CLEAN }),
        entry("clean", CLEAN),
        entry("odd", EntryFlags { index_new: true, index_deleted: true, wt_new: true, wt_modified: true, ..CLEAN }),
    ];
    let status = build_status(&entries, "main".to_string(), 2, 3);
    assert_eq!(status.branch, "main");
    assert_eq!((status.ahead, status.behind), (2, 3));
    assert_eq!(
        listed(&status.staged),
        vec![pair("A", "added"), pair("M", "staged"), pair("D", "removed"), pair("M", "both"), pair("A", "odd")]
    );
    assert_eq!(
        listed(&status.unstaged),
        vec![pair("M", "changed"), pair("D", "gone"), pair("M", "both")]
    );
    assert_eq!(listed(&status.untracked), vec![pair("??", "new"), pair("??", "odd")]);
    assert_eq!(status.total_files(), Some(10));
}

#[test]
fn files_are_counted_through_the_three_groups() {
    let entries = vec![
        entry("u", EntryFlags { wt_new: true, ..CLEAN }),
        entry("s", EntryFlags { index_new: true, ..CLEAN }),
        entry("w", EntryFlags { wt_deleted: true, ..CLEAN }),
    ];
    let status = build_status(&entries, "b".to_string(), 0, 0);
    assert_eq!(status.path_at(0).as_deref(), Some("s"));
    assert_eq!(status.path_at(1).as_deref(), Some("w"));
    assert_eq!(status.path_at(2).as_deref(), Some("u"));
    assert_eq!(status.path_at(3), None);
    assert!(status.has_file_at(2));
    assert!(!status.has_file_at(3));
    assert!(!status.has_file_at(usize::MAX));
}

#[test]
fn status_prints_branch_distances_and_groups() {
    let status = RepoStatus {
        branch: "topic".to_string(),
        ahead: 12,
        behind: 0,
        staged: vec![FileStatus { path: "a.rs".to_string(), status: "A".to_string() }],
        unstaged: Vec::new(),
        untracked: vec![
            FileStatus { path: "x".to_string(), status: "??".to_string() },
            FileStatus { path: "y z".to_string(), status: "??".to_string() },
        ],
    };
    assert_eq!(
        status.to_text(),
        "branch: topic\nahead by 12 commits.\n\nstaged changes:\n A a.rs\n\nuntracked files:\n ?? x\n ?? y z\n"
    );
}

#[test]
fn clean_status_prints_the_branch_alone() {
    let status = build_status(&Vec::new(), "main".to_string(), 0, 0);
    assert_eq!(status.to_text(), "branch: main\n");
    assert_eq!(status.total_files(), Some(0));
    let behind = build_status(&Vec::new(), "main".to_string(), 0, 1005);
    assert_eq!(behind.to_text(), "branch: main\nbehind by 1005 commits.\n");
    let both = RepoStatus {
        branch: String::new(),
        ahead: 1,
        behind: 90,
        staged: Vec::new(),
        unstaged: vec![FileStatus { path: "f".to_string(), status: "D".to_string() }],
        untracked: Vec::new(),
    };
    assert_eq!(
        both.to_text(),
        "branch: \nahead by 1 commits.\nbehind by 90 commits.\n\nunstaged changes:\n D f\n"
    );
}

#[test]
fn commit_is_summed_up_in_one_line() {
    let commit = Commit {
        id: "0123456789abcdef0123456789abcdef01234567".to_string(),
        message: "fix the parser\n\nlong story".to_string(),
        author: "Ada".to_string(),
        timestamp: 1_700_000_000,
        parents: vec!["89abcdef".to_string()],
    };
    assert_eq!(commit.summary(), "01234567 fix the parser (Ada)");
    let copy = commit.clone();
    assert_eq!(copy.id, commit.id);
    assert_eq!(copy.message, commit.message);
    assert_eq!(copy.author, commit.author);
    assert_eq!(copy.timestamp, 1_700_000_000);
    assert_eq!(copy.parents, vec!["89abcdef"]);
    let bare = Commit {
        id: "abc".to_string(),
        message: String::new(),
        author: String::new(),
        timestamp: -1,
        parents: Vec::new(),
    };
    assert_eq!(bare.summary(), "abc  ()");
}

#[test]
fn short_identifier_has_eight_characters_at_most() {
    assert_eq!(short_id_of("0123456789"), "01234567");
    assert_eq!(short_id_of("01234567"), "01234567");
    assert_eq!(short_id_of("0123"), "0123");
    assert_eq!(short_id_of(""), "");
}

#[test]
fn first_line_ends_at_the_first_line_ending() {
    assert_eq!(first_line_of("one\ntwo"), "one");
    assert_eq!(first_line_of("one\r\ntwo"), "one");
    assert_eq!(first_line_of("\nsecond"), "");
    assert_eq!(first_line_of("single"), "single");
    assert_eq!(first_line_of(""), "");
}

#[test]
fn changed_file_clones_with_its_texts() {
    let file = FileStatus { path: "p".to_string(), status: "M".to_string() };
    let copy = file.clone();
    assert_eq!((copy.path, copy.status), (file.path, file.status));
}
