use git_hydra::detector::{detect_merge_conflicts, holds_commit_id, Sentinel, TreeEntry};
use git_hydra::error::MergeError;

const BLOCK: &str = "<<<<<<<\nfoo\n=======\nbar\n>>>>>>>\n";
const TIP: &str = "0123456789abcdef0123456789abcdef01234567";
const THEIRS: &str = "89abcdef0123456789abcdef0123456789abcdef";

fn entry(path: &str, conflicted: bool, content: Option<&str>) -> TreeEntry {
    TreeEntry { path: path.to_string(), conflicted, content: content.map(|text| text.to_string()) }
}

fn present(content: &str) -> Sentinel {
    Sentinel::Present(content.to_string())
}

#[test]
fn without_sentinel_nothing_is_detected() {
    let entries = Some(vec![entry("a.txt", true, Some(BLOCK)), entry("b.txt", false, Some(BLOCK))]);
    let tip = Some(TIP.to_string());
    assert!(matches!(detect_merge_conflicts(&Sentinel::Absent, &entries, &tip), Ok(None)));
    assert!(matches!(detect_merge_conflicts(&Sentinel::Absent, &None, &None), Ok(None)));
}

#[test]
fn conflicted_files_with_hunks_are_collected_in_order() {
    let entries = Some(vec![
        entry("plain.txt", false, Some(BLOCK)),
        entry("a.txt", true, Some(BLOCK)),
        entry("resolved.txt", true, Some("no markers here\n")),
        entry("unreadable.bin", true, None),
        entry("b.txt", true, Some("x\n<<<<<<<\n1\n=======\n2\n>>>>>>>\n<<<<<<<\n3\n=======\n4\n>>>>>>>\n")),
    ]);
    let sentinel = present(&format!("{}\n", THEIRS));
    let found = detect_merge_conflicts(&sentinel, &entries, &Some(TIP.to_string()));
    let conflict = found.unwrap().unwrap();
    assert_eq!(conflict.files.len(), 2);
    assert_eq!(conflict.files[0].path, "a.txt");
    assert_eq!(conflict.files[0].conflicts.len(), 1);
    assert_eq!(conflict.files[0].conflicts[0].our_content, "foo");
    assert_eq!(conflict.files[1].path, "b.txt");
    assert_eq!(conflict.files[1].conflicts.len(), 2);
    assert_eq!(conflict.files[1].conflicts[1].their_content, "4");
    assert_eq!(conflict.our_commit, TIP);
    assert_eq!(conflict.their_commit, THEIRS);
}

#[test]
fn sentinel_without_any_hunk_counts_as_no_conflict() {
    let entries = Some(vec![
        entry("resolved.txt", true, Some("fine\n")),
        entry("open.txt", true, Some("<<<<<<<\nfoo\n")),
        entry("other.txt", false, Some(BLOCK)),
    ]);
    let found = detect_merge_conflicts(&present(THEIRS), &entries, &Some(TIP.to_string()));
    assert!(matches!(found, Ok(None)));
    let none = detect_merge_conflicts(&Sentinel::Unreadable, &Some(Vec::new()), &None);
    assert!(matches!(none, Ok(None)));
}

#[test]
fn failed_listing_is_a_backend_failure() {
    let found = detect_merge_conflicts(&present(THEIRS), &None, &Some(TIP.to_string()));
    assert!(matches!(found, Err(MergeError::BackendFailure)));
}

#[test]
fn unknown_tip_is_a_backend_failure() {
    let entries = Some(vec![entry("a.txt", true, Some(BLOCK))]);
    let found = detect_merge_conflicts(&present(THEIRS), &entries, &None);
    assert!(matches!(found, Err(MergeError::BackendFailure)));
}

#[test]
fn unreadable_or_malformed_sentinel_is_not_found() {
    let entries = Some(vec![entry("a.txt", true, Some(BLOCK))]);
    let tip = Some(TIP.to_string());
    for sentinel in [
        Sentinel::Unreadable,
        present(""),
        present("   \n"),
        present("not a commit"),
        present(&format!("{}0", THEIRS)),
        present(&format!("{} {}", THEIRS, THEIRS)),
    ] {
        let found = detect_merge_conflicts(&sentinel, &entries, &tip);
        assert!(matches!(found, Err(MergeError::NotFound)), "for {:?}", sentinel);
    }
}

#[test]
fn commit_identifier_is_one_to_forty_hex_digits() {
    assert!(holds_commit_id(THEIRS));
    assert!(holds_commit_id("a"));
    assert!(holds_commit_id("ABCDEF0123456789abcdef"));
    assert!(!holds_commit_id(""));
    assert!(!holds_commit_id(&format!("{}a", THEIRS)));
    assert!(!holds_commit_id("xyz"));
    assert!(!holds_commit_id("12 34"));
    assert!(!holds_commit_id("12g4"));
    assert!(!holds_commit_id("é"));
    assert!(!holds_commit_id(" abc"));
}
