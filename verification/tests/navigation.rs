use git_hydra::conflict::{ConflictHunk, ConflictedFile};
use git_hydra::navigation::{file_next, hunk_down, hunk_up, Cursor};

fn file(path: &str, hunks: usize) -> ConflictedFile {
    let mut conflicts = Vec::new();
    for number in 0..hunks {
        conflicts.push(ConflictHunk {
            start_line: number * 10,
            end_line: number * 10 + 4,
            our_content: String::new(),
            their_content: String::new(),
            base_content: None,
        });
    }
    ConflictedFile { path: path.to_string(), conflicts }
}

fn at(file: usize, hunk: usize) -> Cursor {
    Cursor { file, hunk }
}

#[test]
fn hunk_down_stops_at_the_last_hunk_of_the_last_file() {
    let files = vec![file("a", 2), file("b", 3)];
    assert_eq!(hunk_down(&files, at(1, 2)), at(1, 2));
}

#[test]
fn hunk_up_stops_at_the_first_hunk_of_the_first_file() {
    let files = vec![file("a", 2), file("b", 3)];
    assert_eq!(hunk_up(&files, at(0, 0)), at(0, 0));
}

#[test]
fn hunk_down_walks_through_hunks_and_then_files() {
    let files = vec![file("a", 2), file("b", 1), file("c", 2)];
    let mut cursor = Cursor::first();
    let mut seen = vec![cursor];
    for _ in 0..6 {
        cursor = hunk_down(&files, cursor);
        seen.push(cursor);
    }
    assert_eq!(seen, vec![at(0, 0), at(0, 1), at(1, 0), at(2, 0), at(2, 1), at(2, 1), at(2, 1)]);
}

#[test]
fn hunk_up_walks_back_to_the_last_hunk_of_the_file_before() {
    let files = vec![file("a", 2), file("b", 1), file("c", 2)];
    let mut cursor = at(2, 1);
    let mut seen = vec![cursor];
    for _ in 0..5 {
        cursor = hunk_up(&files, cursor);
        seen.push(cursor);
    }
    assert_eq!(seen, vec![at(2, 1), at(2, 0), at(1, 0), at(0, 1), at(0, 0), at(0, 0)]);
}

#[test]
fn file_next_jumps_to_the_first_hunk_of_the_next_file() {
    let files = vec![file("a", 3), file("b", 2)];
    assert_eq!(file_next(&files, at(0, 2)), at(1, 0));
    assert_eq!(file_next(&files, at(1, 1)), at(1, 1));
    assert_eq!(file_next(&Vec::new(), at(0, 0)), at(0, 0));
}

#[test]
fn cursor_outside_the_files_does_not_move_down() {
    let files = vec![file("a", 1)];
    assert_eq!(hunk_down(&files, at(5, 0)), at(5, 0));
    assert_eq!(hunk_down(&Vec::new(), at(0, 0)), at(0, 0));
    assert_eq!(hunk_up(&Vec::new(), at(0, 3)), at(0, 2));
    assert_eq!(hunk_up(&Vec::new(), at(2, 0)), at(1, 0));
}

#[test]
fn cursor_knows_whether_it_is_on_a_hunk() {
    let files = vec![file("a", 2), file("b", 1)];
    assert!(at(0, 1).is_within(&files));
    assert!(at(1, 0).is_within(&files));
    assert!(!at(1, 1).is_within(&files));
    assert!(!at(2, 0).is_within(&files));
    assert!(!Cursor::first().is_within(&Vec::new()));
}
