use git_hydra::applier::{resolve_file_content, resolve_lines};
use git_hydra::conflict::MergeResolution;
use git_hydra::parser::parse_conflicted_file;
use git_hydra::resolution::ResolutionMap;
use git_hydra::text::{chars_of, split_into_lines, string_of};

#[test]
fn keep_both_replaces_the_block_by_both_sides() {
    let text = "<<<<<<<\nfoo\n=======\nbar\n>>>>>>>\n";
    let hunks = parse_conflicted_file(text);
    let mut chosen = ResolutionMap::new();
    chosen.insert(0, 0, MergeResolution::KeepBoth);
    assert_eq!(resolve_file_content(text, 0, &hunks, &chosen), "foo\nbar");
}

#[test]
fn keep_ours_puts_our_content_in_place_of_the_block() {
    let text = "line1\n<<<<<<< HEAD\nfoo\nfoo2\n=======\nbar\n>>>>>>> other\nline2\n";
    let hunks = parse_conflicted_file(text);
    let mut chosen = ResolutionMap::new();
    chosen.insert(0, 0, MergeResolution::KeepOurs);
    let written = resolve_file_content(text, 0, &hunks, &chosen);
    assert_eq!(written, "line1\nfoo\nfoo2\nline2");
    assert_eq!(written, format!("line1\n{}\nline2", hunks[0].our_content));
    for line in written.lines() {
        assert!(!line.starts_with("<<<<<<<"));
        assert!(!line.starts_with("======="));
        assert!(!line.starts_with(">>>>>>>"));
    }
}

#[test]
fn rewritten_file_holds_no_hunk() {
    let text = "a\n<<<<<<<\nb\n=======\nc\n>>>>>>>\nd\n<<<<<<<\ne\n|||||||\nf\n=======\ng\n>>>>>>>\n";
    let hunks = parse_conflicted_file(text);
    assert_eq!(hunks.len(), 2);
    let mut chosen = ResolutionMap::new();
    chosen.insert(3, 0, MergeResolution::KeepTheirs);
    chosen.insert(3, 1, MergeResolution::Custom("h\ni".to_string()));
    let written = resolve_file_content(text, 3, &hunks, &chosen);
    assert_eq!(written, "a\nc\nd\nh\ni");
    assert_eq!(parse_conflicted_file(&written).len(), 0);
}

#[test]
fn hunk_without_resolution_stays_as_it_is() {
    let text = "<<<<<<<\na\n=======\nb\n>>>>>>>\nmid\n<<<<<<< x\nc\n=======\nd\n>>>>>>> y\n";
    let hunks = parse_conflicted_file(text);
    let mut chosen = ResolutionMap::new();
    chosen.insert(0, 1, MergeResolution::KeepTheirs);
    let written = resolve_file_content(text, 0, &hunks, &chosen);
    assert_eq!(written, "<<<<<<<\na\n=======\nb\n>>>>>>>\nmid\nd");
    let left = parse_conflicted_file(&written);
    assert_eq!(left.len(), 1);
    assert_eq!(left[0].our_content, "a");
}

#[test]
fn no_resolution_at_all_keeps_every_line() {
    let text = "x\n<<<<<<<\na\n=======\nb\n>>>>>>>\ny";
    let hunks = parse_conflicted_file(text);
    let written = resolve_file_content(text, 0, &hunks, &ResolutionMap::new());
    assert_eq!(written, text);
}

#[test]
fn resolutions_of_another_file_do_not_count() {
    let text = "<<<<<<<\na\n=======\nb\n>>>>>>>";
    let hunks = parse_conflicted_file(text);
    let mut chosen = ResolutionMap::new();
    chosen.insert(1, 0, MergeResolution::KeepOurs);
    assert_eq!(resolve_file_content(text, 0, &hunks, &chosen), text);
    assert_eq!(resolve_file_content(text, 1, &hunks, &chosen), "a");
}

#[test]
fn unclosed_block_at_the_end_is_kept() {
    let text = "<<<<<<<\na\n=======\nb\n>>>>>>>\n<<<<<<<\nc\n=======\nd\n";
    let hunks = parse_conflicted_file(text);
    let mut chosen = ResolutionMap::new();
    chosen.insert(0, 0, MergeResolution::KeepOurs);
    chosen.insert(0, 1, MergeResolution::KeepOurs);
    let written = resolve_file_content(text, 0, &hunks, &chosen);
    assert_eq!(written, "a\n<<<<<<<\nc\n=======\nd");
    assert_eq!(parse_conflicted_file(&written).len(), 0);
}

#[test]
fn empty_resolved_text_leaves_no_line() {
    let text = "x\n<<<<<<<\n=======\nb\n>>>>>>>\ny\n";
    let hunks = parse_conflicted_file(text);
    let mut chosen = ResolutionMap::new();
    chosen.insert(0, 0, MergeResolution::KeepOurs);
    assert_eq!(resolve_file_content(text, 0, &hunks, &chosen), "x\ny");
}

#[test]
fn custom_text_is_written_line_by_line() {
    let text = "<<<<<<<\na\n=======\nb\n>>>>>>>\nz";
    let hunks = parse_conflicted_file(text);
    let mut chosen = ResolutionMap::new();
    chosen.insert(0, 0, MergeResolution::Custom("one\r\ntwo\n".to_string()));
    assert_eq!(resolve_file_content(text, 0, &hunks, &chosen), "one\ntwo\nz");
}

#[test]
fn resolution_uses_the_hunk_that_was_recorded() {
    let recorded = parse_conflicted_file("<<<<<<<\nold ours\n=======\nold theirs\n>>>>>>>");
    let now = "<<<<<<<\nnew ours\n=======\nnew theirs\n>>>>>>>\ntail";
    let mut chosen = ResolutionMap::new();
    chosen.insert(0, 0, MergeResolution::KeepTheirs);
    assert_eq!(resolve_file_content(now, 0, &recorded, &chosen), "old theirs\ntail");
}

#[test]
fn more_blocks_than_recorded_hunks_are_kept() {
    let recorded = parse_conflicted_file("<<<<<<<\na\n=======\nb\n>>>>>>>");
    let now = "<<<<<<<\na\n=======\nb\n>>>>>>>\n<<<<<<<\nc\n=======\nd\n>>>>>>>";
    let mut chosen = ResolutionMap::new();
    chosen.insert(0, 0, MergeResolution::KeepOurs);
    chosen.insert(0, 1, MergeResolution::KeepOurs);
    assert_eq!(
        resolve_file_content(now, 0, &recorded, &chosen),
        "a\n<<<<<<<\nc\n=======\nd\n>>>>>>>"
    );
}

#[test]
fn resolve_lines_gives_the_lines_that_are_joined() {
    let text = "x\n<<<<<<<\na\n=======\nb\n>>>>>>>\ny";
    let hunks = parse_conflicted_file(text);
    let mut chosen = ResolutionMap::new();
    chosen.insert(0, 0, MergeResolution::KeepBoth);
    let lines = split_into_lines(&chars_of(text));
    let written: Vec<String> =
        resolve_lines(&lines, 0, &hunks, &chosen).iter().map(string_of).collect();
    assert_eq!(written, vec!["x", "a", "b", "y"]);
}
