//! A small file worked through by hand: one block, parsed and resolved.

use vstd::prelude::*;
use crate::applier::{block_replacement, resolved_content, resolved_lines, resolved_lines_from};
use crate::conflict::{resolved_text, HunkView, ResolutionView};
use crate::parser::{
    block_end, block_hunk, block_ours_end, block_separator, conflict_hunks, has_marker,
    hunks_from, marked, marked_either, parse_hunks, BASE_MARK, END_MARK, SEPARATOR_MARK,
    START_MARK,
};
use crate::text::{
    first_match, join_lines, lemma_first_match_at, lines_from, next_line_feed, split_lines,
    strip_carriage_return,
};

verus! {

/// The text of the worked file.
pub open spec fn simple_text() -> Seq<char> {
    "<<<<<<<\nfoo\n=======\nbar\n>>>>>>>\n"@
}

/// The lines of the worked file.
pub open spec fn simple_lines() -> Seq<Seq<char>> {
    seq!["<<<<<<<"@, "foo"@, "======="@, "bar"@, ">>>>>>>"@]
}

/// The one hunk of the worked file.
pub open spec fn simple_hunk() -> HunkView {
    HunkView { start_line: 0, end_line: 4, ours: "foo"@, theirs: "bar"@, base: None }
}

/// One line of a text: from `from` to the line feed at `stop`.
proof fn lemma_line(text: Seq<char>, from: int, stop: int)
    requires
        0 <= from <= stop < text.len(),
        text[stop] == '\n',
        forall|k: int| from <= k < stop ==> text[k] != '\n',
    ensures
        lines_from(text, from) == seq![strip_carriage_return(text.subrange(from, stop))]
            + lines_from(text, stop + 1),
{
    let wanted = |c: char| c == '\n';
    assert forall|k: int| from <= k < stop implies !#[trigger] wanted(text[k]) by {}
    lemma_first_match_at(text, from, stop, wanted);
}

/// The worked file has the five lines of its block.
pub proof fn lemma_simple_lines()
    ensures
        split_lines(simple_text()) == simple_lines(),
{
    reveal_strlit("<<<<<<<\nfoo\n=======\nbar\n>>>>>>>\n");
    reveal_strlit("<<<<<<<");
    reveal_strlit("foo");
    reveal_strlit("=======");
    reveal_strlit("bar");
    reveal_strlit(">>>>>>>");
    let text = simple_text();
    lemma_line(text, 0, 7);
    lemma_line(text, 8, 11);
    lemma_line(text, 12, 19);
    lemma_line(text, 20, 23);
    lemma_line(text, 24, 31);
    assert(text.subrange(0, 7) == "<<<<<<<"@);
    assert(text.subrange(8, 11) == "foo"@);
    assert(text.subrange(12, 19) == "======="@);
    assert(text.subrange(20, 23) == "bar"@);
    assert(text.subrange(24, 31) == ">>>>>>>"@);
    assert(lines_from(text, 32) == Seq::<Seq<char>>::empty());
    assert(split_lines(text) == simple_lines());
}

/// The worked file parses to its one hunk, whose block ends at the fifth
/// line.
pub proof fn lemma_simple_hunks()
    ensures
        conflict_hunks(simple_text()) == seq![simple_hunk()],
        block_end(simple_lines(), 0) == 4,
{
    lemma_simple_lines();
    reveal_strlit("<<<<<<<");
    reveal_strlit("foo");
    reveal_strlit("=======");
    reveal_strlit("bar");
    reveal_strlit(">>>>>>>");
    let lines = simple_lines();
    assert(has_marker(lines[0], START_MARK));
    assert(!has_marker(lines[1], SEPARATOR_MARK) && !has_marker(lines[1], BASE_MARK));
    assert(has_marker(lines[2], SEPARATOR_MARK));
    assert(!has_marker(lines[3], END_MARK));
    assert(has_marker(lines[4], END_MARK));
    let either = marked_either(SEPARATOR_MARK, BASE_MARK);
    assert(!either(lines[1]));
    assert(either(lines[2]));
    lemma_first_match_at(lines, 1, 2, either);
    assert(!marked(SEPARATOR_MARK)(lines[1]));
    lemma_first_match_at(lines, 1, 2, marked(SEPARATOR_MARK));
    assert(!marked(END_MARK)(lines[3]));
    lemma_first_match_at(lines, 3, 4, marked(END_MARK));
    assert(block_ours_end(lines, 0) == 2);
    assert(block_separator(lines, 0) == 2);
    assert(block_end(lines, 0) == 4);
    assert(lines.subrange(1, 2) == seq!["foo"@]);
    assert(lines.subrange(3, 4) == seq!["bar"@]);
    assert(join_lines(seq!["foo"@]) == "foo"@);
    assert(join_lines(seq!["bar"@]) == "bar"@);
    assert(block_hunk(lines, 0) == simple_hunk());
    assert(hunks_from(lines, 5) == Seq::<HunkView>::empty());
    assert(parse_hunks(lines) == seq![simple_hunk()] + hunks_from(lines, 5));
}

/// Keeping both sides of the hunk of the worked file writes `foo` and
/// `bar` on two lines, and no marker.
pub proof fn lemma_simple_keep_both(file_index: int, resolutions: Map<(int, int), ResolutionView>)
    requires
        resolutions.contains_key((file_index, 0)),
        resolutions[(file_index, 0)] == ResolutionView::KeepBoth,
    ensures
        resolved_content(simple_text(), seq![simple_hunk()], file_index, resolutions)
            == "foo\nbar"@,
{
    lemma_simple_lines();
    lemma_simple_hunks();
    reveal_strlit("<<<<<<<");
    reveal_strlit("foo");
    reveal_strlit("bar");
    reveal_strlit("foo\nbar");
    let lines = simple_lines();
    let hunks = seq![simple_hunk()];
    let both = resolved_text(simple_hunk(), ResolutionView::KeepBoth);
    assert(both == "foo\nbar"@);
    lemma_line(both, 0, 3);
    assert(both.subrange(0, 3) == "foo"@);
    assert(next_line_feed(both, 4) == 7) by {
        reveal_with_fuel(first_match, 4);
    }
    assert(both.subrange(4, 7) == "bar"@);
    assert(lines_from(both, 4) == seq!["bar"@]);
    assert(split_lines(both) == seq!["foo"@, "bar"@]);
    assert(has_marker(lines[0], START_MARK));
    assert(block_replacement(lines, 0, 4, 0, hunks, file_index, resolutions) == seq![
        "foo"@,
        "bar"@,
    ]);
    assert(resolved_lines_from(lines, 5, 1, hunks, file_index, resolutions) == Seq::<
        Seq<char>,
    >::empty());
    assert(resolved_lines(lines, hunks, file_index, resolutions) == seq!["foo"@, "bar"@]);
    let written = seq!["foo"@, "bar"@];
    assert(written.drop_last() == seq!["foo"@]);
    assert(join_lines(written.drop_last()) == "foo"@);
    assert(join_lines(written) == "foo"@ + seq!['\n'] + "bar"@);
    assert(join_lines(written) == "foo\nbar"@);
}

} // verus!
