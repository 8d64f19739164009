//! What a rewritten file reads back as: a resolved block gives way to the
//! lines of its resolution, every other line stays, and a file whose blocks
//! are all resolved holds no hunk any more.

use vstd::prelude::*;
use crate::applier::{block_replacement, resolved_content, resolved_lines, resolved_lines_from};
use crate::conflict::{resolved_text, HunkView, ResolutionView};
use crate::detector::{entry_file, EntryView};
use crate::parser::{
    block_end, block_hunk, block_separator, conflict_hunks, has_marker, hunks_from,
    lemma_block_bounds, lemma_hunks_from_ordered, marked, parse_hunks, BASE_MARK, END_MARK,
    SEPARATOR_MARK, START_MARK,
};
use crate::text::{
    first_match, is_single_line, join_lines, lemma_first_match_extended, lemma_first_match_shift,
    lemma_lines_are_single, lemma_split_joined_lines, reread_lines, split_lines,
    strip_carriage_return,
};

verus! {

/// The line begins with one of the four markers.
pub open spec fn is_marker_line(line: Seq<char>) -> bool {
    has_marker(line, START_MARK) || has_marker(line, BASE_MARK) || has_marker(line, SEPARATOR_MARK)
        || has_marker(line, END_MARK)
}

/// No line begins with the start marker.
pub open spec fn no_start_line(lines: Seq<Seq<char>>) -> bool {
    forall|i: int| 0 <= i < lines.len() ==> !#[trigger] has_marker(lines[i], START_MARK)
}

/// No line begins with a marker.
pub open spec fn no_marker_line(lines: Seq<Seq<char>>) -> bool {
    forall|i: int| 0 <= i < lines.len() ==> !#[trigger] is_marker_line(lines[i])
}

/// No hunk of the file with a number from `counter` on has a resolution.
pub open spec fn none_resolved_from(
    hunks: Seq<HunkView>,
    file_index: int,
    resolutions: Map<(int, int), ResolutionView>,
    counter: int,
) -> bool {
    forall|j: int| counter <= j < hunks.len() ==> !#[trigger] resolutions.contains_key((file_index, j))
}

/// A line begins with a marker just when it does so without the carriage
/// return at its end.
pub proof fn lemma_strip_keeps_marker(line: Seq<char>, mark: char)
    requires
        mark != '\r',
    ensures
        has_marker(strip_carriage_return(line), mark) == has_marker(line, mark),
{
    let stripped = strip_carriage_return(line);
    if has_marker(line, mark) {
        if line.len() == 7 {
            assert(line[6] == mark);
        }
        assert forall|i: int| 0 <= i < 7 implies stripped[i] == mark by {
            assert(line[i] == mark);
        }
    }
    if has_marker(stripped, mark) {
        assert forall|i: int| 0 <= i < 7 implies line[i] == mark by {
            assert(stripped[i] == mark);
        }
    }
}

/// Where no hunk from `counter` on has a resolution, the rest of the file is
/// written as it is.
pub proof fn lemma_unresolved_rest_is_kept(
    lines: Seq<Seq<char>>,
    from: int,
    counter: int,
    hunks: Seq<HunkView>,
    file_index: int,
    resolutions: Map<(int, int), ResolutionView>,
)
    requires
        0 <= from <= lines.len(),
        0 <= counter,
        none_resolved_from(hunks, file_index, resolutions, counter),
    ensures
        resolved_lines_from(lines, from, counter, hunks, file_index, resolutions) == lines.skip(from),
    decreases lines.len() - from,
{
    if from < lines.len() {
        if !has_marker(lines[from], START_MARK) {
            lemma_unresolved_rest_is_kept(lines, from + 1, counter, hunks, file_index, resolutions);
            assert(lines.skip(from) == seq![lines[from]] + lines.skip(from + 1));
        } else {
            lemma_block_bounds(lines, from);
            let end = block_end(lines, from);
            if end < lines.len() {
                lemma_unresolved_rest_is_kept(
                    lines,
                    end + 1,
                    counter + 1,
                    hunks,
                    file_index,
                    resolutions,
                );
                if counter < hunks.len() {
                    assert(!resolutions.contains_key((file_index, counter)));
                }
                assert(lines.skip(from) == lines.subrange(from, end + 1) + lines.skip(end + 1));
            } else {
                assert(lines.skip(from) == lines.subrange(from, lines.len() as int));
            }
        }
    }
}

/// Where no hunk has a resolution, the file is written with the lines it
/// has.
pub proof fn lemma_nothing_chosen_nothing_changed(
    text: Seq<char>,
    hunks: Seq<HunkView>,
    file_index: int,
    resolutions: Map<(int, int), ResolutionView>,
)
    requires
        none_resolved_from(hunks, file_index, resolutions, 0),
    ensures
        resolved_lines(split_lines(text), hunks, file_index, resolutions) == split_lines(text),
        resolved_content(text, hunks, file_index, resolutions) == join_lines(split_lines(text)),
{
    lemma_unresolved_rest_is_kept(split_lines(text), 0, 0, hunks, file_index, resolutions);
    assert(split_lines(text).skip(0) == split_lines(text));
}

/// Where one hunk alone has a resolution, the file is written as it is but
/// for the block of that hunk, in place of which stand the lines of the
/// resolved text.
pub proof fn lemma_one_block_replaced(
    lines: Seq<Seq<char>>,
    from: int,
    counter: int,
    hunks: Seq<HunkView>,
    file_index: int,
    resolutions: Map<(int, int), ResolutionView>,
    chosen: int,
)
    requires
        0 <= from <= lines.len(),
        0 <= counter <= chosen < hunks.len(),
        chosen - counter < hunks_from(lines, from).len(),
        resolutions.contains_key((file_index, chosen)),
        forall|j: int| j != chosen ==> !#[trigger] resolutions.contains_key((file_index, j)),
    ensures
        ({
            let block = hunks_from(lines, from)[chosen - counter];
            resolved_lines_from(lines, from, counter, hunks, file_index, resolutions)
                == lines.subrange(from, block.start_line as int) + split_lines(
                resolved_text(hunks[chosen], resolutions[(file_index, chosen)]),
            ) + lines.skip(block.end_line as int + 1)
        }),
    decreases lines.len() - from,
{
    lemma_hunks_from_ordered(lines, from);
    let block = hunks_from(lines, from)[chosen - counter];
    let piece = split_lines(resolved_text(hunks[chosen], resolutions[(file_index, chosen)]));
    let written = resolved_lines_from(lines, from, counter, hunks, file_index, resolutions);
    if !has_marker(lines[from], START_MARK) {
        lemma_hunks_from_ordered(lines, from + 1);
        lemma_one_block_replaced(lines, from + 1, counter, hunks, file_index, resolutions, chosen);
        assert(lines.subrange(from, block.start_line as int) == seq![lines[from]] + lines.subrange(
            from + 1,
            block.start_line as int,
        ));
        assert(written == lines.subrange(from, block.start_line as int) + piece + lines.skip(
            block.end_line as int + 1,
        ));
    } else {
        lemma_block_bounds(lines, from);
        let end = block_end(lines, from);
        let rest = hunks_from(lines, end + 1);
        assert(hunks_from(lines, from) == seq![block_hunk(lines, from)] + rest);
        if counter == chosen {
            assert(block == block_hunk(lines, from));
            assert(none_resolved_from(hunks, file_index, resolutions, chosen + 1));
            lemma_unresolved_rest_is_kept(
                lines,
                end + 1,
                chosen + 1,
                hunks,
                file_index,
                resolutions,
            );
            assert(lines.subrange(from, from) == Seq::<Seq<char>>::empty());
            assert(written == lines.subrange(from, block.start_line as int) + piece + lines.skip(
                block.end_line as int + 1,
            ));
        } else {
            assert(block == rest[chosen - (counter + 1)]);
            lemma_hunks_from_ordered(lines, end + 1);
            lemma_one_block_replaced(
                lines,
                end + 1,
                counter + 1,
                hunks,
                file_index,
                resolutions,
                chosen,
            );
            assert(!resolutions.contains_key((file_index, counter)));
            assert(lines.subrange(from, block.start_line as int) == lines.subrange(from, end + 1)
                + lines.subrange(end + 1, block.start_line as int));
            assert(written == lines.subrange(from, block.start_line as int) + piece + lines.skip(
                block.end_line as int + 1,
            ));
        }
    }
}

/// Keeping our side of one hunk, and nothing else, writes the file with the
/// lines of that hunk's `ours` in place of its block and every other line
/// as it was; and the written text reads back as those lines do.
pub proof fn lemma_keep_ours_replaces_block(
    text: Seq<char>,
    file_index: int,
    resolutions: Map<(int, int), ResolutionView>,
    chosen: int,
)
    requires
        0 <= chosen < conflict_hunks(text).len(),
        resolutions.contains_key((file_index, chosen)),
        resolutions[(file_index, chosen)] == ResolutionView::KeepOurs,
        forall|j: int| j != chosen ==> !#[trigger] resolutions.contains_key((file_index, j)),
    ensures
        ({
            let lines = split_lines(text);
            let hunk = conflict_hunks(text)[chosen];
            let written = lines.take(hunk.start_line as int) + split_lines(hunk.ours) + lines.skip(
                hunk.end_line as int + 1,
            );
            let content = resolved_content(text, conflict_hunks(text), file_index, resolutions);
            &&& hunk.start_line < hunk.end_line < lines.len()
            &&& content == join_lines(written)
            &&& split_lines(content) == reread_lines(written)
        }),
{
    let lines = split_lines(text);
    let hunks = conflict_hunks(text);
    let hunk = hunks[chosen];
    let written = lines.take(hunk.start_line as int) + split_lines(hunk.ours) + lines.skip(
        hunk.end_line as int + 1,
    );
    lemma_hunks_from_ordered(lines, 0);
    lemma_one_block_replaced(lines, 0, 0, hunks, file_index, resolutions, chosen);
    assert(lines.subrange(0, hunk.start_line as int) == lines.take(hunk.start_line as int));
    assert(resolved_lines(lines, hunks, file_index, resolutions) == written);
    lemma_lines_are_single(text, 0);
    lemma_lines_are_single(hunk.ours, 0);
    assert forall|i: int| 0 <= i < written.len() implies is_single_line(#[trigger] written[i]) by {
        let before = lines.take(hunk.start_line as int);
        let piece = split_lines(hunk.ours);
        if i < before.len() {
            assert(written[i] == lines[i]);
        } else if i < before.len() + piece.len() {
            assert(written[i] == piece[i - before.len()]);
        } else {
            assert(written[i] == lines[i - before.len() - piece.len() + hunk.end_line as int + 1]);
        }
    }
    lemma_split_joined_lines(written);
}

/// Lines without a marker read back without one.
pub proof fn lemma_reread_keeps_no_marker(lines: Seq<Seq<char>>)
    requires
        no_marker_line(lines),
    ensures
        no_marker_line(reread_lines(lines)),
{
    let reread = reread_lines(lines);
    assert forall|i: int| 0 <= i < reread.len() implies !#[trigger] is_marker_line(reread[i]) by {
        assert(!is_marker_line(lines[i]));
        if i < lines.len() - 1 {
            assert(reread[i] == strip_carriage_return(lines[i]));
            lemma_strip_keeps_marker(lines[i], START_MARK);
            lemma_strip_keeps_marker(lines[i], BASE_MARK);
            lemma_strip_keeps_marker(lines[i], SEPARATOR_MARK);
            lemma_strip_keeps_marker(lines[i], END_MARK);
        } else {
            assert(reread[i] == lines[i]);
        }
    }
}

/// Keeping our side of one hunk, in a file that holds no marker outside
/// the block of that hunk and none among the lines of its `ours`, writes a
/// text that reads back without any marker line.
pub proof fn lemma_keep_ours_leaves_no_marker(
    text: Seq<char>,
    file_index: int,
    resolutions: Map<(int, int), ResolutionView>,
    chosen: int,
)
    requires
        0 <= chosen < conflict_hunks(text).len(),
        resolutions.contains_key((file_index, chosen)),
        resolutions[(file_index, chosen)] == ResolutionView::KeepOurs,
        forall|j: int| j != chosen ==> !#[trigger] resolutions.contains_key((file_index, j)),
        forall|i: int|
            0 <= i < split_lines(text).len() && !(conflict_hunks(text)[chosen].start_line <= i
                <= conflict_hunks(text)[chosen].end_line) ==> !#[trigger] is_marker_line(
                split_lines(text)[i],
            ),
        no_marker_line(split_lines(conflict_hunks(text)[chosen].ours)),
    ensures
        no_marker_line(
            split_lines(resolved_content(text, conflict_hunks(text), file_index, resolutions)),
        ),
{
    let lines = split_lines(text);
    let hunk = conflict_hunks(text)[chosen];
    let before = lines.take(hunk.start_line as int);
    let piece = split_lines(hunk.ours);
    let written = before + piece + lines.skip(hunk.end_line as int + 1);
    lemma_keep_ours_replaces_block(text, file_index, resolutions, chosen);
    assert forall|i: int| 0 <= i < written.len() implies !#[trigger] is_marker_line(written[i]) by {
        if i < before.len() {
            assert(written[i] == lines[i]);
            assert(!is_marker_line(lines[i]));
        } else if i < before.len() + piece.len() {
            assert(written[i] == piece[i - before.len()]);
            assert(!is_marker_line(piece[i - before.len()]));
        } else {
            let at = i - before.len() - piece.len() + hunk.end_line + 1;
            assert(written[i] == lines[at]);
            assert(!is_marker_line(lines[at]));
        }
    }
    lemma_reread_keeps_no_marker(written);
}

/// The end of a block is found alike when the lines before index `dropped`
/// are left out.
pub proof fn lemma_block_end_shift(lines: Seq<Seq<char>>, start: int, dropped: int)
    requires
        0 <= dropped <= start < lines.len(),
    ensures
        block_end(lines.skip(dropped), start - dropped) == block_end(lines, start) - dropped,
{
    lemma_first_match_shift(lines, start + 1, dropped, marked(SEPARATOR_MARK));
    let separator = block_separator(lines, start);
    lemma_block_bounds(lines, start);
    lemma_first_match_shift(lines, separator + 1, dropped, marked(END_MARK));
}

/// A scan finds the same hunks from any line that no start marker lies
/// before.
pub proof fn lemma_hunks_skip_plain(lines: Seq<Seq<char>>, from: int, later: int)
    requires
        0 <= from <= later <= lines.len(),
        forall|k: int| from <= k < later ==> !#[trigger] has_marker(lines[k], START_MARK),
    ensures
        hunks_from(lines, from) == hunks_from(lines, later),
    decreases later - from,
{
    if from < later {
        assert(!has_marker(lines[from], START_MARK));
        lemma_hunks_skip_plain(lines, from + 1, later);
    }
}

/// The hunk with number `counter` has a resolution, and no line of the
/// resolved text begins with the start marker.
pub open spec fn resolved_without_start(
    hunks: Seq<HunkView>,
    file_index: int,
    resolutions: Map<(int, int), ResolutionView>,
    counter: int,
) -> bool {
    &&& 0 <= counter < hunks.len()
    &&& resolutions.contains_key((file_index, counter))
    &&& no_start_line(split_lines(resolved_text(hunks[counter], resolutions[(file_index, counter)])))
}

/// Lines without start marker, followed by what is written for the rest of
/// a file whose closed blocks are all resolved to text without start
/// marker, hold no hunk.
proof fn lemma_written_has_no_hunks(
    lines: Seq<Seq<char>>,
    from: int,
    counter: int,
    hunks: Seq<HunkView>,
    file_index: int,
    resolutions: Map<(int, int), ResolutionView>,
    before: Seq<Seq<char>>,
)
    requires
        0 <= from <= lines.len(),
        0 <= counter,
        no_start_line(before),
        forall|j: int|
            counter <= j < counter + hunks_from(lines, from).len() ==> #[trigger] resolved_without_start(
                hunks,
                file_index,
                resolutions,
                j,
            ),
    ensures
        parse_hunks(
            before + resolved_lines_from(lines, from, counter, hunks, file_index, resolutions),
        ).len() == 0,
    decreases lines.len() - from,
{
    let written = resolved_lines_from(lines, from, counter, hunks, file_index, resolutions);
    let all = before + written;
    if from == lines.len() {
        assert(all == before);
        lemma_hunks_skip_plain(before, 0, before.len() as int);
    } else if !has_marker(lines[from], START_MARK) {
        let longer = before + seq![lines[from]];
        assert(no_start_line(longer)) by {
            assert forall|i: int| 0 <= i < longer.len() implies !#[trigger] has_marker(
                longer[i],
                START_MARK,
            ) by {
                if i < before.len() {
                    assert(longer[i] == before[i]);
                    assert(!has_marker(before[i], START_MARK));
                }
            }
        }
        lemma_written_has_no_hunks(
            lines,
            from + 1,
            counter,
            hunks,
            file_index,
            resolutions,
            longer,
        );
        assert(all == longer + resolved_lines_from(
            lines,
            from + 1,
            counter,
            hunks,
            file_index,
            resolutions,
        ));
    } else {
        lemma_block_bounds(lines, from);
        let end = block_end(lines, from);
        if end < lines.len() {
            let rest = hunks_from(lines, end + 1);
            assert(hunks_from(lines, from) == seq![block_hunk(lines, from)] + rest);
            assert(resolved_without_start(hunks, file_index, resolutions, counter));
            let piece = block_replacement(
                lines,
                from,
                end,
                counter,
                hunks,
                file_index,
                resolutions,
            );
            let longer = before + piece;
            assert(no_start_line(longer)) by {
                assert forall|i: int| 0 <= i < longer.len() implies !#[trigger] has_marker(
                    longer[i],
                    START_MARK,
                ) by {
                    if i < before.len() {
                        assert(longer[i] == before[i]);
                        assert(!has_marker(before[i], START_MARK));
                    } else {
                        assert(longer[i] == piece[i - before.len()]);
                        assert(!has_marker(piece[i - before.len()], START_MARK));
                    }
                }
            }
            assert forall|j: int| counter + 1 <= j < counter + 1 + rest.len() implies #[trigger] resolved_without_start(
                hunks,
                file_index,
                resolutions,
                j,
            ) by {}
            lemma_written_has_no_hunks(
                lines,
                end + 1,
                counter + 1,
                hunks,
                file_index,
                resolutions,
                longer,
            );
            assert(all == longer + resolved_lines_from(
                lines,
                end + 1,
                counter + 1,
                hunks,
                file_index,
                resolutions,
            ));
        } else {
            let tail = lines.skip(from);
            assert(written == tail);
            let opened = before.len() as int;
            assert(all.skip(opened) == tail);
            assert(all[opened] == lines[from]);
            lemma_block_end_shift(lines, from, from);
            lemma_block_end_shift(all, opened, opened);
            assert(block_end(all, opened) == all.len());
            assert forall|k: int| 0 <= k < opened implies !#[trigger] has_marker(
                all[k],
                START_MARK,
            ) by {
                assert(all[k] == before[k]);
                assert(!has_marker(before[k], START_MARK));
            }
            lemma_hunks_skip_plain(all, 0, opened);
        }
    }
}

/// The two sequences of lines have a marker at the same lines.
pub open spec fn same_markers(first: Seq<Seq<char>>, second: Seq<Seq<char>>) -> bool {
    &&& first.len() == second.len()
    &&& forall|i: int, mark: char|
        0 <= i < first.len() && mark != '\r' ==> #[trigger] has_marker(first[i], mark)
            == has_marker(second[i], mark)
}

/// A scan for a marker stops at the same line in both of two sequences
/// that have their markers at the same lines.
pub proof fn lemma_first_match_same_markers(
    first: Seq<Seq<char>>,
    second: Seq<Seq<char>>,
    from: int,
    mark: char,
)
    requires
        same_markers(first, second),
        mark != '\r',
    ensures
        first_match(first, from, marked(mark)) == first_match(second, from, marked(mark)),
    decreases first.len() - from,
{
    if 0 <= from < first.len() {
        assert(has_marker(first[from], mark) == has_marker(second[from], mark));
        if !has_marker(first[from], mark) {
            lemma_first_match_same_markers(first, second, from + 1, mark);
        }
    }
}

/// Two sequences of lines that have their markers at the same lines hold
/// as many hunks.
pub proof fn lemma_same_markers_same_count(
    first: Seq<Seq<char>>,
    second: Seq<Seq<char>>,
    from: int,
)
    requires
        same_markers(first, second),
        0 <= from,
    ensures
        hunks_from(first, from).len() == hunks_from(second, from).len(),
    decreases first.len() - from,
{
    if from < first.len() {
        assert(has_marker(first[from], START_MARK) == has_marker(second[from], START_MARK));
        if !has_marker(first[from], START_MARK) {
            lemma_same_markers_same_count(first, second, from + 1);
        } else {
            lemma_block_bounds(first, from);
            lemma_first_match_same_markers(first, second, from + 1, SEPARATOR_MARK);
            let separator = block_separator(first, from);
            lemma_first_match_same_markers(first, second, separator + 1, END_MARK);
            let end = block_end(first, from);
            if end < first.len() {
                lemma_same_markers_same_count(first, second, end + 1);
            }
        }
    }
}

/// Lines that hold no hunk hold none when some of them are cut off the end.
pub proof fn lemma_shorter_has_no_hunks(lines: Seq<Seq<char>>, more: Seq<Seq<char>>, from: int)
    requires
        0 <= from,
        hunks_from(lines + more, from).len() == 0,
    ensures
        hunks_from(lines, from).len() == 0,
    decreases lines.len() - from,
{
    let longer = lines + more;
    if from < lines.len() {
        assert(longer[from] == lines[from]);
        if !has_marker(lines[from], START_MARK) {
            lemma_shorter_has_no_hunks(lines, more, from + 1);
        } else {
            lemma_block_bounds(lines, from);
            lemma_block_bounds(longer, from);
            let separator = block_separator(lines, from);
            let end = block_end(lines, from);
            if end < lines.len() {
                lemma_first_match_extended(lines, more, from + 1, marked(SEPARATOR_MARK));
                lemma_first_match_extended(lines, more, separator + 1, marked(END_MARK));
                assert(block_end(longer, from) == end);
                assert(hunks_from(longer, from).len() > 0);
            }
        }
    }
}

/// Lines that hold no hunk read back as lines that hold none.
pub proof fn lemma_reread_has_no_hunks(lines: Seq<Seq<char>>)
    requires
        parse_hunks(lines).len() == 0,
    ensures
        parse_hunks(reread_lines(lines)).len() == 0,
{
    if lines.len() > 0 {
        let reread = reread_lines(lines);
        let kept = if lines.last().len() == 0 {
            lines.drop_last()
        } else {
            lines
        };
        if lines.last().len() == 0 {
            assert(lines == kept + seq![lines.last()]);
            lemma_shorter_has_no_hunks(kept, seq![lines.last()], 0);
        }
        assert(same_markers(kept, reread)) by {
            assert forall|i: int, mark: char| 0 <= i < kept.len() && mark != '\r' implies #[trigger] has_marker(
                kept[i],
                mark,
            ) == has_marker(reread[i], mark) by {
                if i < lines.len() - 1 {
                    assert(reread[i] == strip_carriage_return(lines[i]));
                    lemma_strip_keeps_marker(lines[i], mark);
                }
            }
        }
        lemma_same_markers_same_count(kept, reread, 0);
    }
}

/// What is written for a file holds no line feed within a line, where the
/// lines of the file hold none.
pub proof fn lemma_written_lines_are_single(
    lines: Seq<Seq<char>>,
    from: int,
    counter: int,
    hunks: Seq<HunkView>,
    file_index: int,
    resolutions: Map<(int, int), ResolutionView>,
)
    requires
        0 <= from,
        forall|i: int| 0 <= i < lines.len() ==> is_single_line(#[trigger] lines[i]),
    ensures
        forall|i: int|
            0 <= i < resolved_lines_from(
                lines,
                from,
                counter,
                hunks,
                file_index,
                resolutions,
            ).len() ==> is_single_line(
                #[trigger] resolved_lines_from(
                    lines,
                    from,
                    counter,
                    hunks,
                    file_index,
                    resolutions,
                )[i],
            ),
    decreases lines.len() - from,
{
    let written = resolved_lines_from(lines, from, counter, hunks, file_index, resolutions);
    if from < lines.len() {
        if !has_marker(lines[from], START_MARK) {
            lemma_written_lines_are_single(lines, from + 1, counter, hunks, file_index, resolutions);
            let rest = resolved_lines_from(lines, from + 1, counter, hunks, file_index, resolutions);
            assert forall|i: int| 0 <= i < written.len() implies is_single_line(
                #[trigger] written[i],
            ) by {
                if i > 0 {
                    assert(written[i] == rest[i - 1]);
                }
            }
        } else {
            lemma_block_bounds(lines, from);
            let end = block_end(lines, from);
            if end < lines.len() {
                lemma_written_lines_are_single(
                    lines,
                    end + 1,
                    counter + 1,
                    hunks,
                    file_index,
                    resolutions,
                );
                let piece = block_replacement(
                    lines,
                    from,
                    end,
                    counter,
                    hunks,
                    file_index,
                    resolutions,
                );
                let rest = resolved_lines_from(
                    lines,
                    end + 1,
                    counter + 1,
                    hunks,
                    file_index,
                    resolutions,
                );
                if 0 <= counter < hunks.len() && resolutions.contains_key((file_index, counter)) {
                    lemma_lines_are_single(
                        resolved_text(hunks[counter], resolutions[(file_index, counter)]),
                        0,
                    );
                }
                assert forall|i: int| 0 <= i < written.len() implies is_single_line(
                    #[trigger] written[i],
                ) by {
                    if i < piece.len() {
                        assert(written[i] == piece[i]);
                    } else {
                        assert(written[i] == rest[i - piece.len()]);
                    }
                }
            }
        }
    }
}

/// A file in which every closed block has a resolution, to text of which no
/// line begins with the start marker, is written as a text that holds no
/// hunk.
pub proof fn lemma_resolved_file_has_no_hunks(
    text: Seq<char>,
    hunks: Seq<HunkView>,
    file_index: int,
    resolutions: Map<(int, int), ResolutionView>,
)
    requires
        forall|j: int|
            0 <= j < conflict_hunks(text).len() ==> #[trigger] resolved_without_start(
                hunks,
                file_index,
                resolutions,
                j,
            ),
    ensures
        conflict_hunks(resolved_content(text, hunks, file_index, resolutions)).len() == 0,
{
    let lines = split_lines(text);
    let written = resolved_lines(lines, hunks, file_index, resolutions);
    let nothing = Seq::<Seq<char>>::empty();
    lemma_written_has_no_hunks(lines, 0, 0, hunks, file_index, resolutions, nothing);
    assert(nothing + written == written);
    lemma_lines_are_single(text, 0);
    lemma_written_lines_are_single(lines, 0, 0, hunks, file_index, resolutions);
    lemma_split_joined_lines(written);
    lemma_reread_has_no_hunks(written);
}

/// A file in which every closed block has a resolution, to text of which no
/// line begins with the start marker, is no conflicted file any more once
/// it is written: detection leaves it out.
pub proof fn lemma_resolved_file_is_left_out(
    path: Seq<char>,
    text: Seq<char>,
    hunks: Seq<HunkView>,
    file_index: int,
    resolutions: Map<(int, int), ResolutionView>,
)
    requires
        forall|j: int|
            0 <= j < conflict_hunks(text).len() ==> #[trigger] resolved_without_start(
                hunks,
                file_index,
                resolutions,
                j,
            ),
    ensures
        entry_file(
            EntryView {
                path,
                conflicted: true,
                content: Some(resolved_content(text, hunks, file_index, resolutions)),
            },
        ) is None,
{
    lemma_resolved_file_has_no_hunks(text, hunks, file_index, resolutions);
}

} // verus!
