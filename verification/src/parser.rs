//! Recognising conflict blocks in the lines of a file.
//!
//! A block opens at a line that begins with the start marker. Our side runs
//! to the first line after it that begins with the separator or the base
//! marker; where it is the base marker, the common ancestor runs from there
//! to the separator. Their side runs from the separator to the first line
//! after it that begins with the end marker. A block that the text ends
//! before closing is no hunk.

use vstd::prelude::*;
use crate::conflict::{hunks_view, ConflictHunk, HunkView};
use crate::text::{
    chars_of, first_match, join_lines, join_range, lemma_first_match, lemma_first_match_at,
    lemma_first_match_skip, lines_view, occurs_at, split_into_lines, split_lines,
};

verus! {

/// How many times a marker repeats its character at the start of a line.
pub const MARKER_LEN: usize = 7;

/// The character of the start marker, `<<<<<<<`.
pub const START_MARK: char = '<';

/// The character of the base marker, `|||||||`.
pub const BASE_MARK: char = '|';

/// The character of the separator marker, `=======`.
pub const SEPARATOR_MARK: char = '=';

/// The character of the end marker, `>>>>>>>`.
pub const END_MARK: char = '>';

/// The line begins with seven times `mark`.
pub open spec fn has_marker(line: Seq<char>, mark: char) -> bool {
    line.len() >= MARKER_LEN && forall|i: int| 0 <= i < MARKER_LEN ==> line[i] == mark
}

/// The test for a line that begins with the marker of `mark`.
pub open spec fn marked(mark: char) -> spec_fn(Seq<char>) -> bool {
    |line: Seq<char>| has_marker(line, mark)
}

/// The test for a line that begins with the marker of `first` or of `second`.
pub open spec fn marked_either(first: char, second: char) -> spec_fn(Seq<char>) -> bool {
    |line: Seq<char>| has_marker(line, first) || has_marker(line, second)
}

/// Index of the line that ends our side of the block opened at `start`: the
/// first separator or base marker after it, or the number of lines.
pub open spec fn block_ours_end(lines: Seq<Seq<char>>, start: int) -> int {
    first_match(lines, start + 1, marked_either(SEPARATOR_MARK, BASE_MARK))
}

/// Index of the separator of the block opened at `start`, or the number of
/// lines when there is none.
pub open spec fn block_separator(lines: Seq<Seq<char>>, start: int) -> int {
    first_match(lines, start + 1, marked(SEPARATOR_MARK))
}

/// Index of the end marker of the block opened at `start`, or the number of
/// lines when the block is not closed.
pub open spec fn block_end(lines: Seq<Seq<char>>, start: int) -> int {
    first_match(lines, block_separator(lines, start) + 1, marked(END_MARK))
}

/// The hunk of the block opened at `start`.
pub open spec fn block_hunk(lines: Seq<Seq<char>>, start: int) -> HunkView {
    let ours_end = block_ours_end(lines, start);
    let separator = block_separator(lines, start);
    let end = block_end(lines, start);
    HunkView {
        start_line: start as nat,
        end_line: end as nat,
        ours: join_lines(lines.subrange(start + 1, ours_end)),
        theirs: join_lines(lines.subrange(separator + 1, end)),
        base: if ours_end < separator {
            Some(join_lines(lines.subrange(ours_end + 1, separator)))
        } else {
            None
        },
    }
}

/// The hunks found by a scan that begins at line `from`.
pub open spec fn hunks_from(lines: Seq<Seq<char>>, from: int) -> Seq<HunkView>
    decreases lines.len() - from,
{
    if from < 0 || from >= lines.len() {
        Seq::empty()
    } else if !has_marker(lines[from], START_MARK) {
        hunks_from(lines, from + 1)
    } else {
        let end = block_end(lines, from);
        proof {
            lemma_block_bounds(lines, from);
        }
        if end < lines.len() {
            seq![block_hunk(lines, from)] + hunks_from(lines, end + 1)
        } else {
            Seq::empty()
        }
    }
}

/// The hunks of a file given as lines, in file order.
pub open spec fn parse_hunks(lines: Seq<Seq<char>>) -> Seq<HunkView> {
    hunks_from(lines, 0)
}

/// The hunks of a file given as text, in file order.
pub open spec fn conflict_hunks(text: Seq<char>) -> Seq<HunkView> {
    parse_hunks(split_lines(text))
}

/// The parts of a block follow each other: start, end of our side,
/// separator, end marker.
pub proof fn lemma_block_bounds(lines: Seq<Seq<char>>, start: int)
    requires
        0 <= start < lines.len(),
    ensures
        start < block_ours_end(lines, start) <= block_separator(lines, start) <= lines.len(),
        block_separator(lines, start) <= block_end(lines, start) <= lines.len(),
        block_separator(lines, start) < lines.len() ==> block_separator(lines, start) < block_end(
            lines,
            start,
        ),
        block_ours_end(lines, start) < block_separator(lines, start) ==> has_marker(
            lines[block_ours_end(lines, start)],
            BASE_MARK,
        ),
{
    let either = marked_either(SEPARATOR_MARK, BASE_MARK);
    let separator = block_separator(lines, start);
    lemma_first_match(lines, start + 1, either);
    lemma_first_match(lines, start + 1, marked(SEPARATOR_MARK));
    let ours_end = block_ours_end(lines, start);
    if separator < lines.len() {
        assert(either(lines[separator]));
        lemma_first_match(lines, separator + 1, marked(END_MARK));
    }
    if ours_end < separator {
        assert(either(lines[ours_end]));
        assert(!marked(SEPARATOR_MARK)(lines[ours_end]));
    }
}

/// A line has a marker just when it begins with the marker as it is
/// written: `<<<<<<<`, `|||||||`, `=======` or `>>>>>>>`.
pub proof fn lemma_markers_as_written(line: Seq<char>)
    ensures
        has_marker(line, START_MARK) <==> occurs_at(line, "<<<<<<<"@, 0),
        has_marker(line, BASE_MARK) <==> occurs_at(line, "|||||||"@, 0),
        has_marker(line, SEPARATOR_MARK) <==> occurs_at(line, "======="@, 0),
        has_marker(line, END_MARK) <==> occurs_at(line, ">>>>>>>"@, 0),
{
    reveal_strlit("<<<<<<<");
    reveal_strlit("|||||||");
    reveal_strlit("=======");
    reveal_strlit(">>>>>>>");
    lemma_marker_as_written(line, START_MARK, "<<<<<<<"@);
    lemma_marker_as_written(line, BASE_MARK, "|||||||"@);
    lemma_marker_as_written(line, SEPARATOR_MARK, "======="@);
    lemma_marker_as_written(line, END_MARK, ">>>>>>>"@);
}

/// A line has the marker of `mark` just when it begins with seven times
/// that character written out.
proof fn lemma_marker_as_written(line: Seq<char>, mark: char, written: Seq<char>)
    requires
        written.len() == MARKER_LEN,
        forall|i: int| 0 <= i < MARKER_LEN ==> written[i] == mark,
    ensures
        has_marker(line, mark) <==> occurs_at(line, written, 0),
{
    if has_marker(line, mark) {
        assert(line.subrange(0, 7) == written);
    }
    if occurs_at(line, written, 0) {
        assert forall|i: int| 0 <= i < MARKER_LEN implies line[i] == mark by {
            assert(line.subrange(0, 7)[i] == written[i]);
        }
    }
}

/// A line begins with the marker of one character at most.
pub proof fn lemma_one_marker(line: Seq<char>, mark: char, other: char)
    requires
        has_marker(line, mark),
        mark != other,
    ensures
        !has_marker(line, other),
{
    assert(line[0] == mark);
}

/// Every hunk found from `from` on starts at or after `from` and ends after
/// it starts, and each starts after the one before it has ended.
pub proof fn lemma_hunks_from_ordered(lines: Seq<Seq<char>>, from: int)
    requires
        0 <= from,
    ensures
        forall|k: int|
            0 <= k < hunks_from(lines, from).len() ==> {
                let hunk = #[trigger] hunks_from(lines, from)[k];
                from <= hunk.start_line < hunk.end_line < lines.len()
            },
        forall|j: int, k: int|
            0 <= j < k < hunks_from(lines, from).len() ==> (#[trigger] hunks_from(
                lines,
                from,
            )[j]).end_line < (#[trigger] hunks_from(lines, from)[k]).start_line,
    decreases lines.len() - from,
{
    if from < lines.len() {
        if !has_marker(lines[from], START_MARK) {
            lemma_hunks_from_ordered(lines, from + 1);
        } else {
            lemma_block_bounds(lines, from);
            let end = block_end(lines, from);
            if end < lines.len() {
                lemma_hunks_from_ordered(lines, end + 1);
                let rest = hunks_from(lines, end + 1);
                let all = hunks_from(lines, from);
                assert(all == seq![block_hunk(lines, from)] + rest);
                assert forall|k: int| 0 <= k < all.len() implies {
                    let hunk = #[trigger] all[k];
                    from <= hunk.start_line < hunk.end_line < lines.len()
                } by {
                    if k > 0 {
                        assert(all[k] == rest[k - 1]);
                    }
                }
                assert forall|j: int, k: int| 0 <= j < k < all.len() implies (#[trigger] all[j]).end_line
                    < (#[trigger] all[k]).start_line by {
                    assert(all[k] == rest[k - 1]);
                    if j > 0 {
                        assert(all[j] == rest[j - 1]);
                    }
                }
            }
        }
    }
}

/// Where a closed block lies: the lines of its start marker, of its
/// separator and of its end marker.
pub struct BlockSpan {
    pub start: int,
    pub separator: int,
    pub end: int,
}

/// The span is a closed block of `lines`: a start marker, then the first
/// separator after it, then the first end marker after that.
pub open spec fn is_closed_block(lines: Seq<Seq<char>>, span: BlockSpan) -> bool {
    &&& 0 <= span.start < span.separator < span.end < lines.len()
    &&& has_marker(lines[span.start], START_MARK)
    &&& has_marker(lines[span.separator], SEPARATOR_MARK)
    &&& has_marker(lines[span.end], END_MARK)
    &&& forall|k: int|
        span.start < k < span.separator ==> !#[trigger] has_marker(lines[k], SEPARATOR_MARK)
    &&& forall|k: int| span.separator < k < span.end ==> !#[trigger] has_marker(lines[k], END_MARK)
}

/// Line `k` lies within one of the spans, ends included.
pub open spec fn inside_a_span(spans: Seq<BlockSpan>, k: int) -> bool {
    exists|i: int| 0 <= i < spans.len() && (#[trigger] spans[i]).start <= k <= spans[i].end
}

/// The spans are the closed blocks of `lines`, in file order and apart from
/// each other, and no start marker stands outside them.
pub open spec fn well_formed_blocks(lines: Seq<Seq<char>>, spans: Seq<BlockSpan>) -> bool {
    &&& forall|i: int| 0 <= i < spans.len() ==> is_closed_block(lines, #[trigger] spans[i])
    &&& forall|i: int, j: int|
        0 <= i < j < spans.len() ==> (#[trigger] spans[i]).end < (#[trigger] spans[j]).start
    &&& forall|k: int|
        0 <= k < lines.len() && has_marker(lines[k], START_MARK) ==> #[trigger] inside_a_span(
            spans,
            k,
        )
}

/// The block opened at the start of a closed span has the span's separator
/// and end.
pub proof fn lemma_closed_block(lines: Seq<Seq<char>>, span: BlockSpan)
    requires
        is_closed_block(lines, span),
    ensures
        block_separator(lines, span.start) == span.separator,
        block_end(lines, span.start) == span.end,
{
    let separator = marked(SEPARATOR_MARK);
    let end = marked(END_MARK);
    assert forall|k: int| span.start + 1 <= k < span.separator implies !#[trigger] separator(
        lines[k],
    ) by {
        assert(!has_marker(lines[k], SEPARATOR_MARK));
    }
    assert forall|k: int| span.separator + 1 <= k < span.end implies !#[trigger] end(lines[k]) by {
        assert(!has_marker(lines[k], END_MARK));
    }
    lemma_first_match_at(lines, span.start + 1, span.separator, separator);
    lemma_first_match_at(lines, span.separator + 1, span.end, end);
}

/// Where a scan stands among the blocks: after the blocks before `next` and
/// not past the start of block `next`.
spec fn scan_between(spans: Seq<BlockSpan>, from: int, next: int) -> bool {
    &&& 0 <= next <= spans.len()
    &&& next > 0 ==> spans[next - 1].end < from
    &&& next < spans.len() ==> from <= spans[next].start
}

/// What a scan between two blocks meets at its line: a line without start
/// marker before the next block, or the start of the next block, whose end
/// the parser finds.
proof fn lemma_scan_step(lines: Seq<Seq<char>>, spans: Seq<BlockSpan>, from: int, next: int)
    requires
        well_formed_blocks(lines, spans),
        0 <= from <= lines.len(),
        scan_between(spans, from, next),
    ensures
        from == lines.len() ==> next == spans.len(),
        from < lines.len() && !has_marker(lines[from], START_MARK) ==> scan_between(
            spans,
            from + 1,
            next,
        ),
        from < lines.len() && has_marker(lines[from], START_MARK) ==> {
            &&& next < spans.len()
            &&& from == spans[next].start
            &&& block_end(lines, from) == spans[next].end
            &&& from < spans[next].end < lines.len()
            &&& scan_between(spans, spans[next].end + 1, next + 1)
        },
{
    if next < spans.len() {
        assert(is_closed_block(lines, spans[next]));
        lemma_closed_block(lines, spans[next]);
        if next + 1 < spans.len() {
            assert(spans[next].end < spans[next + 1].start);
        }
    }
    if from < lines.len() && has_marker(lines[from], START_MARK) {
        assert(inside_a_span(spans, from));
        let inside = choose|i: int|
            0 <= i < spans.len() && (#[trigger] spans[i]).start <= from <= spans[i].end;
        assert(is_closed_block(lines, spans[inside]));
        if inside < next {
            assert(is_closed_block(lines, spans[next - 1]));
            if inside < next - 1 {
                assert(spans[inside].end < spans[next - 1].start);
            }
            assert(false);
        }
        if inside > next {
            assert(spans[next].end < spans[inside].start);
            assert(false);
        }
    }
}

/// A scan that begins between two blocks finds the blocks that follow.
proof fn lemma_blocks_from(lines: Seq<Seq<char>>, spans: Seq<BlockSpan>, from: int, next: int)
    requires
        well_formed_blocks(lines, spans),
        0 <= from <= lines.len(),
        scan_between(spans, from, next),
    ensures
        hunks_from(lines, from).len() == spans.len() - next,
        forall|i: int|
            0 <= i < spans.len() - next ==> {
                let hunk = #[trigger] hunks_from(lines, from)[i];
                hunk.start_line == spans[next + i].start && hunk.end_line == spans[next + i].end
            },
    decreases lines.len() - from,
{
    lemma_scan_step(lines, spans, from, next);
    if from == lines.len() {
    } else if !has_marker(lines[from], START_MARK) {
        lemma_blocks_from(lines, spans, from + 1, next);
    } else {
        let end = spans[next].end;
        lemma_blocks_from(lines, spans, end + 1, next + 1);
        let first = block_hunk(lines, from);
        let rest = hunks_from(lines, end + 1);
        let all = hunks_from(lines, from);
        assert(all == seq![first] + rest);
        assert(first.start_line == from && first.end_line == end);
        assert forall|i: int| 0 <= i < spans.len() - next implies {
            let hunk = #[trigger] all[i];
            hunk.start_line == spans[next + i].start && hunk.end_line == spans[next + i].end
        } by {
            if i > 0 {
                assert(all[i] == rest[i - 1]);
            }
        }
    }
}

/// A file made of closed blocks, with no start marker outside them, parses
/// to one hunk for each block, in file order, and each hunk has the start
/// and end line of its block, the end after the start.
pub proof fn lemma_closed_blocks_parse(lines: Seq<Seq<char>>, spans: Seq<BlockSpan>)
    requires
        well_formed_blocks(lines, spans),
    ensures
        parse_hunks(lines).len() == spans.len(),
        forall|i: int|
            0 <= i < spans.len() ==> {
                let hunk = #[trigger] parse_hunks(lines)[i];
                &&& hunk.start_line == spans[i].start
                &&& hunk.end_line == spans[i].end
                &&& hunk.start_line < hunk.end_line
            },
{
    if spans.len() > 0 {
        assert(is_closed_block(lines, spans[0]));
    }
    lemma_blocks_from(lines, spans, 0, 0);
    assert forall|i: int| 0 <= i < spans.len() implies {
        let hunk = #[trigger] parse_hunks(lines)[i];
        &&& hunk.start_line == spans[i].start
        &&& hunk.end_line == spans[i].end
        &&& hunk.start_line < hunk.end_line
    } by {
        assert(is_closed_block(lines, spans[i]));
        assert(parse_hunks(lines)[i] == hunks_from(lines, 0)[i]);
    }
}

/// Whether the line begins with seven times `mark`.
pub fn line_has_marker(line: &Vec<char>, mark: char) -> (found: bool)
    ensures
        found == has_marker(line@, mark),
{
    if line.len() < MARKER_LEN {
        return false;
    }
    let mut i: usize = 0;
    while i < MARKER_LEN
        invariant
            i <= MARKER_LEN <= line.len(),
            forall|k: int| 0 <= k < i ==> line@[k] == mark,
        decreases MARKER_LEN - i,
    {
        if line[i] != mark {
            return false;
        }
        i += 1;
    }
    true
}

/// Index of the first line at or after `from` that begins with the marker
/// of `first` or of `second`, or the number of lines.
fn find_marked_either(lines: &Vec<Vec<char>>, from: usize, first: char, second: char) -> (at:
    usize)
    ensures
        at == first_match(lines_view(lines@), from as int, marked_either(first, second)),
        at <= lines.len(),
{
    if from >= lines.len() {
        return lines.len();
    }
    let ghost all = lines_view(lines@);
    let ghost wanted = marked_either(first, second);
    let mut i: usize = from;
    while i < lines.len() && !(line_has_marker(&lines[i], first) || line_has_marker(
        &lines[i],
        second,
    ))
        invariant
            from <= i <= lines.len(),
            all == lines_view(lines@),
            wanted == marked_either(first, second),
            first_match(all, from as int, wanted) == first_match(all, i as int, wanted),
        decreases lines.len() - i,
    {
        assert(all[i as int] == lines@[i as int]@);
        i += 1;
    }
    assert(i < lines.len() ==> all[i as int] == lines@[i as int]@);
    i
}

/// Index of the first line at or after `from` that begins with the marker
/// of `mark`, or the number of lines.
fn find_marked(lines: &Vec<Vec<char>>, from: usize, mark: char) -> (at: usize)
    ensures
        at == first_match(lines_view(lines@), from as int, marked(mark)),
        at <= lines.len(),
{
    if from >= lines.len() {
        return lines.len();
    }
    let ghost all = lines_view(lines@);
    let ghost wanted = marked(mark);
    let mut i: usize = from;
    while i < lines.len() && !line_has_marker(&lines[i], mark)
        invariant
            from <= i <= lines.len(),
            all == lines_view(lines@),
            wanted == marked(mark),
            first_match(all, from as int, wanted) == first_match(all, i as int, wanted),
        decreases lines.len() - i,
    {
        assert(all[i as int] == lines@[i as int]@);
        i += 1;
    }
    assert(i < lines.len() ==> all[i as int] == lines@[i as int]@);
    i
}

/// Index of the end marker of the block opened at `start`, or the number of
/// lines when the block is not closed.
pub fn find_block_end(lines: &Vec<Vec<char>>, start: usize) -> (end: usize)
    requires
        start < lines.len(),
    ensures
        end == block_end(lines_view(lines@), start as int),
        start < end <= lines.len(),
{
    proof {
        lemma_block_bounds(lines_view(lines@), start as int);
    }
    let separator = find_marked(lines, start + 1, SEPARATOR_MARK);
    if separator < lines.len() {
        find_marked(lines, separator + 1, END_MARK)
    } else {
        lines.len()
    }
}

/// Finds the hunks of a file given as lines, in file order.
pub fn parse_lines(lines: &Vec<Vec<char>>) -> (hunks: Vec<ConflictHunk>)
    ensures
        hunks_view(hunks@) == parse_hunks(lines_view(lines@)),
        forall|k: int| 0 <= k < hunks.len() ==> (#[trigger] hunks[k]).start_line < hunks[k].end_line,
        forall|j: int, k: int|
            0 <= j < k < hunks.len() ==> (#[trigger] hunks[j]).end_line < (
            #[trigger] hunks[k]).start_line,
{
    let ghost all = lines_view(lines@);
    let mut hunks: Vec<ConflictHunk> = Vec::new();
    let mut i: usize = 0;
    while i < lines.len()
        invariant
            i <= lines.len(),
            all == lines_view(lines@),
            parse_hunks(all) == hunks_view(hunks@) + hunks_from(all, i as int),
        decreases lines.len() - i,
    {
        assert(all[i as int] == lines@[i as int]@);
        if line_has_marker(&lines[i], START_MARK) {
            proof {
                lemma_block_bounds(all, i as int);
            }
            let ours_end = find_marked_either(lines, i + 1, SEPARATOR_MARK, BASE_MARK);
            assert(ours_end < lines.len() ==> all[ours_end as int] == lines@[ours_end as int]@);
            let separator = if ours_end < lines.len() && line_has_marker(
                &lines[ours_end],
                BASE_MARK,
            ) {
                find_marked(lines, ours_end + 1, SEPARATOR_MARK)
            } else {
                ours_end
            };
            proof {
                let either = marked_either(SEPARATOR_MARK, BASE_MARK);
                let wanted = marked(SEPARATOR_MARK);
                lemma_first_match(all, i + 1, either);
                assert forall|k: int| i + 1 <= k < ours_end implies !#[trigger] wanted(all[k]) by {
                    assert(!either(all[k]));
                }
                lemma_first_match_skip(all, i + 1, ours_end as int, wanted);
                if ours_end < lines.len() && has_marker(all[ours_end as int], BASE_MARK) {
                    lemma_one_marker(all[ours_end as int], BASE_MARK, SEPARATOR_MARK);
                    lemma_first_match_skip(all, ours_end as int, ours_end + 1, wanted);
                } else if ours_end < lines.len() {
                    assert(wanted(all[ours_end as int]));
                }
                assert(separator == block_separator(all, i as int));
            }
            let end = if separator < lines.len() {
                find_marked(lines, separator + 1, END_MARK)
            } else {
                lines.len()
            };
            assert(end == block_end(all, i as int));
            if end < lines.len() {
                let ours = join_range(lines, i + 1, ours_end);
                let theirs = join_range(lines, separator + 1, end);
                let base = if ours_end < separator {
                    Some(join_range(lines, ours_end + 1, separator))
                } else {
                    None
                };
                let hunk = ConflictHunk {
                    start_line: i,
                    end_line: end,
                    our_content: ours,
                    their_content: theirs,
                    base_content: base,
                };
                assert(hunk@ == block_hunk(all, i as int));
                let ghost before = hunks_view(hunks@);
                hunks.push(hunk);
                assert(hunks_view(hunks@) == before + seq![block_hunk(all, i as int)]);
                i = end + 1;
            } else {
                i = lines.len();
            }
        } else {
            i += 1;
        }
    }
    proof {
        lemma_hunks_from_ordered(all, 0);
        assert forall|k: int| 0 <= k < hunks.len() implies (#[trigger] hunks[k]).start_line
            < hunks[k].end_line by {
            assert(hunks_view(hunks@)[k] == hunks[k]@);
            assert(parse_hunks(all)[k] == hunks[k]@);
        }
        assert forall|j: int, k: int| 0 <= j < k < hunks.len() implies (
        #[trigger] hunks[j]).end_line < (#[trigger] hunks[k]).start_line by {
            assert(hunks_view(hunks@)[j] == hunks[j]@);
            assert(hunks_view(hunks@)[k] == hunks[k]@);
            assert(parse_hunks(all)[j].end_line < parse_hunks(all)[k].start_line);
        }
    }
    hunks
}

/// Finds the hunks of a conflicted file from its content, in file order.
/// Text that holds no closed block gives no hunk; nothing is an error.
pub fn parse_conflicted_file(content: &str) -> (hunks: Vec<ConflictHunk>)
    ensures
        hunks_view(hunks@) == conflict_hunks(content@),
        forall|k: int| 0 <= k < hunks.len() ==> (#[trigger] hunks[k]).start_line < hunks[k].end_line,
        forall|j: int, k: int|
            0 <= j < k < hunks.len() ==> (#[trigger] hunks[j]).end_line < (
            #[trigger] hunks[k]).start_line,
{
    let text = chars_of(content);
    let lines = split_into_lines(&text);
    parse_lines(&lines)
}

} // verus!
