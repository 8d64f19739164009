//! Rewriting a conflicted file according to the resolutions chosen.
//!
//! The file is scanned once more, block by block, as the parser scans it, so
//! that the n-th block met is the n-th hunk of the file. A block whose hunk
//! has a resolution gives way to the lines of the resolved text; a block
//! without one, and an unclosed block at the end, stay as they are.

use vstd::prelude::*;
use crate::conflict::{hunks_view, resolved_text, ConflictHunk, HunkView, ResolutionView};
use crate::parser::{
    block_end, find_block_end, has_marker, lemma_block_bounds, line_has_marker, START_MARK,
};
use crate::resolution::ResolutionMap;
use crate::text::{
    chars_of, copy_range, join_into_string, join_lines, lines_view, split_into_lines, split_lines,
};

verus! {

/// The lines that stand for the closed block from `start` to `end`, the
/// `counter`-th block of the file: those of the resolved text where the
/// hunk has a resolution, the block's own lines where it has none.
pub open spec fn block_replacement(
    lines: Seq<Seq<char>>,
    start: int,
    end: int,
    counter: int,
    hunks: Seq<HunkView>,
    file_index: int,
    resolutions: Map<(int, int), ResolutionView>,
) -> Seq<Seq<char>> {
    if 0 <= counter < hunks.len() && resolutions.contains_key((file_index, counter)) {
        split_lines(resolved_text(hunks[counter], resolutions[(file_index, counter)]))
    } else {
        lines.subrange(start, end + 1)
    }
}

/// The lines written for the part of the file from line `from` on, when
/// `counter` blocks have been met before it.
pub open spec fn resolved_lines_from(
    lines: Seq<Seq<char>>,
    from: int,
    counter: int,
    hunks: Seq<HunkView>,
    file_index: int,
    resolutions: Map<(int, int), ResolutionView>,
) -> Seq<Seq<char>>
    decreases lines.len() - from,
{
    if from < 0 || from >= lines.len() {
        Seq::empty()
    } else if !has_marker(lines[from], START_MARK) {
        seq![lines[from]] + resolved_lines_from(
            lines,
            from + 1,
            counter,
            hunks,
            file_index,
            resolutions,
        )
    } else {
        let end = block_end(lines, from);
        proof {
            lemma_block_bounds(lines, from);
        }
        if end < lines.len() {
            block_replacement(lines, from, end, counter, hunks, file_index, resolutions)
                + resolved_lines_from(lines, end + 1, counter + 1, hunks, file_index, resolutions)
        } else {
            lines.subrange(from, lines.len() as int)
        }
    }
}

/// The lines written for a file given as lines.
pub open spec fn resolved_lines(
    lines: Seq<Seq<char>>,
    hunks: Seq<HunkView>,
    file_index: int,
    resolutions: Map<(int, int), ResolutionView>,
) -> Seq<Seq<char>> {
    resolved_lines_from(lines, 0, 0, hunks, file_index, resolutions)
}

/// The text written for a file given as text: the resolved lines joined by
/// line feeds.
pub open spec fn resolved_content(
    text: Seq<char>,
    hunks: Seq<HunkView>,
    file_index: int,
    resolutions: Map<(int, int), ResolutionView>,
) -> Seq<char> {
    join_lines(resolved_lines(split_lines(text), hunks, file_index, resolutions))
}

/// Appends copies of the lines from `from` up to, not including, `to`.
fn append_lines(out: &mut Vec<Vec<char>>, lines: &Vec<Vec<char>>, from: usize, to: usize)
    requires
        from <= to <= lines.len(),
    ensures
        lines_view(final(out)@) == lines_view(old(out)@) + lines_view(lines@).subrange(
            from as int,
            to as int,
        ),
{
    let ghost before = lines_view(out@);
    let ghost all = lines_view(lines@);
    let mut i: usize = from;
    while i < to
        invariant
            from <= i <= to <= lines.len(),
            all == lines_view(lines@),
            lines_view(out@) == before + all.subrange(from as int, i as int),
        decreases to - i,
    {
        let line = copy_range(&lines[i], 0, lines[i].len());
        assert(line@ == all[i as int]);
        let ghost so_far = lines_view(out@);
        out.push(line);
        assert(lines_view(out@) == so_far + seq![all[i as int]]);
        assert(all.subrange(from as int, i + 1) == all.subrange(from as int, i as int) + seq![
            all[i as int],
        ]);
        i += 1;
    }
}

/// Rewrites a file given as lines. `hunks` are the hunks that were found in
/// the file, `file_index` its place in the conflict they belong to.
pub fn resolve_lines(
    lines: &Vec<Vec<char>>,
    file_index: usize,
    hunks: &Vec<ConflictHunk>,
    resolutions: &ResolutionMap,
) -> (written: Vec<Vec<char>>)
    ensures
        lines_view(written@) == resolved_lines(
            lines_view(lines@),
            hunks_view(hunks@),
            file_index as int,
            resolutions@,
        ),
{
    let ghost all = lines_view(lines@);
    let ghost found = hunks_view(hunks@);
    let ghost file = file_index as int;
    let ghost chosen = resolutions@;
    let mut written: Vec<Vec<char>> = Vec::new();
    let mut i: usize = 0;
    let mut counter: usize = 0;
    while i < lines.len()
        invariant
            counter <= i <= lines.len(),
            all == lines_view(lines@),
            found == hunks_view(hunks@),
            file == file_index as int,
            chosen == resolutions@,
            resolved_lines(all, found, file, chosen) == lines_view(written@) + resolved_lines_from(
                all,
                i as int,
                counter as int,
                found,
                file,
                chosen,
            ),
        decreases lines.len() - i,
    {
        assert(all[i as int] == lines@[i as int]@);
        let ghost before = lines_view(written@);
        if !line_has_marker(&lines[i], START_MARK) {
            append_lines(&mut written, lines, i, i + 1);
            assert(all.subrange(i as int, i + 1) == seq![all[i as int]]);
            i += 1;
        } else {
            let end = find_block_end(lines, i);
            if end < lines.len() {
                let resolution = if counter < hunks.len() {
                    resolutions.get(file_index, counter)
                } else {
                    None
                };
                match resolution {
                    Some(resolution) => {
                        assert(found[counter as int] == hunks@[counter as int]@);
                        let text = hunks[counter].resolve(resolution);
                        let chars = chars_of(text.as_str());
                        let piece = split_into_lines(&chars);
                        append_lines(&mut written, &piece, 0, piece.len());
                        assert(lines_view(piece@).subrange(0, piece.len() as int) == lines_view(
                            piece@,
                        ));
                    },
                    None => {
                        append_lines(&mut written, lines, i, end + 1);
                    },
                }
                assert(lines_view(written@) == before + block_replacement(
                    all,
                    i as int,
                    end as int,
                    counter as int,
                    found,
                    file,
                    chosen,
                ));
                i = end + 1;
                counter += 1;
            } else {
                append_lines(&mut written, lines, i, lines.len());
                i = lines.len();
            }
        }
    }
    written
}

/// Rewrites the content of a conflicted file: each closed block whose hunk
/// has a resolution is replaced by the lines of the resolved text, and
/// everything else is kept. The lines are joined by line feeds, with none
/// after the last.
pub fn resolve_file_content(
    content: &str,
    file_index: usize,
    hunks: &Vec<ConflictHunk>,
    resolutions: &ResolutionMap,
) -> (resolved: String)
    ensures
        resolved@ == resolved_content(
            content@,
            hunks_view(hunks@),
            file_index as int,
            resolutions@,
        ),
{
    let text = chars_of(content);
    let lines = split_into_lines(&text);
    let written = resolve_lines(&lines, file_index, hunks, resolutions);
    join_into_string(&written)
}

} // verus!
