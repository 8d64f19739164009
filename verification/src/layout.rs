//! What the screen needs worked out before it is drawn: the tab of a view,
//! the position of a scrolled diff, the kind of a line of a diff, the split
//! of a popup, and a few labels.

use vstd::prelude::*;
use vstd::string::StringExecFns;
use crate::app::AppMode;
use crate::text::{occurs_at, push_char, text_starts_with};

verus! {

/// The number of the tab under which a view is shown: a dialog under the
/// tab of the view it was opened from, the merge review under the first.
pub open spec fn tab_of(mode: AppMode) -> usize {
    match mode {
        AppMode::Status => 0,
        AppMode::CommitDialog => 0,
        AppMode::StashDialog => 0,
        AppMode::MergeConflict => 0,
        AppMode::Log => 1,
        AppMode::Branches => 2,
        AppMode::CreateBranchDialog => 2,
        AppMode::StashList => 3,
        AppMode::RemoteOperations => 4,
    }
}

/// The number of the tab under which a view is shown.
pub fn selected_tab(mode: AppMode) -> (tab: usize)
    ensures
        tab == tab_of(mode),
{
    match mode {
        AppMode::Status => 0,
        AppMode::CommitDialog => 0,
        AppMode::StashDialog => 0,
        AppMode::MergeConflict => 0,
        AppMode::Log => 1,
        AppMode::Branches => 2,
        AppMode::CreateBranchDialog => 2,
        AppMode::StashList => 3,
        AppMode::RemoteOperations => 4,
    }
}

/// How many columns a terminal must have more than for the long help text
/// to be shown.
pub const WIDE_TERMINAL: u16 = 120;

/// Whether the long help text is shown in a terminal of this width.
pub fn shows_long_help(width: u16) -> (long: bool)
    ensures
        long == (width > WIDE_TERMINAL),
{
    width > WIDE_TERMINAL
}

/// How a line of a diff is shown.
#[derive(Clone, Copy, Debug, PartialEq, Eq, Structural)]
pub enum DiffLineKind {
    Added,
    Removed,
    HunkHeader,
    FileHeader,
    Context,
}

/// The kind of a line of a diff: added and removed lines begin with one
/// plus or minus sign, the header of a hunk with two at signs, the header of
/// a file with three plus or minus signs; any other line is context.
pub open spec fn diff_line_kind(line: Seq<char>) -> DiffLineKind {
    if occurs_at(line, "+"@, 0) && !occurs_at(line, "+++"@, 0) {
        DiffLineKind::Added
    } else if occurs_at(line, "-"@, 0) && !occurs_at(line, "---"@, 0) {
        DiffLineKind::Removed
    } else if occurs_at(line, "@@"@, 0) {
        DiffLineKind::HunkHeader
    } else if occurs_at(line, "+++"@, 0) || occurs_at(line, "---"@, 0) {
        DiffLineKind::FileHeader
    } else {
        DiffLineKind::Context
    }
}

/// The kind of a line of a diff.
pub fn kind_of_diff_line(line: &str) -> (kind: DiffLineKind)
    ensures
        kind == diff_line_kind(line@),
{
    if text_starts_with(line, "+") && !text_starts_with(line, "+++") {
        DiffLineKind::Added
    } else if text_starts_with(line, "-") && !text_starts_with(line, "---") {
        DiffLineKind::Removed
    } else if text_starts_with(line, "@@") {
        DiffLineKind::HunkHeader
    } else if text_starts_with(line, "+++") || text_starts_with(line, "---") {
        DiffLineKind::FileHeader
    } else {
        DiffLineKind::Context
    }
}

/// The origin of a line of a diff is written before the line. Of the diff
/// of the working tree these are all the origins that are signs or letters;
/// of the diff of the index only those of added, removed and unchanged
/// lines.
pub open spec fn origin_is_written(origin: char, of_index: bool) -> bool {
    origin == '+' || origin == '-' || origin == ' ' || (!of_index && (origin == '=' || origin
        == '>' || origin == '<' || origin == 'F' || origin == 'H'))
}

/// A line of a diff as text: its origin, where that is written, and its
/// content.
pub open spec fn diff_line_text(origin: char, content: Seq<char>, of_index: bool) -> Seq<char> {
    if origin_is_written(origin, of_index) {
        seq![origin] + content
    } else {
        content
    }
}

/// A line of a diff as text.
pub fn diff_line(origin: char, content: &str, of_index: bool) -> (line: String)
    ensures
        line@ == diff_line_text(origin, content@, of_index),
{
    let written = origin == '+' || origin == '-' || origin == ' ' || (!of_index && (origin == '='
        || origin == '>' || origin == '<' || origin == 'F' || origin == 'H'));
    let mut line = String::new();
    if written {
        push_char(&mut line, origin);
    }
    line.append(content);
    line
}

/// Where a scrolled diff stands: the line at the top, and how far down that
/// is in percent where the diff is longer than the window.
#[derive(Clone, Copy, Debug, PartialEq, Eq, Structural)]
pub struct ScrollPosition {
    pub top: u16,
    pub percent: Option<u16>,
}

/// How many lines of a window of this height show text: all but the two of
/// its border.
pub open spec fn window_lines(height: u16) -> int {
    if height >= 2 {
        height - 2
    } else {
        0
    }
}

/// How many lines of the diff count: all that a line number can count.
pub open spec fn counted_lines(lines: nat) -> int {
    if lines <= u16::MAX {
        lines as int
    } else {
        u16::MAX as int
    }
}

/// The farthest that the diff can be scrolled: until its last line is the
/// last of the window.
pub open spec fn farthest_scroll(lines: nat, height: u16) -> int {
    if counted_lines(lines) >= window_lines(height) {
        counted_lines(lines) - window_lines(height)
    } else {
        0
    }
}

/// Where a diff of `lines` lines stands in a window of this height when it
/// was asked to scroll to `wanted`: not farther than it can be scrolled.
pub open spec fn scroll_position(wanted: u16, lines: nat, height: u16) -> ScrollPosition {
    let farthest = farthest_scroll(lines, height);
    let top = if wanted <= farthest {
        wanted as int
    } else {
        farthest
    };
    ScrollPosition {
        top: top as u16,
        percent: if counted_lines(lines) > window_lines(height) {
            Some((top * 100 / (if farthest >= 1 {
                farthest
            } else {
                1
            })) as u16)
        } else {
            None
        },
    }
}

/// Where a scrolled diff stands.
pub fn scroll_of(wanted: u16, lines: usize, height: u16) -> (position: ScrollPosition)
    ensures
        position == scroll_position(wanted, lines as nat, height),
        position.percent matches Some(percent) ==> percent <= 100,
{
    let counted: u16 = if lines <= 0xffff {
        lines as u16
    } else {
        0xffff
    };
    let window: u16 = if height >= 2 {
        height - 2
    } else {
        0
    };
    let farthest: u16 = if counted >= window {
        counted - window
    } else {
        0
    };
    let top: u16 = if wanted <= farthest {
        wanted
    } else {
        farthest
    };
    let percent = if counted > window {
        let by: u32 = if farthest >= 1 {
            farthest as u32
        } else {
            1
        };
        let share: u32 = (top as u32) * 100 / by;
        assert(share <= 100) by (nonlinear_arith)
            requires
                top <= by,
                by >= 1,
                share == (top * 100) / (by as int),
        ;
        Some(share as u16)
    } else {
        None
    };
    ScrollPosition { top, percent }
}

/// The three parts, in percent, into which a side of the screen is split
/// for a popup of the given size: two margins of a hundred less half the
/// size, not less than nothing, and the popup between them.
pub open spec fn popup_parts(size: u16) -> (u16, u16, u16) {
    let margin = if size / 2 <= 100 {
        (100 - size / 2) as u16
    } else {
        0
    };
    (margin, size, margin)
}

/// The three parts into which a side of the screen is split for a popup.
pub fn popup_split(size: u16) -> (parts: (u16, u16, u16))
    ensures
        parts == popup_parts(size),
{
    let half = size / 2;
    let margin = if half <= 100 {
        100 - half
    } else {
        0
    };
    (margin, size, margin)
}

/// A branch is one of the remote `origin`.
pub open spec fn is_remote_branch(branch: Seq<char>) -> bool {
    occurs_at(branch, "origin/"@, 0)
}

/// Whether a branch is one of the remote `origin`.
pub fn branch_is_remote(branch: &str) -> (remote: bool)
    ensures
        remote == is_remote_branch(branch@),
{
    text_starts_with(branch, "origin/")
}

/// The label of a branch in the list of branches.
pub open spec fn branch_label_text(branch: Seq<char>) -> Seq<char> {
    if is_remote_branch(branch) {
        "remote: "@ + branch
    } else {
        "local: "@ + branch
    }
}

/// The label of a branch in the list of branches.
pub fn branch_label(branch: &str) -> (label: String)
    ensures
        label@ == branch_label_text(branch@),
{
    let mut label = if text_starts_with(branch, "origin/") {
        String::from_str("remote: ")
    } else {
        String::from_str("local: ")
    };
    label.append(branch);
    label
}

/// The column of the text cursor in a dialog: one past the text typed, in
/// a field that begins at column `left`, as far as columns can be counted.
pub open spec fn cursor_column_of(left: u16, typed: nat) -> u16 {
    if left + typed + 1 <= u16::MAX {
        (left + typed + 1) as u16
    } else {
        u16::MAX
    }
}

/// The column of the text cursor in a dialog.
pub fn cursor_column(left: u16, typed: usize) -> (column: u16)
    ensures
        column == cursor_column_of(left, typed as nat),
{
    let room: u16 = 0xffff - left;
    if typed < room as usize {
        left + typed as u16 + 1
    } else {
        0xffff
    }
}

} // verus!
