//! The cursor over the hunks of a conflict, and its three moves.

use vstd::prelude::*;
use crate::conflict::{files_view, ConflictView, ConflictedFile, FileView};

verus! {

/// The selected hunk: the index of a file of the conflict and the index of
/// a hunk of that file.
#[derive(Clone, Copy, Debug, PartialEq, Eq, Structural)]
pub struct Cursor {
    pub file: usize,
    pub hunk: usize,
}

impl Cursor {
    /// The cursor addresses a hunk of one of the files.
    pub open spec fn within(self, files: Seq<FileView>) -> bool {
        self.file < files.len() && self.hunk < files[self.file as int].hunks.len()
    }

    /// The cursor on the first hunk of the first file.
    pub fn first() -> (cursor: Cursor)
        ensures
            cursor == (Cursor { file: 0, hunk: 0 }),
    {
        Cursor { file: 0, hunk: 0 }
    }

    /// Whether the cursor addresses a hunk of one of the files.
    pub fn is_within(self, files: &Vec<ConflictedFile>) -> (inside: bool)
        ensures
            inside == self.within(files_view(files@)),
    {
        if self.file < files.len() {
            assert(files_view(files@)[self.file as int] == files@[self.file as int]@);
            self.hunk < files[self.file].conflicts.len()
        } else {
            false
        }
    }
}

/// Where the cursor stands after a move down: on the next hunk of its file;
/// from the last hunk of a file, on the first hunk of the next file; from
/// the last hunk of the last file, and from a file that the conflict does
/// not have, where it stood.
pub open spec fn after_hunk_down(files: Seq<FileView>, cursor: Cursor) -> Cursor {
    if cursor.file < files.len() {
        if cursor.hunk + 1 < files[cursor.file as int].hunks.len() {
            Cursor { file: cursor.file, hunk: (cursor.hunk + 1) as usize }
        } else if cursor.file + 1 < files.len() {
            Cursor { file: (cursor.file + 1) as usize, hunk: 0 }
        } else {
            cursor
        }
    } else {
        cursor
    }
}

/// Where the cursor stands after a move up: on the hunk before; from the
/// first hunk of a file, on the last hunk of the file before; from the first
/// hunk of the first file, where it stood.
pub open spec fn after_hunk_up(files: Seq<FileView>, cursor: Cursor) -> Cursor {
    if cursor.hunk > 0 {
        Cursor { file: cursor.file, hunk: (cursor.hunk - 1) as usize }
    } else if cursor.file > 0 {
        let file = cursor.file - 1;
        if file < files.len() {
            let hunks = files[file].hunks.len();
            Cursor { file: file as usize, hunk: if hunks > 0 { (hunks - 1) as usize } else { 0 } }
        } else {
            Cursor { file: file as usize, hunk: cursor.hunk }
        }
    } else {
        cursor
    }
}

/// Where the cursor stands after a jump to the next file: on its first
/// hunk; from the last file, where it stood.
pub open spec fn after_file_next(files: Seq<FileView>, cursor: Cursor) -> Cursor {
    if cursor.file + 1 < files.len() {
        Cursor { file: (cursor.file + 1) as usize, hunk: 0 }
    } else {
        cursor
    }
}

/// Moves the cursor one hunk down.
pub fn hunk_down(files: &Vec<ConflictedFile>, cursor: Cursor) -> (next: Cursor)
    ensures
        next == after_hunk_down(files_view(files@), cursor),
{
    if cursor.file < files.len() {
        assert(files_view(files@)[cursor.file as int] == files@[cursor.file as int]@);
        let hunks = files[cursor.file].conflicts.len();
        if hunks > 0 && cursor.hunk < hunks - 1 {
            Cursor { file: cursor.file, hunk: cursor.hunk + 1 }
        } else if cursor.file < files.len() - 1 {
            Cursor { file: cursor.file + 1, hunk: 0 }
        } else {
            cursor
        }
    } else {
        cursor
    }
}

/// Moves the cursor one hunk up.
pub fn hunk_up(files: &Vec<ConflictedFile>, cursor: Cursor) -> (next: Cursor)
    ensures
        next == after_hunk_up(files_view(files@), cursor),
{
    if cursor.hunk > 0 {
        Cursor { file: cursor.file, hunk: cursor.hunk - 1 }
    } else if cursor.file > 0 {
        let file = cursor.file - 1;
        if file < files.len() {
            assert(files_view(files@)[file as int] == files@[file as int]@);
            let hunks = files[file].conflicts.len();
            Cursor { file, hunk: if hunks > 0 { hunks - 1 } else { 0 } }
        } else {
            Cursor { file, hunk: cursor.hunk }
        }
    } else {
        cursor
    }
}

/// Moves the cursor to the first hunk of the next file.
pub fn file_next(files: &Vec<ConflictedFile>, cursor: Cursor) -> (next: Cursor)
    ensures
        next == after_file_next(files_view(files@), cursor),
{
    if files.len() > 0 && cursor.file < files.len() - 1 {
        Cursor { file: cursor.file + 1, hunk: 0 }
    } else {
        cursor
    }
}

/// A move down from the last hunk of the last file changes nothing, and
/// neither does a move up from the first hunk of the first file.
pub proof fn lemma_moves_stop_at_the_ends(files: Seq<FileView>, last: Cursor)
    requires
        files.len() > 0,
        last.file == files.len() - 1,
        files[last.file as int].hunks.len() > 0,
        last.hunk == files[last.file as int].hunks.len() - 1,
    ensures
        after_hunk_down(files, last) == last,
        after_hunk_up(files, Cursor { file: 0, hunk: 0 }) == (Cursor { file: 0, hunk: 0 }),
{
}

/// On a well-formed conflict, a cursor that addresses a hunk addresses one
/// after every move.
pub proof fn lemma_moves_stay_within(conflict: ConflictView, cursor: Cursor)
    requires
        conflict.wf(),
        cursor.within(conflict.files),
    ensures
        after_hunk_down(conflict.files, cursor).within(conflict.files),
        after_hunk_up(conflict.files, cursor).within(conflict.files),
        after_file_next(conflict.files, cursor).within(conflict.files),
{
    if cursor.file + 1 < conflict.files.len() {
        assert(conflict.files[cursor.file + 1].wf());
    }
    if cursor.file > 0 {
        assert(conflict.files[cursor.file - 1].wf());
    }
}

/// The files and the hunks of each file can be counted by the machine.
pub open spec fn countable(files: Seq<FileView>) -> bool {
    &&& files.len() <= usize::MAX
    &&& forall|f: int| 0 <= f < files.len() ==> (#[trigger] files[f]).hunks.len() <= usize::MAX
}

/// On a well-formed conflict, a move up undoes a move down that moved the
/// cursor, and a move down undoes a move up that moved it.
pub proof fn lemma_up_and_down_undo_each_other(conflict: ConflictView, cursor: Cursor)
    requires
        conflict.wf(),
        countable(conflict.files),
        cursor.within(conflict.files),
    ensures
        after_hunk_down(conflict.files, cursor) != cursor ==> after_hunk_up(
            conflict.files,
            after_hunk_down(conflict.files, cursor),
        ) == cursor,
        after_hunk_up(conflict.files, cursor) != cursor ==> after_hunk_down(
            conflict.files,
            after_hunk_up(conflict.files, cursor),
        ) == cursor,
{
    if cursor.file + 1 < conflict.files.len() {
        assert(conflict.files[cursor.file + 1].wf());
    }
    if cursor.file > 0 {
        assert(conflict.files[cursor.file - 1].wf());
    }
}

} // verus!
