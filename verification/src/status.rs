//! The state of the working tree as the status view shows it, and commits
//! as the log view shows them.

use vstd::prelude::*;
use vstd::string::StringExecFns;
use crate::text::{
    chars_of, decimal, lines_view, push_char, push_decimal, split_into_lines, split_lines,
    string_of, strings_view,
};

verus! {

/// A changed file: its path and the letters of its state.
#[derive(Debug)]
pub struct FileStatus {
    pub path: String,
    pub status: String,
}

/// A changed file with its texts as sequences of characters.
pub struct FileStatusView {
    pub path: Seq<char>,
    pub status: Seq<char>,
}

impl View for FileStatus {
    type V = FileStatusView;

    open spec fn view(&self) -> FileStatusView {
        FileStatusView { path: self.path@, status: self.status@ }
    }
}

impl Clone for FileStatus {
    fn clone(&self) -> (copy: Self)
        ensures
            copy@ == self@,
    {
        FileStatus { path: self.path.clone(), status: self.status.clone() }
    }
}

/// The views of a sequence of changed files.
pub open spec fn statuses_view(files: Seq<FileStatus>) -> Seq<FileStatusView> {
    files.map_values(|file: FileStatus| file@)
}

/// The branch with its distance to its upstream, and the changed files in
/// three groups.
#[derive(Debug)]
pub struct RepoStatus {
    pub branch: String,
    pub ahead: usize,
    pub behind: usize,
    pub staged: Vec<FileStatus>,
    pub unstaged: Vec<FileStatus>,
    pub untracked: Vec<FileStatus>,
}

/// A status with its texts as sequences of characters.
pub struct RepoStatusView {
    pub branch: Seq<char>,
    pub ahead: nat,
    pub behind: nat,
    pub staged: Seq<FileStatusView>,
    pub unstaged: Seq<FileStatusView>,
    pub untracked: Seq<FileStatusView>,
}

impl View for RepoStatus {
    type V = RepoStatusView;

    open spec fn view(&self) -> RepoStatusView {
        RepoStatusView {
            branch: self.branch@,
            ahead: self.ahead as nat,
            behind: self.behind as nat,
            staged: statuses_view(self.staged@),
            unstaged: statuses_view(self.unstaged@),
            untracked: statuses_view(self.untracked@),
        }
    }
}

/// What the repository says of one entry of the working tree.
#[derive(Clone, Copy, Debug, PartialEq, Eq, Structural)]
pub struct EntryFlags {
    pub index_new: bool,
    pub index_modified: bool,
    pub index_deleted: bool,
    pub wt_new: bool,
    pub wt_modified: bool,
    pub wt_deleted: bool,
}

/// An entry of the working tree with its flags.
#[derive(Debug)]
pub struct StatusEntry {
    pub path: String,
    pub flags: EntryFlags,
}

/// An entry as a mathematical value.
pub struct StatusEntryView {
    pub path: Seq<char>,
    pub flags: EntryFlags,
}

impl View for StatusEntry {
    type V = StatusEntryView;

    open spec fn view(&self) -> StatusEntryView {
        StatusEntryView { path: self.path@, flags: self.flags }
    }
}

/// The views of a sequence of entries.
pub open spec fn status_entries_view(entries: Seq<StatusEntry>) -> Seq<StatusEntryView> {
    entries.map_values(|entry: StatusEntry| entry@)
}

/// The entry as a staged file: added, modified or deleted in the index.
pub open spec fn staged_file(entry: StatusEntryView) -> Option<FileStatusView> {
    if entry.flags.index_new {
        Some(FileStatusView { path: entry.path, status: "A"@ })
    } else if entry.flags.index_modified {
        Some(FileStatusView { path: entry.path, status: "M"@ })
    } else if entry.flags.index_deleted {
        Some(FileStatusView { path: entry.path, status: "D"@ })
    } else {
        None
    }
}

/// The entry as an unstaged file: known to the repository, and modified or
/// deleted in the working tree.
pub open spec fn unstaged_file(entry: StatusEntryView) -> Option<FileStatusView> {
    if entry.flags.wt_new {
        None
    } else if entry.flags.wt_modified {
        Some(FileStatusView { path: entry.path, status: "M"@ })
    } else if entry.flags.wt_deleted {
        Some(FileStatusView { path: entry.path, status: "D"@ })
    } else {
        None
    }
}

/// The entry as an untracked file: new in the working tree.
pub open spec fn untracked_file(entry: StatusEntryView) -> Option<FileStatusView> {
    if entry.flags.wt_new {
        Some(FileStatusView { path: entry.path, status: "??"@ })
    } else {
        None
    }
}

/// The files that `pick` makes of the entries, in the order of the entries.
pub open spec fn picked_files(
    entries: Seq<StatusEntryView>,
    pick: spec_fn(StatusEntryView) -> Option<FileStatusView>,
) -> Seq<FileStatusView>
    decreases entries.len(),
{
    if entries.len() == 0 {
        Seq::empty()
    } else {
        let before = picked_files(entries.drop_last(), pick);
        match pick(entries.last()) {
            Some(file) => before.push(file),
            None => before,
        }
    }
}

/// The status made of the entries of the working tree, the name of the
/// branch and its distance to its upstream.
pub open spec fn status_of(
    entries: Seq<StatusEntryView>,
    branch: Seq<char>,
    ahead: nat,
    behind: nat,
) -> RepoStatusView {
    RepoStatusView {
        branch,
        ahead,
        behind,
        staged: picked_files(entries, |entry: StatusEntryView| staged_file(entry)),
        unstaged: picked_files(entries, |entry: StatusEntryView| unstaged_file(entry)),
        untracked: picked_files(entries, |entry: StatusEntryView| untracked_file(entry)),
    }
}

/// Sorts the entries of the working tree into staged, unstaged and
/// untracked files. An entry that is staged and changed again stands in two
/// groups.
pub fn build_status(entries: &Vec<StatusEntry>, branch: String, ahead: usize, behind: usize) -> (status:
    RepoStatus)
    ensures
        status@ == status_of(
            status_entries_view(entries@),
            branch@,
            ahead as nat,
            behind as nat,
        ),
{
    let ghost all = status_entries_view(entries@);
    let ghost staged_pick = |entry: StatusEntryView| staged_file(entry);
    let ghost unstaged_pick = |entry: StatusEntryView| unstaged_file(entry);
    let ghost untracked_pick = |entry: StatusEntryView| untracked_file(entry);
    let mut staged: Vec<FileStatus> = Vec::new();
    let mut unstaged: Vec<FileStatus> = Vec::new();
    let mut untracked: Vec<FileStatus> = Vec::new();
    let mut i: usize = 0;
    while i < entries.len()
        invariant
            i <= entries.len(),
            all == status_entries_view(entries@),
            staged_pick == |entry: StatusEntryView| staged_file(entry),
            unstaged_pick == |entry: StatusEntryView| unstaged_file(entry),
            untracked_pick == |entry: StatusEntryView| untracked_file(entry),
            statuses_view(staged@) == picked_files(all.take(i as int), staged_pick),
            statuses_view(unstaged@) == picked_files(all.take(i as int), unstaged_pick),
            statuses_view(untracked@) == picked_files(all.take(i as int), untracked_pick),
        decreases entries.len() - i,
    {
        let entry = &entries[i];
        let flags = entry.flags;
        assert(all.take(i + 1).drop_last() == all.take(i as int));
        assert(all.take(i + 1).last() == entry@);
        if flags.index_new || flags.index_modified || flags.index_deleted {
            let letter = if flags.index_new {
                "A"
            } else if flags.index_modified {
                "M"
            } else {
                "D"
            };
            let ghost before = statuses_view(staged@);
            staged.push(FileStatus { path: entry.path.clone(), status: String::from_str(letter) });
            assert(statuses_view(staged@) == before.push(staged_file(entry@)->0));
        }
        if flags.wt_new {
            let ghost before = statuses_view(untracked@);
            untracked.push(FileStatus { path: entry.path.clone(), status: String::from_str("??") });
            assert(statuses_view(untracked@) == before.push(untracked_file(entry@)->0));
        } else if flags.wt_modified || flags.wt_deleted {
            let letter = if flags.wt_modified {
                "M"
            } else {
                "D"
            };
            let ghost before = statuses_view(unstaged@);
            unstaged.push(FileStatus { path: entry.path.clone(), status: String::from_str(letter) });
            assert(statuses_view(unstaged@) == before.push(unstaged_file(entry@)->0));
        }
        i += 1;
    }
    assert(all.take(entries.len() as int) == all);
    RepoStatus { branch, ahead, behind, staged, unstaged, untracked }
}

impl RepoStatusView {
    /// The changed files of the three groups in one sequence: staged, then
    /// unstaged, then untracked.
    pub open spec fn all_files(self) -> Seq<FileStatusView> {
        self.staged + self.unstaged + self.untracked
    }
}

/// The lines that list the files of one group, each with a line feed.
pub open spec fn file_lines(files: Seq<FileStatusView>) -> Seq<char>
    decreases files.len(),
{
    if files.len() == 0 {
        Seq::empty()
    } else {
        file_lines(files.drop_last()) + " "@ + files.last().status + " "@ + files.last().path
            + "\n"@
    }
}

/// A group of files under its title, or nothing where the group is empty.
pub open spec fn group_text(title: Seq<char>, files: Seq<FileStatusView>) -> Seq<char> {
    if files.len() == 0 {
        Seq::empty()
    } else {
        title + file_lines(files)
    }
}

/// The line that tells a distance to the upstream, or nothing where the
/// distance is zero.
pub open spec fn distance_text(prefix: Seq<char>, distance: nat) -> Seq<char> {
    if distance > 0 {
        prefix + decimal(distance) + " commits.\n"@
    } else {
        Seq::empty()
    }
}

/// The status as the text that the command line prints.
pub open spec fn status_text(status: RepoStatusView) -> Seq<char> {
    "branch: "@ + status.branch + "\n"@ + distance_text("ahead by "@, status.ahead) + distance_text(
        "behind by "@,
        status.behind,
    ) + group_text("\nstaged changes:\n"@, status.staged) + group_text(
        "\nunstaged changes:\n"@,
        status.unstaged,
    ) + group_text("\nuntracked files:\n"@, status.untracked)
}

/// Appends a group of files under its title.
fn push_group(text: &mut String, title: &str, files: &Vec<FileStatus>)
    ensures
        final(text)@ == old(text)@ + group_text(title@, statuses_view(files@)),
{
    if files.len() == 0 {
        return ;
    }
    let ghost start = text@;
    let ghost all = statuses_view(files@);
    text.append(title);
    let mut i: usize = 0;
    while i < files.len()
        invariant
            i <= files.len(),
            all == statuses_view(files@),
            text@ == start + title@ + file_lines(all.take(i as int)),
        decreases files.len() - i,
    {
        let file = &files[i];
        assert(all.take(i + 1).drop_last() == all.take(i as int));
        assert(all.take(i + 1).last() == file@);
        text.append(" ");
        text.append(file.status.as_str());
        text.append(" ");
        text.append(file.path.as_str());
        text.append("\n");
        i += 1;
    }
    assert(all.take(files.len() as int) == all);
}

/// Appends the line that tells a distance to the upstream.
fn push_distance(text: &mut String, prefix: &str, distance: usize)
    ensures
        final(text)@ == old(text)@ + distance_text(prefix@, distance as nat),
{
    if distance > 0 {
        text.append(prefix);
        push_decimal(text, distance);
        text.append(" commits.\n");
    }
}

impl RepoStatus {
    /// How many changed files there are in the three groups together, where
    /// that number can be held.
    pub fn total_files(&self) -> (total: Option<usize>)
        ensures
            match total {
                Some(count) => count == self@.all_files().len(),
                None => self@.all_files().len() > usize::MAX,
            },
    {
        match self.staged.len().checked_add(self.unstaged.len()) {
            Some(first) => first.checked_add(self.untracked.len()),
            None => None,
        }
    }

    /// Whether there is a changed file with the given number, counting
    /// through staged, unstaged and untracked files.
    pub fn has_file_at(&self, index: usize) -> (found: bool)
        ensures
            found == (index < self@.all_files().len()),
    {
        let staged = self.staged.len();
        if index < staged {
            return true;
        }
        let index = index - staged;
        let unstaged = self.unstaged.len();
        if index < unstaged {
            return true;
        }
        index - unstaged < self.untracked.len()
    }

    /// The path of the changed file with the given number, counting through
    /// staged, unstaged and untracked files.
    pub fn path_at(&self, index: usize) -> (path: Option<String>)
        ensures
            match path {
                Some(found) => index < self@.all_files().len() && found@
                    == self@.all_files()[index as int].path,
                None => index >= self@.all_files().len(),
            },
    {
        let staged = self.staged.len();
        if index < staged {
            assert(self@.staged[index as int] == self.staged@[index as int]@);
            return Some(self.staged[index].path.clone());
        }
        let index = index - staged;
        let unstaged = self.unstaged.len();
        if index < unstaged {
            assert(self@.unstaged[index as int] == self.unstaged@[index as int]@);
            return Some(self.unstaged[index].path.clone());
        }
        let index = index - unstaged;
        if index < self.untracked.len() {
            assert(self@.untracked[index as int] == self.untracked@[index as int]@);
            return Some(self.untracked[index].path.clone());
        }
        None
    }

    /// The status as the text that the command line prints: the branch, its
    /// distance to the upstream where there is one, and each group of files
    /// that is not empty under its title.
    pub fn to_text(&self) -> (text: String)
        ensures
            text@ == status_text(self@),
    {
        let mut text = String::from_str("branch: ");
        text.append(self.branch.as_str());
        text.append("\n");
        push_distance(&mut text, "ahead by ", self.ahead);
        push_distance(&mut text, "behind by ", self.behind);
        push_group(&mut text, "\nstaged changes:\n", &self.staged);
        push_group(&mut text, "\nunstaged changes:\n", &self.unstaged);
        push_group(&mut text, "\nuntracked files:\n", &self.untracked);
        text
    }
}

/// A commit of the log: its identifier, message and author, the time of
/// the commit in seconds since the epoch, and the identifiers of its
/// parents.
#[derive(Debug)]
pub struct Commit {
    pub id: String,
    pub message: String,
    pub author: String,
    pub timestamp: i64,
    pub parents: Vec<String>,
}

/// A commit with its texts as sequences of characters.
pub struct CommitView {
    pub id: Seq<char>,
    pub message: Seq<char>,
    pub author: Seq<char>,
    pub timestamp: i64,
    pub parents: Seq<Seq<char>>,
}

impl View for Commit {
    type V = CommitView;

    open spec fn view(&self) -> CommitView {
        CommitView {
            id: self.id@,
            message: self.message@,
            author: self.author@,
            timestamp: self.timestamp,
            parents: strings_view(self.parents@),
        }
    }
}

impl Clone for Commit {
    fn clone(&self) -> (copy: Self)
        ensures
            copy@ == self@,
    {
        let mut parents: Vec<String> = Vec::new();
        let mut i: usize = 0;
        while i < self.parents.len()
            invariant
                i <= self.parents.len(),
                strings_view(parents@) == strings_view(self.parents@).take(i as int),
            decreases self.parents.len() - i,
        {
            let ghost before = strings_view(parents@);
            parents.push(self.parents[i].clone());
            assert(strings_view(parents@) == before.push(self.parents@[i as int]@));
            assert(strings_view(self.parents@).take(i + 1) == strings_view(self.parents@).take(
                i as int,
            ).push(self.parents@[i as int]@));
            i += 1;
        }
        assert(strings_view(self.parents@).take(self.parents.len() as int) == strings_view(
            self.parents@,
        ));
        Commit {
            id: self.id.clone(),
            message: self.message.clone(),
            author: self.author.clone(),
            timestamp: self.timestamp,
            parents,
        }
    }
}

/// How many characters of an identifier are shown.
pub const SHORT_ID_LEN: usize = 8;

/// The first characters of an identifier: eight, or all where there are
/// fewer.
pub open spec fn short_id(id: Seq<char>) -> Seq<char> {
    if id.len() <= SHORT_ID_LEN {
        id
    } else {
        id.take(SHORT_ID_LEN as int)
    }
}

/// The first line of a text, or nothing where the text has no line.
pub open spec fn first_line(text: Seq<char>) -> Seq<char> {
    if split_lines(text).len() > 0 {
        split_lines(text)[0]
    } else {
        Seq::empty()
    }
}

/// A commit in one line: short identifier, first line of the message, and
/// the author in brackets.
pub open spec fn commit_summary(id: Seq<char>, message: Seq<char>, author: Seq<char>) -> Seq<char> {
    short_id(id) + " "@ + first_line(message) + " ("@ + author + ")"@
}

/// The first characters of an identifier: eight, or all where there are
/// fewer.
pub fn short_id_of(id: &str) -> (short: String)
    ensures
        short@ == short_id(id@),
{
    let chars = chars_of(id);
    if chars.len() <= SHORT_ID_LEN {
        string_of(&chars)
    } else {
        let mut short = String::new();
        let mut i: usize = 0;
        while i < SHORT_ID_LEN
            invariant
                i <= SHORT_ID_LEN < chars.len(),
                short@ == chars@.take(i as int),
            decreases SHORT_ID_LEN - i,
        {
            push_char(&mut short, chars[i]);
            i += 1;
        }
        short
    }
}

/// The first line of a text, or nothing where the text has no line.
pub fn first_line_of(text: &str) -> (line: String)
    ensures
        line@ == first_line(text@),
{
    let chars = chars_of(text);
    let lines = split_into_lines(&chars);
    if lines.len() > 0 {
        assert(lines_view(lines@)[0] == lines@[0]@);
        string_of(&lines[0])
    } else {
        String::new()
    }
}

impl Commit {
    /// The commit in one line: short identifier, first line of the message,
    /// and the author in brackets.
    pub fn summary(&self) -> (text: String)
        ensures
            text@ == commit_summary(self.id@, self.message@, self.author@),
    {
        let mut text = short_id_of(self.id.as_str());
        text.append(" ");
        text.append(first_line_of(self.message.as_str()).as_str());
        text.append(" (");
        text.append(self.author.as_str());
        text.append(")");
        text
    }
}

} // verus!
