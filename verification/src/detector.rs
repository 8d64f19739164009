//! Deciding whether a merge is in progress and which files are in conflict.
//!
//! The caller looks at the repository and hands over what it found: the
//! sentinel file of the merge state, the entries of the working tree with
//! the content of the conflicted ones, and the tip of the current branch.

use vstd::prelude::*;
use crate::conflict::{files_view, ConflictView, ConflictedFile, FileView, MergeConflict};
use crate::error::MergeError;
use crate::parser::{conflict_hunks, lemma_hunks_from_ordered, parse_conflicted_file};
use crate::text::{split_lines, trim, trimmed};

verus! {

/// The character is a digit of a hexadecimal number, in either case.
pub open spec fn is_hex_digit(c: char) -> bool {
    ('0' <= c && c <= '9') || ('a' <= c && c <= 'f') || ('A' <= c && c <= 'F')
}

/// The text is a commit identifier: one to forty hexadecimal digits.
pub open spec fn is_commit_id(text: Seq<char>) -> bool {
    1 <= text.len() <= 40 && forall|i: int| 0 <= i < text.len() ==> is_hex_digit(#[trigger] text[i])
}

/// `git2::Oid`, the identity of an object of a repository. Nothing is said
/// of what it holds.
#[verifier::external_type_specification]
#[verifier::external_body]
pub struct ExOid(git2::Oid);

/// `git2::Error`, the error of an operation of `git2`. Nothing is said of
/// what it holds.
#[verifier::external_type_specification]
#[verifier::external_body]
pub struct ExGitError(git2::Error);

/// `git2::Oid::from_str`: an object id is parsed from a text of one to forty
/// hexadecimal digits, and from no other text.
#[verifier::external_body]
fn parse_oid(text: &str) -> (parsed: Result<git2::Oid, git2::Error>)
    ensures
        parsed is Ok <==> is_commit_id(text@),
{
    git2::Oid::from_str(text)
}

/// Whether the text is a commit identifier.
pub fn holds_commit_id(text: &str) -> (valid: bool)
    ensures
        valid == is_commit_id(text@),
{
    parse_oid(text).is_ok()
}

/// The sentinel file of the merge state, as the caller found it.
#[derive(Debug)]
pub enum Sentinel {
    /// There is no sentinel: no merge is in progress.
    Absent,
    /// There is one, and it could not be read.
    Unreadable,
    /// There is one, with this content.
    Present(String),
}

/// A sentinel with its content as a sequence of characters.
pub enum SentinelView {
    Absent,
    Unreadable,
    Present(Seq<char>),
}

impl View for Sentinel {
    type V = SentinelView;

    open spec fn view(&self) -> SentinelView {
        match self {
            Sentinel::Absent => SentinelView::Absent,
            Sentinel::Unreadable => SentinelView::Unreadable,
            Sentinel::Present(content) => SentinelView::Present(content@),
        }
    }
}

/// An entry of the working tree: its path, whether the repository flags it
/// as conflicted, and its content where the caller could read it.
#[derive(Debug)]
pub struct TreeEntry {
    pub path: String,
    pub conflicted: bool,
    pub content: Option<String>,
}

/// An entry with its texts as sequences of characters.
pub struct EntryView {
    pub path: Seq<char>,
    pub conflicted: bool,
    pub content: Option<Seq<char>>,
}

impl View for TreeEntry {
    type V = EntryView;

    open spec fn view(&self) -> EntryView {
        EntryView {
            path: self.path@,
            conflicted: self.conflicted,
            content: match self.content {
                Some(content) => Some(content@),
                None => None,
            },
        }
    }
}

/// The views of a sequence of entries.
pub open spec fn entries_view(entries: Seq<TreeEntry>) -> Seq<EntryView> {
    entries.map_values(|entry: TreeEntry| entry@)
}

/// The conflicted file that an entry stands for: it is flagged as
/// conflicted, its content was read and holds a hunk.
pub open spec fn entry_file(entry: EntryView) -> Option<FileView> {
    if entry.conflicted && entry.content is Some && conflict_hunks(entry.content->0).len() > 0 {
        Some(FileView { path: entry.path, hunks: conflict_hunks(entry.content->0) })
    } else {
        None
    }
}

/// The conflicted files among the entries, in the order of the entries.
pub open spec fn conflicted_files(entries: Seq<EntryView>) -> Seq<FileView>
    decreases entries.len(),
{
    if entries.len() == 0 {
        Seq::empty()
    } else {
        let before = conflicted_files(entries.drop_last());
        match entry_file(entries.last()) {
            Some(file) => before.push(file),
            None => before,
        }
    }
}

/// What detection finds. Without a sentinel no merge is in progress,
/// whatever else is handed over. With one, the working tree must have been
/// listed; where no entry is a conflicted file there is no conflict to
/// review; else the tip of the branch must be known and the sentinel must
/// hold a commit identifier between whitespace.
pub open spec fn detection(
    sentinel: SentinelView,
    entries: Option<Seq<EntryView>>,
    branch_tip: Option<Seq<char>>,
) -> Result<Option<ConflictView>, MergeError> {
    if sentinel is Absent {
        Ok(None)
    } else if entries is None {
        Err(MergeError::BackendFailure)
    } else if conflicted_files(entries->0).len() == 0 {
        Ok(None)
    } else if branch_tip is None {
        Err(MergeError::BackendFailure)
    } else {
        match sentinel {
            SentinelView::Present(content) if is_commit_id(trim(content)) => Ok(
                Some(
                    ConflictView {
                        files: conflicted_files(entries->0),
                        our_commit: branch_tip->0,
                        their_commit: trim(content),
                    },
                ),
            ),
            _ => Err(MergeError::NotFound),
        }
    }
}

/// A detection result as a mathematical value.
pub open spec fn detected_view(found: Result<Option<MergeConflict>, MergeError>) -> Result<
    Option<ConflictView>,
    MergeError,
> {
    match found {
        Ok(Some(conflict)) => Ok(Some(conflict@)),
        Ok(None) => Ok(None),
        Err(error) => Err(error),
    }
}

/// Without a sentinel nothing is detected, whatever the working tree holds
/// and whether or not the tip is known.
pub proof fn lemma_no_sentinel_no_conflict(
    entries: Option<Seq<EntryView>>,
    branch_tip: Option<Seq<char>>,
)
    ensures
        detection(SentinelView::Absent, entries, branch_tip) == Ok::<
            Option<ConflictView>,
            MergeError,
        >(None),
{
}

/// Every conflicted file among the entries is well formed.
pub proof fn lemma_conflicted_files_wf(entries: Seq<EntryView>)
    ensures
        forall|f: int|
            0 <= f < conflicted_files(entries).len() ==> (#[trigger] conflicted_files(
                entries,
            )[f]).wf(),
    decreases entries.len(),
{
    if entries.len() > 0 {
        lemma_conflicted_files_wf(entries.drop_last());
        let before = conflicted_files(entries.drop_last());
        match entry_file(entries.last()) {
            Some(file) => {
                lemma_hunks_from_ordered(split_lines(entries.last().content->0), 0);
                assert(file.wf());
                assert forall|f: int| 0 <= f < before.push(file).len() implies (
                #[trigger] before.push(file)[f]).wf() by {
                    if f < before.len() {
                        assert(before.push(file)[f] == before[f]);
                    }
                }
            },
            None => {},
        }
    }
}

/// A conflict that detection finds is well formed.
pub proof fn lemma_detection_wf(
    sentinel: SentinelView,
    entries: Option<Seq<EntryView>>,
    branch_tip: Option<Seq<char>>,
)
    ensures
        detection(sentinel, entries, branch_tip) matches Ok(Some(conflict)) ==> conflict.wf(),
{
    if entries is Some {
        lemma_conflicted_files_wf(entries->0);
    }
}

/// The conflicted files among the entries, each with its hunks.
fn collect_conflicted_files(entries: &Vec<TreeEntry>) -> (files: Vec<ConflictedFile>)
    ensures
        files_view(files@) == conflicted_files(entries_view(entries@)),
{
    let ghost all = entries_view(entries@);
    let mut files: Vec<ConflictedFile> = Vec::new();
    let mut i: usize = 0;
    while i < entries.len()
        invariant
            i <= entries.len(),
            all == entries_view(entries@),
            files_view(files@) == conflicted_files(all.take(i as int)),
        decreases entries.len() - i,
    {
        let entry = &entries[i];
        assert(all.take(i + 1).drop_last() == all.take(i as int));
        assert(all.take(i + 1).last() == entry@);
        if entry.conflicted {
            match &entry.content {
                Some(content) => {
                    let hunks = parse_conflicted_file(content.as_str());
                    if hunks.len() > 0 {
                        let file = ConflictedFile { path: entry.path.clone(), conflicts: hunks };
                        let ghost before = files_view(files@);
                        files.push(file);
                        assert(files_view(files@) == before.push(entry_file(entry@)->0));
                    }
                },
                None => {},
            }
        }
        i += 1;
    }
    assert(all.take(entries.len() as int) == all);
    files
}

/// Decides whether a merge is in progress and collects the conflicted
/// files. Nothing is changed anywhere.
pub fn detect_merge_conflicts(
    sentinel: &Sentinel,
    entries: &Option<Vec<TreeEntry>>,
    branch_tip: &Option<String>,
) -> (found: Result<Option<MergeConflict>, MergeError>)
    ensures
        detected_view(found) == detection(
            sentinel@,
            match entries {
                Some(listed) => Some(entries_view(listed@)),
                None => None,
            },
            match branch_tip {
                Some(tip) => Some(tip@),
                None => None,
            },
        ),
        found matches Ok(Some(conflict)) ==> conflict@.wf(),
{
    proof {
        lemma_detection_wf(
            sentinel@,
            match entries {
                Some(listed) => Some(entries_view(listed@)),
                None => None,
            },
            match branch_tip {
                Some(tip) => Some(tip@),
                None => None,
            },
        );
    }
    if let Sentinel::Absent = sentinel {
        return Ok(None);
    }
    let files = match entries {
        Some(listed) => collect_conflicted_files(listed),
        None => {
            return Err(MergeError::BackendFailure);
        },
    };
    if files.len() == 0 {
        return Ok(None);
    }
    let our_commit = match branch_tip {
        Some(tip) => tip.clone(),
        None => {
            return Err(MergeError::BackendFailure);
        },
    };
    match sentinel {
        Sentinel::Present(content) => {
            let their_commit = trimmed(content.as_str());
            if holds_commit_id(their_commit.as_str()) {
                Ok(Some(MergeConflict { files, our_commit, their_commit }))
            } else {
                Err(MergeError::NotFound)
            }
        },
        _ => Err(MergeError::NotFound),
    }
}

} // verus!
