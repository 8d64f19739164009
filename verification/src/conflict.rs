//! The conflict model: hunks, conflicted files, a merge in progress, and the
//! ways to resolve a hunk.

use vstd::prelude::*;
use vstd::string::StringExecFns;
use crate::text::{line_feed, push_char};

verus! {

/// How one hunk is to be resolved.
#[derive(Debug)]
pub enum MergeResolution {
    KeepOurs,
    KeepTheirs,
    KeepBoth,
    Custom(String),
}

/// A resolution with its text as a sequence of characters.
pub enum ResolutionView {
    KeepOurs,
    KeepTheirs,
    KeepBoth,
    Custom(Seq<char>),
}

impl View for MergeResolution {
    type V = ResolutionView;

    open spec fn view(&self) -> ResolutionView {
        match self {
            MergeResolution::KeepOurs => ResolutionView::KeepOurs,
            MergeResolution::KeepTheirs => ResolutionView::KeepTheirs,
            MergeResolution::KeepBoth => ResolutionView::KeepBoth,
            MergeResolution::Custom(text) => ResolutionView::Custom(text@),
        }
    }
}

impl Clone for MergeResolution {
    fn clone(&self) -> (copy: Self)
        ensures
            copy@ == self@,
    {
        match self {
            MergeResolution::KeepOurs => MergeResolution::KeepOurs,
            MergeResolution::KeepTheirs => MergeResolution::KeepTheirs,
            MergeResolution::KeepBoth => MergeResolution::KeepBoth,
            MergeResolution::Custom(text) => MergeResolution::Custom(text.clone()),
        }
    }
}

/// One conflict region of a file. The line numbers count from zero and are
/// those of the start and end markers.
#[derive(Debug)]
pub struct ConflictHunk {
    pub start_line: usize,
    pub end_line: usize,
    pub our_content: String,
    pub their_content: String,
    pub base_content: Option<String>,
}

/// A hunk with its texts as sequences of characters.
pub struct HunkView {
    pub start_line: nat,
    pub end_line: nat,
    pub ours: Seq<char>,
    pub theirs: Seq<char>,
    pub base: Option<Seq<char>>,
}

impl View for ConflictHunk {
    type V = HunkView;

    open spec fn view(&self) -> HunkView {
        HunkView {
            start_line: self.start_line as nat,
            end_line: self.end_line as nat,
            ours: self.our_content@,
            theirs: self.their_content@,
            base: match self.base_content {
                Some(base) => Some(base@),
                None => None,
            },
        }
    }
}

/// The text that a resolution puts in place of a hunk.
pub open spec fn resolved_text(hunk: HunkView, resolution: ResolutionView) -> Seq<char> {
    match resolution {
        ResolutionView::KeepOurs => hunk.ours,
        ResolutionView::KeepTheirs => hunk.theirs,
        ResolutionView::KeepBoth => hunk.ours + seq![line_feed()] + hunk.theirs,
        ResolutionView::Custom(text) => text,
    }
}

impl HunkView {
    /// The end marker lies after the start marker.
    pub open spec fn wf(self) -> bool {
        self.start_line < self.end_line
    }
}

impl Clone for ConflictHunk {
    fn clone(&self) -> (copy: Self)
        ensures
            copy@ == self@,
    {
        ConflictHunk {
            start_line: self.start_line,
            end_line: self.end_line,
            our_content: self.our_content.clone(),
            their_content: self.their_content.clone(),
            base_content: match &self.base_content {
                Some(base) => Some(base.clone()),
                None => None,
            },
        }
    }
}

impl ConflictHunk {
    /// The text that `resolution` puts in place of this hunk: our side, their
    /// side, ours then theirs with a line feed between, or the custom text.
    pub fn resolve(&self, resolution: &MergeResolution) -> (text: String)
        ensures
            text@ == resolved_text(self@, resolution@),
    {
        match resolution {
            MergeResolution::KeepOurs => self.our_content.clone(),
            MergeResolution::KeepTheirs => self.their_content.clone(),
            MergeResolution::KeepBoth => {
                let mut text = self.our_content.clone();
                push_char(&mut text, '\n');
                text.append(self.their_content.as_str());
                text
            },
            MergeResolution::Custom(content) => content.clone(),
        }
    }
}

/// The views of a sequence of hunks.
pub open spec fn hunks_view(hunks: Seq<ConflictHunk>) -> Seq<HunkView> {
    hunks.map_values(|hunk: ConflictHunk| hunk@)
}

/// A file of the working tree with the hunks found in it, in file order.
#[derive(Debug)]
pub struct ConflictedFile {
    pub path: String,
    pub conflicts: Vec<ConflictHunk>,
}

/// A conflicted file with its texts as sequences of characters.
pub struct FileView {
    pub path: Seq<char>,
    pub hunks: Seq<HunkView>,
}

impl View for ConflictedFile {
    type V = FileView;

    open spec fn view(&self) -> FileView {
        FileView { path: self.path@, hunks: hunks_view(self.conflicts@) }
    }
}

impl Clone for ConflictedFile {
    fn clone(&self) -> (copy: Self)
        ensures
            copy@ == self@,
    {
        let mut conflicts: Vec<ConflictHunk> = Vec::new();
        let mut i: usize = 0;
        while i < self.conflicts.len()
            invariant
                i <= self.conflicts.len(),
                hunks_view(conflicts@) == hunks_view(self.conflicts@).take(i as int),
            decreases self.conflicts.len() - i,
        {
            let ghost before = hunks_view(conflicts@);
            conflicts.push(self.conflicts[i].clone());
            assert(hunks_view(conflicts@) == before.push(self.conflicts@[i as int]@));
            assert(hunks_view(self.conflicts@).take(i + 1) == hunks_view(self.conflicts@).take(
                i as int,
            ).push(self.conflicts@[i as int]@));
            i += 1;
        }
        assert(hunks_view(self.conflicts@).take(self.conflicts.len() as int) == hunks_view(
            self.conflicts@,
        ));
        ConflictedFile { path: self.path.clone(), conflicts }
    }
}

impl FileView {
    /// The file has a hunk, every hunk ends after it starts, and each hunk
    /// starts after the one before it has ended.
    pub open spec fn wf(self) -> bool {
        &&& self.hunks.len() > 0
        &&& forall|k: int| 0 <= k < self.hunks.len() ==> (#[trigger] self.hunks[k]).wf()
        &&& forall|j: int, k: int|
            0 <= j < k < self.hunks.len() ==> (#[trigger] self.hunks[j]).end_line < (
            #[trigger] self.hunks[k]).start_line
    }
}

/// The views of a sequence of conflicted files.
pub open spec fn files_view(files: Seq<ConflictedFile>) -> Seq<FileView> {
    files.map_values(|file: ConflictedFile| file@)
}

/// A merge in progress: the conflicted files, the commit at the tip of the
/// current branch and the commit being merged in.
#[derive(Debug)]
pub struct MergeConflict {
    pub files: Vec<ConflictedFile>,
    pub our_commit: String,
    pub their_commit: String,
}

/// A merge in progress with its texts as sequences of characters.
pub struct ConflictView {
    pub files: Seq<FileView>,
    pub our_commit: Seq<char>,
    pub their_commit: Seq<char>,
}

impl View for MergeConflict {
    type V = ConflictView;

    open spec fn view(&self) -> ConflictView {
        ConflictView {
            files: files_view(self.files@),
            our_commit: self.our_commit@,
            their_commit: self.their_commit@,
        }
    }
}

impl Clone for MergeConflict {
    fn clone(&self) -> (copy: Self)
        ensures
            copy@ == self@,
    {
        let mut files: Vec<ConflictedFile> = Vec::new();
        let mut i: usize = 0;
        while i < self.files.len()
            invariant
                i <= self.files.len(),
                files_view(files@) == files_view(self.files@).take(i as int),
            decreases self.files.len() - i,
        {
            let ghost before = files_view(files@);
            files.push(self.files[i].clone());
            assert(files_view(files@) == before.push(self.files@[i as int]@));
            assert(files_view(self.files@).take(i + 1) == files_view(self.files@).take(
                i as int,
            ).push(self.files@[i as int]@));
            i += 1;
        }
        assert(files_view(self.files@).take(self.files.len() as int) == files_view(self.files@));
        MergeConflict {
            files,
            our_commit: self.our_commit.clone(),
            their_commit: self.their_commit.clone(),
        }
    }
}

impl ConflictView {
    /// There is a conflicted file, and every file is well formed.
    pub open spec fn wf(self) -> bool {
        &&& self.files.len() > 0
        &&& forall|f: int| 0 <= f < self.files.len() ==> (#[trigger] self.files[f]).wf()
    }

    /// The pair addresses a hunk of this conflict.
    pub open spec fn has_hunk(self, file_index: int, hunk_index: int) -> bool {
        0 <= file_index < self.files.len() && 0 <= hunk_index < self.files[file_index].hunks.len()
    }
}

} // verus!
