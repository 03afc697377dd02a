//! A read-only preview of a commit's changes: what each changed file shows
//! and how the preview is titled.
use vstd::prelude::*;

use crate::text::{decimal, push_decimal, push_str, string_from_str};

verus! {

/// How a previewed file changed.
#[derive(Clone, Copy, Debug, PartialEq, Eq, Structural)]
pub enum CommitDiffPreviewStatus {
    Added,
    Deleted,
    Modified,
    Renamed,
    Copied,
    Typechange,
}

/// One changed file of the commit, with the texts of both sides when they
/// could be loaded.
#[derive(Debug)]
pub struct CommitDiffPreviewFile {
    pub display_path: String,
    pub old_path: Option<String>,
    pub new_path: Option<String>,
    pub status: CommitDiffPreviewStatus,
    pub old_text: Option<String>,
    pub new_text: Option<String>,
    pub is_binary: bool,
    pub is_truncated: bool,
    pub load_error: Option<String>,
}

/// How the preview is shown.
#[derive(Debug)]
pub struct CommitDiffPreviewOptions {
    pub title: String,
    pub context_lines: u32,
    pub reveal_all_hunks: bool,
}

impl Default for CommitDiffPreviewOptions {
    /// Titled "Commit Diff", three lines of context, every hunk revealed.
    fn default() -> (o: Self)
        ensures
            o.title@ == "Commit Diff"@,
            o.context_lines == 3,
            o.reveal_all_hunks,
    {
        CommitDiffPreviewOptions { title: string_from_str("Commit Diff"), context_lines: 3, reveal_all_hunks: true }
    }
}

/// What the preview shows for one file: its place, the path shown in its
/// header, the path its metadata is read from, whether it was deleted, and
/// the two texts compared.
#[derive(Debug)]
pub struct PreviewEntry {
    pub index: usize,
    pub display_path: String,
    pub metadata_path: String,
    pub was_deleted: bool,
    pub old_text: Option<String>,
    pub new_text: String,
}

/// The text of an optional string.
pub open spec fn opt_text(o: Option<String>) -> Option<Seq<char>> {
    match o {
        Some(s) => Some(s@),
        None => None,
    }
}

/// The path a file's metadata is read from: its new path, else its old
/// path, else the path shown.
pub open spec fn metadata_path_of(f: CommitDiffPreviewFile) -> Seq<char> {
    match f.new_path {
        Some(p) => p@,
        None => match f.old_path {
            Some(p) => p@,
            None => f.display_path@,
        },
    }
}

/// The new-side text shown for a file: a note when it could not be loaded,
/// is binary or is too large (in that order); nothing for a deletion;
/// otherwise its new text, or nothing when there is none.
pub open spec fn shown_new_text(f: CommitDiffPreviewFile) -> Seq<char> {
    match f.load_error {
        Some(e) => "Unable to load diff for "@ + f.display_path@ + ": "@ + e@ + "\n"@,
        None => if f.is_binary {
            "Binary file: "@ + f.display_path@ + "\n"@
        } else if f.is_truncated {
            "File too large to preview: "@ + f.display_path@ + "\n"@
        } else if f.status == CommitDiffPreviewStatus::Deleted {
            Seq::empty()
        } else {
            match f.new_text {
                Some(t) => t@,
                None => Seq::empty(),
            }
        },
    }
}

/// The old-side text shown for a file: nothing for a note or an addition,
/// otherwise its old text.
pub open spec fn shown_old_text(f: CommitDiffPreviewFile) -> Option<Seq<char>> {
    if f.load_error is Some || f.is_binary || f.is_truncated || f.status == CommitDiffPreviewStatus::Added {
        None
    } else {
        opt_text(f.old_text)
    }
}

fn note(prefix: &str, path: &String) -> (s: String)
    ensures
        s@ == prefix@ + path@ + "\n"@,
{
    let mut s = string_from_str(prefix);
    push_str(&mut s, path.as_str());
    push_str(&mut s, "\n");
    s
}

impl CommitDiffPreviewFile {
    /// The preview entry of this file, shown at place `index`.
    pub fn into_entry(self, index: usize) -> (e: PreviewEntry)
        ensures
            e.index == index,
            e.display_path@ == self.display_path@,
            e.metadata_path@ == metadata_path_of(self),
            e.was_deleted == (self.status == CommitDiffPreviewStatus::Deleted),
            opt_text(e.old_text) == shown_old_text(self),
            e.new_text@ == shown_new_text(self),
    {
        let ghost f = self;
        let CommitDiffPreviewFile {
            display_path,
            old_path,
            new_path,
            status,
            old_text,
            new_text,
            is_binary,
            is_truncated,
            load_error,
        } = self;
        let metadata_path = match new_path {
            Some(p) => p,
            None => match old_path {
                Some(p) => p,
                None => crate::text::clone_string(&display_path),
            },
        };
        let was_deleted = status == CommitDiffPreviewStatus::Deleted;
        if let Some(error) = load_error {
            let mut t = string_from_str("Unable to load diff for ");
            push_str(&mut t, display_path.as_str());
            push_str(&mut t, ": ");
            push_str(&mut t, error.as_str());
            push_str(&mut t, "\n");
            return PreviewEntry { index, display_path, metadata_path, was_deleted, old_text: None, new_text: t };
        }
        if is_binary {
            let t = note("Binary file: ", &display_path);
            return PreviewEntry { index, display_path, metadata_path, was_deleted, old_text: None, new_text: t };
        }
        if is_truncated {
            let t = note("File too large to preview: ", &display_path);
            return PreviewEntry { index, display_path, metadata_path, was_deleted, old_text: None, new_text: t };
        }
        let new_shown = match new_text {
            Some(t) => t,
            None => String::new(),
        };
        match status {
            CommitDiffPreviewStatus::Added => PreviewEntry {
                index,
                display_path,
                metadata_path,
                was_deleted,
                old_text: None,
                new_text: new_shown,
            },
            CommitDiffPreviewStatus::Deleted => PreviewEntry {
                index,
                display_path,
                metadata_path,
                was_deleted,
                old_text,
                new_text: String::new(),
            },
            _ => PreviewEntry { index, display_path, metadata_path, was_deleted, old_text, new_text: new_shown },
        }
    }
}

/// The title shown for a preview of `file_count` files: the bare title for
/// none, otherwise followed by the count, as `Title (1 file)` or
/// `Title (N files)`.
pub open spec fn preview_title(title: Seq<char>, file_count: nat) -> Seq<char> {
    if file_count == 0 {
        title
    } else if file_count == 1 {
        title + " (1 file)"@
    } else {
        title + " ("@ + decimal(file_count) + " files)"@
    }
}

/// A commit preview: its title, how many files it shows and what it shows
/// for each.
#[derive(Debug)]
pub struct CommitDiffPreview {
    title: String,
    file_count: usize,
    entries: Vec<PreviewEntry>,
}

impl CommitDiffPreview {
    /// The preview of `files`, in order, titled as `options` says.
    pub fn new(files: Vec<CommitDiffPreviewFile>, options: CommitDiffPreviewOptions) -> (p: Self)
        ensures
            p.title_text() == options.title@,
            p.file_count() == files@.len(),
            p.entries().len() == files@.len(),
            forall|i: int| 0 <= i < files@.len() ==> {
                let e = #[trigger] p.entries()[i];
                &&& e.index == i
                &&& e.display_path@ == files@[i].display_path@
                &&& e.metadata_path@ == metadata_path_of(files@[i])
                &&& e.was_deleted == (files@[i].status == CommitDiffPreviewStatus::Deleted)
                &&& opt_text(e.old_text) == shown_old_text(files@[i])
                &&& e.new_text@ == shown_new_text(files@[i])
            },
    {
        let file_count = files.len();
        let ghost given = files@;
        let mut rest = files;
        let mut reversed: Vec<PreviewEntry> = Vec::new();
        while rest.len() > 0
            invariant
                rest@.len() <= file_count,
                file_count == given.len(),
                rest@ == given.take(rest@.len() as int),
                reversed@.len() + rest@.len() == file_count,
                forall|j: int| 0 <= j < reversed@.len() ==> {
                    let e = #[trigger] reversed@[j];
                    let f = given[file_count - 1 - j];
                    &&& e.index == file_count - 1 - j
                    &&& e.display_path@ == f.display_path@
                    &&& e.metadata_path@ == metadata_path_of(f)
                    &&& e.was_deleted == (f.status == CommitDiffPreviewStatus::Deleted)
                    &&& opt_text(e.old_text) == shown_old_text(f)
                    &&& e.new_text@ == shown_new_text(f)
                },
            decreases rest@.len(),
        {
            let ghost before = rest@;
            let f = rest.pop().unwrap();
            proof {
                assert(before =~= rest@.push(f));
                assert(f == given[rest@.len() as int]);
                assert(rest@ =~= given.take(rest@.len() as int));
            }
            let idx = rest.len();
            reversed.push(f.into_entry(idx));
        }
        let n = reversed.len();
        let mut entries: Vec<PreviewEntry> = Vec::new();
        while reversed.len() > 0
            invariant
                n == file_count,
                file_count == given.len(),
                entries@.len() + reversed@.len() == n,
                forall|j: int| 0 <= j < reversed@.len() ==> {
                    let e = #[trigger] reversed@[j];
                    let f = given[file_count - 1 - j];
                    &&& e.index == file_count - 1 - j
                    &&& e.display_path@ == f.display_path@
                    &&& e.metadata_path@ == metadata_path_of(f)
                    &&& e.was_deleted == (f.status == CommitDiffPreviewStatus::Deleted)
                    &&& opt_text(e.old_text) == shown_old_text(f)
                    &&& e.new_text@ == shown_new_text(f)
                },
                forall|i: int| 0 <= i < entries@.len() ==> {
                    let e = #[trigger] entries@[i];
                    let f = given[i];
                    &&& e.index == i
                    &&& e.display_path@ == f.display_path@
                    &&& e.metadata_path@ == metadata_path_of(f)
                    &&& e.was_deleted == (f.status == CommitDiffPreviewStatus::Deleted)
                    &&& opt_text(e.old_text) == shown_old_text(f)
                    &&& e.new_text@ == shown_new_text(f)
                },
            decreases reversed@.len(),
        {
            let ghost before = reversed@;
            let e = reversed.pop().unwrap();
            proof {
                assert(before =~= reversed@.push(e));
                assert(e == before[reversed@.len() as int]);
            }
            entries.push(e);
        }
        CommitDiffPreview { title: options.title, file_count, entries }
    }

    /// The title given in the options.
    pub closed spec fn title_text(&self) -> Seq<char> {
        self.title@
    }

    /// How many files the preview shows.
    pub closed spec fn file_count(&self) -> nat {
        self.file_count as nat
    }

    /// What the preview shows for each file, in order.
    pub closed spec fn entries(&self) -> Seq<PreviewEntry> {
        self.entries@
    }

    /// The entries, for the editor to lay out.
    pub fn preview_entries(&self) -> (v: &Vec<PreviewEntry>)
        ensures
            v@ == self.entries(),
    {
        &self.entries
    }

    /// The tab title: the options' title, followed by the file count when
    /// there are files.
    pub fn title(&self) -> (t: String)
        ensures
            t@ == preview_title(self.title_text(), self.file_count()),
    {
        let mut t = string_from_str(self.title.as_str());
        if self.file_count == 0 {
            return t;
        }
        if self.file_count == 1 {
            push_str(&mut t, " (1 file)");
        } else {
            push_str(&mut t, " (");
            push_decimal(&mut t, self.file_count as u64);
            push_str(&mut t, " files)");
        }
        t
    }
}

} // verus!
