//! The staging view's lists: which changed files appear as staged, which as
//! unstaged (a partly staged file appears in both), the rows' labels and
//! what clicking a row asks for.
use vstd::prelude::*;

use crate::text::{clone_string, decimal, push_decimal, push_str, string_from_str};
use crate::ui_state::{status_letter, FileStatus};

verus! {

/// How much of a file's change is in the index.
#[derive(Debug, Clone, Copy, PartialEq, Eq, Structural)]
pub enum StageStatus {
    Staged,
    Unstaged,
    PartiallyStaged,
}

/// A changed file as the repository reports it.
#[derive(Debug)]
pub struct StatusEntry {
    pub repo_path: String,
    pub status: FileStatus,
    pub staging: StageStatus,
}

/// A row of the staging view: the file, its status, and the list it is in.
#[derive(Debug)]
pub struct StagingEntry {
    pub repo_path: String,
    pub status: FileStatus,
    pub is_staged: bool,
}

/// A row as text and values.
pub struct RowView {
    pub repo_path: Seq<char>,
    pub status: FileStatus,
    pub is_staged: bool,
}

/// The rows' views.
pub open spec fn row_views(v: Seq<StagingEntry>) -> Seq<RowView> {
    v.map_values(|e: StagingEntry| RowView { repo_path: e.repo_path@, status: e.status, is_staged: e.is_staged })
}

/// The row of an entry in one of the lists.
pub open spec fn row_of(e: StatusEntry, staged: bool) -> RowView {
    RowView { repo_path: e.repo_path@, status: e.status, is_staged: staged }
}

/// The staged rows: entries that are staged or partly staged, in order.
pub open spec fn staged_rows(v: Seq<StatusEntry>) -> Seq<RowView>
    decreases v.len(),
{
    if v.len() == 0 {
        Seq::empty()
    } else if v.last().staging == StageStatus::Unstaged {
        staged_rows(v.drop_last())
    } else {
        staged_rows(v.drop_last()).push(row_of(v.last(), true))
    }
}

/// The unstaged rows: entries that are unstaged or partly staged, in order.
pub open spec fn unstaged_rows(v: Seq<StatusEntry>) -> Seq<RowView>
    decreases v.len(),
{
    if v.len() == 0 {
        Seq::empty()
    } else if v.last().staging == StageStatus::Staged {
        unstaged_rows(v.drop_last())
    } else {
        unstaged_rows(v.drop_last()).push(row_of(v.last(), false))
    }
}

/// What clicking a row asks the repository to do with the file.
pub enum RowClick {
    Stage(String),
    Unstage(String),
}

/// The staging view: the staged and the unstaged rows.
pub struct StagingView {
    staged: Vec<StagingEntry>,
    unstaged: Vec<StagingEntry>,
}

impl StagingView {
    /// The staged rows.
    pub closed spec fn staged(&self) -> Seq<RowView> {
        row_views(self.staged@)
    }

    /// The unstaged rows.
    pub closed spec fn unstaged(&self) -> Seq<RowView> {
        row_views(self.unstaged@)
    }

    /// An empty view.
    pub fn new() -> (v: Self)
        ensures
            v.staged().len() == 0,
            v.unstaged().len() == 0,
    {
        StagingView { staged: Vec::new(), unstaged: Vec::new() }
    }

    /// Rebuild the lists from the repository's statuses; without a
    /// repository both lists are empty.
    pub fn refresh_statuses(&mut self, statuses: Option<&Vec<StatusEntry>>)
        ensures
            match statuses {
                Some(v) => final(self).staged() == staged_rows(v@) && final(self).unstaged() == unstaged_rows(v@),
                None => final(self).staged().len() == 0 && final(self).unstaged().len() == 0,
            },
    {
        self.staged = Vec::new();
        self.unstaged = Vec::new();
        let v = match statuses {
            Some(v) => v,
            None => {
                return;
            },
        };
        let n = v.len();
        let mut staged: Vec<StagingEntry> = Vec::new();
        let mut unstaged: Vec<StagingEntry> = Vec::new();
        let mut i: usize = 0;
        while i < n
            invariant
                n == v@.len(),
                i <= n,
                row_views(staged@) == staged_rows(v@.take(i as int)),
                row_views(unstaged@) == unstaged_rows(v@.take(i as int)),
            decreases n - i,
        {
            let e = &v[i];
            proof {
                assert(v@.take(i + 1).drop_last() =~= v@.take(i as int));
                assert(v@.take(i + 1).last() == v@[i as int]);
            }
            let ghost s0 = row_views(staged@);
            let ghost u0 = row_views(unstaged@);
            match e.staging {
                StageStatus::Staged => {
                    staged.push(StagingEntry { repo_path: clone_string(&e.repo_path), status: e.status, is_staged: true });
                },
                StageStatus::Unstaged => {
                    unstaged.push(
                        StagingEntry { repo_path: clone_string(&e.repo_path), status: e.status, is_staged: false },
                    );
                },
                StageStatus::PartiallyStaged => {
                    staged.push(StagingEntry { repo_path: clone_string(&e.repo_path), status: e.status, is_staged: true });
                    unstaged.push(
                        StagingEntry { repo_path: clone_string(&e.repo_path), status: e.status, is_staged: false },
                    );
                },
            }
            proof {
                if e.staging == StageStatus::Unstaged {
                    assert(row_views(staged@) =~= s0);
                } else {
                    assert(row_views(staged@) =~= s0.push(row_of(v@[i as int], true)));
                }
                if e.staging == StageStatus::Staged {
                    assert(row_views(unstaged@) =~= u0);
                } else {
                    assert(row_views(unstaged@) =~= u0.push(row_of(v@[i as int], false)));
                }
            }
            i = i + 1;
        }
        proof {
            assert(v@.take(n as int) =~= v@);
        }
        self.staged = staged;
        self.unstaged = unstaged;
    }

    /// The heading of the staged list: `Staged (n)`.
    pub fn staged_heading(&self) -> (s: String)
        ensures
            s@ == "Staged ("@ + decimal(self.staged().len()) + ")"@,
    {
        let mut s = string_from_str("Staged (");
        push_decimal(&mut s, self.staged.len() as u64);
        push_str(&mut s, ")");
        s
    }

    /// The heading of the unstaged list: `Unstaged (n)`.
    pub fn unstaged_heading(&self) -> (s: String)
        ensures
            s@ == "Unstaged ("@ + decimal(self.unstaged().len()) + ")"@,
    {
        let mut s = string_from_str("Unstaged (");
        push_decimal(&mut s, self.unstaged.len() as u64);
        push_str(&mut s, ")");
        s
    }
}

/// The element id of a row: `file-s-` or `file-u-` and the path.
pub fn row_id(entry: &StagingEntry) -> (s: String)
    ensures
        s@ == (if entry.is_staged {
            "file-s-"@
        } else {
            "file-u-"@
        }) + entry.repo_path@,
{
    let mut s = if entry.is_staged {
        string_from_str("file-s-")
    } else {
        string_from_str("file-u-")
    };
    push_str(&mut s, entry.repo_path.as_str());
    s
}

/// The letter a row shows.
pub fn row_letter(entry: &StagingEntry) -> (c: char)
    ensures
        c == status_letter(entry.status, entry.is_staged),
{
    crate::ui_state::status_char(entry.status, entry.is_staged)
}

/// Clicking a staged row unstages its file; clicking an unstaged row
/// stages it.
pub fn row_click(entry: &StagingEntry) -> (c: RowClick)
    ensures
        entry.is_staged ==> (c matches RowClick::Unstage(p) && p@ == entry.repo_path@),
        !entry.is_staged ==> (c matches RowClick::Stage(p) && p@ == entry.repo_path@),
{
    if entry.is_staged {
        RowClick::Unstage(clone_string(&entry.repo_path))
    } else {
        RowClick::Stage(clone_string(&entry.repo_path))
    }
}

} // verus!

verus! {

/// Every row of the staged list is marked staged and every row of the
/// unstaged list is marked unstaged; each list has one row per file that
/// belongs in it (a partly staged file in both), with that file's path and
/// status.
pub proof fn law_rows_are_marked_by_their_list(v: Seq<StatusEntry>)
    ensures
        forall|i: int| 0 <= i < staged_rows(v).len() ==> (#[trigger] staged_rows(v)[i]).is_staged,
        forall|i: int| 0 <= i < unstaged_rows(v).len() ==> !(#[trigger] unstaged_rows(v)[i]).is_staged,
        forall|i: int|
            0 <= i < staged_rows(v).len() ==> exists|k: int|
                0 <= k < v.len() && v[k].staging != StageStatus::Unstaged && (#[trigger] staged_rows(v)[i]).repo_path
                    == v[k].repo_path@ && staged_rows(v)[i].status == v[k].status,
        forall|i: int|
            0 <= i < unstaged_rows(v).len() ==> exists|k: int|
                0 <= k < v.len() && v[k].staging != StageStatus::Staged && (#[trigger] unstaged_rows(v)[i]).repo_path
                    == v[k].repo_path@ && unstaged_rows(v)[i].status == v[k].status,
    decreases v.len(),
{
    if v.len() > 0 {
        let p = v.drop_last();
        law_rows_are_marked_by_their_list(p);
        assert forall|i: int|
            0 <= i < staged_rows(v).len() implies exists|k: int|
                0 <= k < v.len() && v[k].staging != StageStatus::Unstaged && (#[trigger] staged_rows(v)[i]).repo_path
                    == v[k].repo_path@ && staged_rows(v)[i].status == v[k].status by {
            if i < staged_rows(p).len() {
                let k = choose|k: int|
                    0 <= k < p.len() && p[k].staging != StageStatus::Unstaged && staged_rows(p)[i].repo_path
                        == p[k].repo_path@ && staged_rows(p)[i].status == p[k].status;
                assert(v[k] == p[k]);
            } else {
                assert(v[v.len() - 1] == v.last());
            }
        }
        assert forall|i: int|
            0 <= i < unstaged_rows(v).len() implies exists|k: int|
                0 <= k < v.len() && v[k].staging != StageStatus::Staged && (#[trigger] unstaged_rows(v)[i]).repo_path
                    == v[k].repo_path@ && unstaged_rows(v)[i].status == v[k].status by {
            if i < unstaged_rows(p).len() {
                let k = choose|k: int|
                    0 <= k < p.len() && p[k].staging != StageStatus::Staged && unstaged_rows(p)[i].repo_path
                        == p[k].repo_path@ && unstaged_rows(p)[i].status == p[k].status;
                assert(v[k] == p[k]);
            } else {
                assert(v[v.len() - 1] == v.last());
            }
        }
    }
}

} // verus!
