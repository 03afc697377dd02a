//! What the pull-request panels show: the view's mode and tab title, the
//! header of the staging view, the pull-request detail's buttons and
//! badges, the labels of the pull-request list and of the diff file list,
//! and how each line of a unified diff is highlighted.
use vstd::prelude::*;
use vstd::utf8::{decode_utf8, encode_utf8, is_char_boundary};

use crate::agent::git_tools::{first_line, split_lines, text_lines};
use crate::agent::mcp::push_signed;
use crate::agent::tools::truncate_bytes;
use crate::pr::diff::{BranchDiff, DiffFileEntry};
use crate::pr::error::signed_decimal;
use crate::branches::TrackingStatus;
use crate::pr::types::{LocalPr, PrStatus};
use crate::text::{
    chars_of, decimal, push_decimal, push_str, split_on, starts_with, starts_with_exec, string_from_chars,
    string_from_str, utf8_len,
};

verus! {

/// `source → target`.
pub open spec fn branch_pair(source: Seq<char>, target: Seq<char>) -> Seq<char> {
    source + " → "@ + target
}

/// `source → target`, as the panels show a branch pair.
pub fn branch_pair_text(source: &str, target: &str) -> (s: String)
    ensures
        s@ == branch_pair(source@, target@),
{
    let mut s = string_from_str(source);
    push_str(&mut s, " → ");
    push_str(&mut s, target);
    s
}

/// What the main view shows: the working tree's staging area, a pull
/// request, or a comparison of two branches.
pub enum ViewMode {
    Staging,
    PrDetail(LocalPr),
    BranchCompare { source_branch: String, target_branch: String, source_oid: String, target_oid: String },
}

/// The tab title of each mode.
pub open spec fn tab_title_text(m: ViewMode) -> Seq<char> {
    match m {
        ViewMode::Staging => "CherryPick"@,
        ViewMode::PrDetail(pr) => "PR: "@ + pr.title@,
        ViewMode::BranchCompare { source_branch, target_branch, .. } => branch_pair(
            source_branch@,
            target_branch@,
        ),
    }
}

impl ViewMode {
    /// The tab title: the app's name when staging, `PR: ` and the title
    /// for a pull request, the branch pair for a comparison.
    pub fn tab_title(&self) -> (t: String)
        ensures
            t@ == tab_title_text(*self),
    {
        match self {
            ViewMode::Staging => string_from_str("CherryPick"),
            ViewMode::PrDetail(pr) => {
                let mut t = string_from_str("PR: ");
                push_str(&mut t, pr.title.as_str());
                t
            },
            ViewMode::BranchCompare { source_branch, target_branch, .. } => branch_pair_text(
                source_branch.as_str(),
                target_branch.as_str(),
            ),
        }
    }

    /// The two tips whose diff the mode shows: none when staging.
    pub fn diff_tips(&self) -> (r: Option<(&str, &str)>)
        ensures
            match *self {
                ViewMode::Staging => r is None,
                ViewMode::PrDetail(pr) => r matches Some((s, t)) && s@ == pr.source_oid@ && t@ == pr.target_oid@,
                ViewMode::BranchCompare { source_oid, target_oid, .. } => r matches Some((s, t)) && s@
                    == source_oid@ && t@ == target_oid@,
            },
    {
        match self {
            ViewMode::Staging => None,
            ViewMode::PrDetail(pr) => Some((pr.source_oid.as_str(), pr.target_oid.as_str())),
            ViewMode::BranchCompare { source_oid, target_oid, .. } => Some(
                (source_oid.as_str(), target_oid.as_str()),
            ),
        }
    }
}

/// How a line of a unified diff is highlighted.
#[derive(Debug, Clone, Copy, PartialEq, Eq, Structural)]
pub enum DiffLineKind {
    /// An added line (not the `+++` file header): added color and background.
    Added,
    /// A removed line (not the `---` file header): deleted color and background.
    Deleted,
    /// A hunk header: muted.
    Hunk,
    /// A `diff ` or `index ` header line: muted.
    Meta,
    /// Anything else: plain text.
    Context,
}

/// The highlight of a line.
pub open spec fn line_kind(l: Seq<char>) -> DiffLineKind {
    if starts_with(l, "+"@) && !starts_with(l, "+++"@) {
        DiffLineKind::Added
    } else if starts_with(l, "-"@) && !starts_with(l, "---"@) {
        DiffLineKind::Deleted
    } else if starts_with(l, "@@"@) {
        DiffLineKind::Hunk
    } else if starts_with(l, "diff "@) || starts_with(l, "index "@) {
        DiffLineKind::Meta
    } else {
        DiffLineKind::Context
    }
}

/// The highlight of a line.
pub fn classify_line(line: &[char]) -> (k: DiffLineKind)
    ensures
        k == line_kind(line@),
{
    let plus = chars_of("+");
    let plus3 = chars_of("+++");
    let minus = chars_of("-");
    let minus3 = chars_of("---");
    let hunk = chars_of("@@");
    let diff = chars_of("diff ");
    let index = chars_of("index ");
    if starts_with_exec(line, plus.as_slice()) && !starts_with_exec(line, plus3.as_slice()) {
        DiffLineKind::Added
    } else if starts_with_exec(line, minus.as_slice()) && !starts_with_exec(line, minus3.as_slice()) {
        DiffLineKind::Deleted
    } else if starts_with_exec(line, hunk.as_slice()) {
        DiffLineKind::Hunk
    } else if starts_with_exec(line, diff.as_slice()) || starts_with_exec(line, index.as_slice()) {
        DiffLineKind::Meta
    } else {
        DiffLineKind::Context
    }
}

/// One displayed line of a unified diff.
#[derive(Debug)]
pub struct DiffRow {
    pub text: String,
    pub kind: DiffLineKind,
}

/// The rows a unified diff is shown as: its lines, as `str::lines` splits
/// them, each with its highlight.
pub fn diff_rows(text: &str) -> (rows: Vec<DiffRow>)
    ensures
        rows@.len() == text_lines(text@).len(),
        forall|i: int|
            0 <= i < rows@.len() ==> (#[trigger] rows@[i]).text@ == text_lines(text@)[i] && rows@[i].kind
                == line_kind(text_lines(text@)[i]),
{
    let lines = split_lines(text);
    let ghost tl = text_lines(text@);
    let n = lines.len();
    let mut rows: Vec<DiffRow> = Vec::new();
    let mut i: usize = 0;
    while i < n
        invariant
            n == lines@.len(),
            tl.len() == n,
            forall|j: int| 0 <= j < n ==> #[trigger] lines@[j]@ == tl[j],
            i <= n,
            rows@.len() == i,
            forall|j: int|
                0 <= j < i ==> (#[trigger] rows@[j]).text@ == tl[j] && rows@[j].kind == line_kind(tl[j]),
        decreases n - i,
    {
        let kind = classify_line(lines[i].as_slice());
        let text = string_from_chars(lines[i].as_slice());
        rows.push(DiffRow { text, kind });
        i = i + 1;
    }
    rows
}

/// The first line of a text, as `str::lines` gives it, or nothing.
pub fn first_line_text(s: &str) -> (r: String)
    ensures
        r@ == first_line(s@),
{
    let lines = split_lines(s);
    proof {
        crate::text::lemma_split_on_nonempty(s@, '\n');
        let parts = split_on(s@, '\n');
        if text_lines(s@).len() == 0 {
            assert(parts.len() == 1);
            assert(first_line(s@) =~= Seq::<char>::empty());
        } else {
            assert(text_lines(s@)[0] == first_line(s@));
        }
    }
    if lines.len() == 0 {
        String::new()
    } else {
        string_from_chars(lines[0].as_slice())
    }
}

/// The commit the working tree's head points at: its id and its message.
#[derive(Debug)]
pub struct HeadCommit {
    pub sha: String,
    pub message: String,
}

/// The first seven bytes of a commit id, or all of a shorter one.
pub open spec fn short_sha(sha: Seq<char>) -> Seq<char> {
    if utf8_len(sha) <= 7 {
        sha
    } else {
        decode_utf8(encode_utf8(sha).take(7))
    }
}

/// The head line of the staging view: the short id and the first message
/// line, or `no commits`.
pub open spec fn head_info_text(head: Option<HeadCommit>) -> Seq<char> {
    match head {
        Some(c) => short_sha(c.sha@) + " "@ + first_line(c.message@),
        None => "no commits"@,
    }
}

/// The head line of the staging view. A commit id longer than seven bytes
/// must have a character boundary there (an id is hexadecimal).
pub fn head_info(head: &Option<HeadCommit>) -> (s: String)
    requires
        head matches Some(c) ==> (utf8_len(c.sha@) > 7 ==> is_char_boundary(encode_utf8(c.sha@), 7)),
    ensures
        s@ == head_info_text(*head),
{
    match head {
        Some(c) => {
            let mut s = string_from_str(c.sha.as_str());
            truncate_bytes(&mut s, 7);
            push_str(&mut s, " ");
            let first = first_line_text(c.message.as_str());
            push_str(&mut s, first.as_str());
            s
        },
        None => string_from_str("no commits"),
    }
}

/// A branch's name, or `fallback` when there is none (the staging header
/// says `detached HEAD`, the sidebar `no branch`).
pub fn branch_label(branch: Option<&str>, fallback: &str) -> (s: String)
    ensures
        s@ == match branch {
            Some(b) => b@,
            None => fallback@,
        },
{
    match branch {
        Some(b) => string_from_str(b),
        None => string_from_str(fallback),
    }
}

/// What a pull request's detail asks its owner to do.
#[derive(Debug, Clone, Copy, PartialEq, Eq, Structural)]
pub enum PrAction {
    Close(i64),
    Reopen(i64),
    StatusChanged,
}

/// A button of the pull request's detail.
#[derive(Debug, Clone, Copy, PartialEq, Eq, Structural)]
pub enum DetailButton {
    Close,
    Reopen,
}

/// The buttons a pull request of each status offers: an open one can be
/// closed, a closed one reopened, a merged one neither.
pub open spec fn buttons_for(status: PrStatus) -> Seq<DetailButton> {
    match status {
        PrStatus::Open => seq![DetailButton::Close],
        PrStatus::Closed => seq![DetailButton::Reopen],
        PrStatus::Merged => Seq::empty(),
    }
}

/// The conflict badge: `n conflicts` when some are known, else none.
pub open spec fn conflict_badge(count: Option<usize>) -> Option<Seq<char>> {
    match count {
        Some(n) => if n > 0 {
            Some(decimal(n as nat) + " conflicts"@)
        } else {
            None
        },
        None => None,
    }
}

/// The detail of the selected pull request, with the number of conflicts
/// once it is known.
pub struct PrDetail {
    pr: Option<LocalPr>,
    conflict_count: Option<usize>,
}

impl PrDetail {
    /// The pull request shown.
    pub closed spec fn pr(&self) -> Option<LocalPr> {
        self.pr
    }

    /// The conflict count, once known.
    pub closed spec fn conflict_count(&self) -> Option<usize> {
        self.conflict_count
    }

    /// A detail showing nothing.
    pub fn new() -> (d: Self)
        ensures
            d.pr() is None,
            d.conflict_count() is None,
    {
        PrDetail { pr: None, conflict_count: None }
    }

    /// Show a pull request; its conflict count is unknown again.
    pub fn set_pr(&mut self, pr: Option<LocalPr>)
        ensures
            final(self).pr() == pr,
            final(self).conflict_count() is None,
    {
        self.pr = pr;
        self.conflict_count = None;
    }

    /// Record the number of conflicts.
    pub fn set_conflict_count(&mut self, count: usize)
        ensures
            final(self).pr() == old(self).pr(),
            final(self).conflict_count() == Some(count),
    {
        self.conflict_count = Some(count);
    }

    /// Closing asks to close the shown pull request; with none, nothing.
    pub fn close_pr(&self) -> (a: Option<PrAction>)
        ensures
            match self.pr() {
                Some(p) => a == Some(PrAction::Close(p.id)),
                None => a is None,
            },
    {
        match &self.pr {
            Some(p) => Some(PrAction::Close(p.id)),
            None => None,
        }
    }

    /// Reopening asks to reopen the shown pull request; with none, nothing.
    pub fn reopen_pr(&self) -> (a: Option<PrAction>)
        ensures
            match self.pr() {
                Some(p) => a == Some(PrAction::Reopen(p.id)),
                None => a is None,
            },
    {
        match &self.pr {
            Some(p) => Some(PrAction::Reopen(p.id)),
            None => None,
        }
    }

    /// The buttons shown: none without a pull request.
    pub fn buttons(&self) -> (b: Vec<DetailButton>)
        ensures
            b@ == match self.pr() {
                Some(p) => buttons_for(p.status),
                None => Seq::<DetailButton>::empty(),
            },
    {
        let mut b: Vec<DetailButton> = Vec::new();
        match &self.pr {
            Some(p) => match p.status {
                PrStatus::Open => b.push(DetailButton::Close),
                PrStatus::Closed => b.push(DetailButton::Reopen),
                PrStatus::Merged => {},
            },
            None => {},
        }
        proof {
            match self.pr() {
                Some(p) => assert(b@ =~= buttons_for(p.status)),
                None => assert(b@ =~= Seq::<DetailButton>::empty()),
            }
        }
        b
    }

    /// The conflict badge, when conflicts are known to exist.
    pub fn conflict_label(&self) -> (l: Option<String>)
        ensures
            match conflict_badge(self.conflict_count()) {
                Some(t) => l matches Some(s) && s@ == t,
                None => l is None,
            },
    {
        match self.conflict_count {
            Some(n) => if n > 0 {
                let mut s = String::new();
                push_decimal(&mut s, n as u64);
                push_str(&mut s, " conflicts");
                Some(s)
            } else {
                None
            },
            None => None,
        }
    }
}

/// The heading of the pull-request list.
pub open spec fn list_heading(n: nat) -> Seq<char> {
    if n == 0 {
        "No open PRs"@
    } else {
        "PRs ("@ + decimal(n) + ")"@
    }
}

/// The heading of the pull-request list: `No open PRs` when empty, else
/// the count.
pub fn pr_list_heading(count: usize) -> (s: String)
    ensures
        s@ == list_heading(count as nat),
{
    if count == 0 {
        string_from_str("No open PRs")
    } else {
        let mut s = string_from_str("PRs (");
        push_decimal(&mut s, count as u64);
        push_str(&mut s, ")");
        s
    }
}

/// The element id of a pull request's row: `pr-` and its id.
pub fn pr_item_id(id: i64) -> (s: String)
    ensures
        s@ == "pr-"@ + signed_decimal(id as int),
{
    let mut s = string_from_str("pr-");
    push_signed(&mut s, id);
    s
}

/// The summary line parts of a diff: files changed, insertions, deletions.
pub open spec fn summary_texts(files: nat, insertions: nat, deletions: nat) -> (Seq<char>, Seq<char>, Seq<char>) {
    (decimal(files) + " files changed"@, "+"@ + decimal(insertions), "-"@ + decimal(deletions))
}

/// The summary of a branch diff: `n files changed`, `+ins`, `-del`.
pub fn diff_summary(diff: &BranchDiff) -> (r: (String, String, String))
    ensures
        (r.0@, r.1@, r.2@) == summary_texts(
            diff.files@.len(),
            diff.total_insertions as nat,
            diff.total_deletions as nat,
        ),
{
    let mut files = String::new();
    push_decimal(&mut files, diff.files.len() as u64);
    push_str(&mut files, " files changed");
    let mut ins = string_from_str("+");
    push_decimal(&mut ins, diff.total_insertions as u64);
    let mut del = string_from_str("-");
    push_decimal(&mut del, diff.total_deletions as u64);
    (files, ins, del)
}

/// How a diff entry's path is shown: `old → new` for a rename, else the path.
pub open spec fn entry_display_path(e: DiffFileEntry) -> Seq<char> {
    match e.old_path {
        Some(old) => branch_pair(old@, e.path@),
        None => e.path@,
    }
}

/// How a diff entry's path is shown.
pub fn display_path(entry: &DiffFileEntry) -> (s: String)
    ensures
        s@ == entry_display_path(*entry),
{
    match &entry.old_path {
        Some(old) => branch_pair_text(old.as_str(), entry.path.as_str()),
        None => string_from_str(entry.path.as_str()),
    }
}

/// What a diff entry shows after its path: its line counts when it is text
/// and any changed, `binary` for a binary file, else nothing.
#[derive(Debug, Clone, Copy, PartialEq, Eq, Structural)]
pub enum EntryStats {
    Counts,
    Binary,
    Nothing,
}

/// What a diff entry shows after its path.
pub fn entry_stats(entry: &DiffFileEntry) -> (s: EntryStats)
    ensures
        entry.is_binary ==> s == EntryStats::Binary,
        !entry.is_binary && (entry.insertions > 0 || entry.deletions > 0) ==> s == EntryStats::Counts,
        !entry.is_binary && entry.insertions == 0 && entry.deletions == 0 ==> s == EntryStats::Nothing,
{
    if entry.is_binary {
        EntryStats::Binary
    } else if entry.insertions > 0 || entry.deletions > 0 {
        EntryStats::Counts
    } else {
        EntryStats::Nothing
    }
}

/// Ahead and behind counts as the panels show them: `↑a ↓b`.
pub open spec fn tracking_text(ahead: u32, behind: u32) -> Seq<char> {
    "↑"@ + decimal(ahead as nat) + " ↓"@ + decimal(behind as nat)
}

/// Ahead and behind counts as the panels show them.
pub fn tracking_label(ahead: u32, behind: u32) -> (s: String)
    ensures
        s@ == tracking_text(ahead, behind),
{
    let mut s = string_from_str("↑");
    push_decimal(&mut s, ahead as u64);
    push_str(&mut s, " ↓");
    push_decimal(&mut s, behind as u64);
    s
}

/// The ahead and behind counts the toolbar shows: the branch's tracking
/// status, or zero for both without one.
pub fn tracking_counts(tracking: Option<TrackingStatus>) -> (r: (u32, u32))
    ensures
        r == match tracking {
            Some(t) => (t.ahead, t.behind),
            None => (0u32, 0u32),
        },
{
    match tracking {
        Some(t) => (t.ahead, t.behind),
        None => (0, 0),
    }
}

/// The remote the toolbar pulls from and pushes to.
pub const DEFAULT_REMOTE: &'static str = "origin";

/// What a toolbar button asks the repository to do.
#[derive(Debug)]
pub enum RemoteOp {
    /// Fetch every remote.
    FetchAll,
    /// Pull the current branch (or, without one, the remote's default) from
    /// `remote`, merging rather than rebasing.
    Pull { branch: Option<String>, remote: &'static str, rebase: bool },
    /// Push the current branch to the branch of the same name on `remote`;
    /// without a current branch the name is empty.
    Push { local_branch: String, remote_branch: String, remote: &'static str },
}

/// The operation of the pull button for the current branch.
pub fn pull_op(current_branch: Option<&str>) -> (op: RemoteOp)
    ensures
        op matches RemoteOp::Pull { branch, remote, rebase } && remote@ == DEFAULT_REMOTE@ && !rebase && match (
            branch,
            current_branch,
        ) {
            (Some(b), Some(c)) => b@ == c@,
            (None, None) => true,
            _ => false,
        },
{
    let branch = match current_branch {
        Some(c) => Some(string_from_str(c)),
        None => None,
    };
    RemoteOp::Pull { branch, remote: DEFAULT_REMOTE, rebase: false }
}

/// The operation of the push button for the current branch.
pub fn push_op(current_branch: Option<&str>) -> (op: RemoteOp)
    ensures
        op matches RemoteOp::Push { local_branch, remote_branch, remote } && remote@ == DEFAULT_REMOTE@
            && local_branch@ == remote_branch@ && local_branch@ == match current_branch {
            Some(c) => c@,
            None => Seq::<char>::empty(),
        },
{
    let name = match current_branch {
        Some(c) => string_from_str(c),
        None => String::new(),
    };
    let remote_branch = string_from_str(name.as_str());
    RemoteOp::Push { local_branch: name, remote_branch, remote: DEFAULT_REMOTE }
}

/// A change in the project's repositories, as the panels hear of it.
#[derive(Debug, Clone, Copy, PartialEq, Eq, Structural)]
pub enum RepositoryChange {
    /// Another repository became the active one.
    ActiveRepositoryChanged,
    /// A repository changed; `branch_or_statuses` when its branch or file
    /// statuses changed, `active` when it is the active repository.
    RepositoryUpdated { branch_or_statuses: bool, active: bool },
    RepositoryAdded,
    RepositoryRemoved,
    /// Anything else.
    Other,
}

/// What a panel does about a repository change.
#[derive(Debug, Clone, Copy, PartialEq, Eq, Structural)]
pub enum PanelReaction {
    /// Pick up the active repository again, then refresh.
    UpdateActiveRepository,
    /// Refresh what is shown from the same repository.
    Refresh,
    Nothing,
}

/// The sidebar follows a new, added or removed repository, and refreshes
/// its branches and pull requests when the active repository's branch or
/// statuses change.
pub fn sidebar_reaction(change: RepositoryChange) -> (r: PanelReaction)
    ensures
        r == match change {
            RepositoryChange::ActiveRepositoryChanged | RepositoryChange::RepositoryAdded
            | RepositoryChange::RepositoryRemoved => PanelReaction::UpdateActiveRepository,
            RepositoryChange::RepositoryUpdated { branch_or_statuses, active } => if branch_or_statuses && active {
                PanelReaction::Refresh
            } else {
                PanelReaction::Nothing
            },
            RepositoryChange::Other => PanelReaction::Nothing,
        },
{
    match change {
        RepositoryChange::ActiveRepositoryChanged => PanelReaction::UpdateActiveRepository,
        RepositoryChange::RepositoryAdded => PanelReaction::UpdateActiveRepository,
        RepositoryChange::RepositoryRemoved => PanelReaction::UpdateActiveRepository,
        RepositoryChange::RepositoryUpdated { branch_or_statuses, active } => if branch_or_statuses && active {
            PanelReaction::Refresh
        } else {
            PanelReaction::Nothing
        },
        RepositoryChange::Other => PanelReaction::Nothing,
    }
}

/// The main view follows a new active repository and refreshes when the
/// active repository's branch or statuses change; added or removed
/// repositories leave it as it is.
pub fn view_reaction(change: RepositoryChange) -> (r: PanelReaction)
    ensures
        r == match change {
            RepositoryChange::ActiveRepositoryChanged => PanelReaction::UpdateActiveRepository,
            RepositoryChange::RepositoryUpdated { branch_or_statuses, active } => if branch_or_statuses && active {
                PanelReaction::Refresh
            } else {
                PanelReaction::Nothing
            },
            _ => PanelReaction::Nothing,
        },
{
    match change {
        RepositoryChange::ActiveRepositoryChanged => PanelReaction::UpdateActiveRepository,
        RepositoryChange::RepositoryUpdated { branch_or_statuses, active } => if branch_or_statuses && active {
            PanelReaction::Refresh
        } else {
            PanelReaction::Nothing
        },
        _ => PanelReaction::Nothing,
    }
}

} // verus!
