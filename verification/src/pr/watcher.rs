//! Watching a repository's branch references: what a file-system change
//! under `refs/heads` means for a branch, and when a tip move is a force
//! push.
use vstd::prelude::*;

use crate::paths::{path_strip_prefix, stripped_path};
use crate::pr::rules::{oid_bytes, oid_text, parse_oid};
use crate::text::{chars_of, push_str, string_from_chars, string_from_str, string_views, trim, trim_chars};

verus! {

/// Something that happened to a branch.
#[derive(Debug, Clone)]
pub enum BranchEvent {
    BranchTipChanged { branch: String, old_oid: Option<String>, new_oid: String },
    ForceDetected { branch: String, old_oid: String, new_oid: String },
    BranchDeleted { branch: String },
    WatcherError(String),
}

/// The kind of a file-system change.
#[derive(Debug, Clone, Copy, PartialEq, Eq, Structural)]
pub enum ChangeKind {
    Create,
    Modify,
    Remove,
    Other,
}

/// What a change to one path asks the watcher to do.
#[derive(Debug)]
pub enum RefAction {
    /// The path is not a branch reference, or the change is of no interest.
    Ignore,
    /// The branch was deleted.
    Deleted(String),
    /// The branch's reference file was written: read its new tip.
    ReadTip(String),
}

/// The branch a reference file names: its path below the `refs/heads`
/// directory, `None` for a path outside it.
pub fn extract_branch_name(path: &str, refs_dir: &str) -> (r: Option<String>)
    ensures
        match r {
            Some(b) => stripped_path(path@, refs_dir@) == Some(b@),
            None => stripped_path(path@, refs_dir@) is None,
        },
{
    path_strip_prefix(path, refs_dir)
}

/// What a change of `kind` at `path` means: nothing unless it creates,
/// modifies or removes a file below `refs_dir`; a removal deletes the
/// branch; a creation or modification moves its tip.
pub fn ref_action(kind: ChangeKind, path: &str, refs_dir: &str) -> (a: RefAction)
    ensures
        kind == ChangeKind::Other ==> a is Ignore,
        kind != ChangeKind::Other ==> match stripped_path(path@, refs_dir@) {
            None => a is Ignore,
            Some(b) => if kind == ChangeKind::Remove {
                a matches RefAction::Deleted(n) && n@ == b
            } else {
                a matches RefAction::ReadTip(n) && n@ == b
            },
        },
{
    if kind == ChangeKind::Other {
        return RefAction::Ignore;
    }
    match extract_branch_name(path, refs_dir) {
        None => RefAction::Ignore,
        Some(b) => if kind == ChangeKind::Remove {
            RefAction::Deleted(b)
        } else {
            RefAction::ReadTip(b)
        },
    }
}

/// The event for a branch whose reference file now reads `file_text`
/// (empty when it could not be read): its tip changed to the trimmed text,
/// the previous tip unknown.
pub fn tip_changed(branch: String, file_text: &str) -> (e: BranchEvent)
    ensures
        e matches BranchEvent::BranchTipChanged { branch: b, old_oid, new_oid } && b@ == branch@ && old_oid is None
            && new_oid@ == trim(file_text@),
{
    let cs = chars_of(file_text);
    let t = trim_chars(cs.as_slice());
    BranchEvent::BranchTipChanged { branch, old_oid: None, new_oid: string_from_chars(t.as_slice()) }
}

/// A branch event as text.
pub enum EventView {
    TipChanged { branch: Seq<char>, old_oid: Option<Seq<char>>, new_oid: Seq<char> },
    Forced { branch: Seq<char>, old_oid: Seq<char>, new_oid: Seq<char> },
    Deleted { branch: Seq<char> },
    Failed { message: Seq<char> },
}

/// The text of an event.
pub open spec fn event_view(e: BranchEvent) -> EventView {
    match e {
        BranchEvent::BranchTipChanged { branch, old_oid, new_oid } => EventView::TipChanged {
            branch: branch@,
            old_oid: match old_oid {
                Some(o) => Some(o@),
                None => None,
            },
            new_oid: new_oid@,
        },
        BranchEvent::ForceDetected { branch, old_oid, new_oid } => EventView::Forced {
            branch: branch@,
            old_oid: old_oid@,
            new_oid: new_oid@,
        },
        BranchEvent::BranchDeleted { branch } => EventView::Deleted { branch: branch@ },
        BranchEvent::WatcherError(m) => EventView::Failed { message: m@ },
    }
}

/// The events of a list.
pub open spec fn event_views(v: Seq<BranchEvent>) -> Seq<EventView> {
    v.map_values(|e: BranchEvent| event_view(e))
}

/// The event a change of `kind` at `path` reports, if any, when the file
/// there reads `text`: a removed reference deletes its branch, a created
/// or modified one moves the tip to the trimmed text.
pub open spec fn path_event(kind: ChangeKind, path: Seq<char>, refs_dir: Seq<char>, text: Seq<char>) -> Option<
    EventView,
> {
    if kind == ChangeKind::Other {
        None
    } else {
        match stripped_path(path, refs_dir) {
            None => None,
            Some(b) => if kind == ChangeKind::Remove {
                Some(EventView::Deleted { branch: b })
            } else {
                Some(EventView::TipChanged { branch: b, old_oid: None, new_oid: trim(text) })
            },
        }
    }
}

/// The events one file-system change reports, in the order of its paths;
/// `texts[i]` is what the file at `paths[i]` reads.
pub open spec fn change_events(
    kind: ChangeKind,
    paths: Seq<Seq<char>>,
    refs_dir: Seq<char>,
    texts: Seq<Seq<char>>,
) -> Seq<EventView>
    decreases paths.len(),
{
    if paths.len() == 0 {
        Seq::empty()
    } else {
        let rest = change_events(kind, paths.drop_last(), refs_dir, texts);
        match path_event(kind, paths.last(), refs_dir, texts[paths.len() - 1]) {
            Some(e) => rest.push(e),
            None => rest,
        }
    }
}

proof fn lemma_change_events_prefix(
    kind: ChangeKind,
    paths: Seq<Seq<char>>,
    refs_dir: Seq<char>,
    texts: Seq<Seq<char>>,
    i: int,
)
    requires
        0 <= i < paths.len(),
    ensures
        change_events(kind, paths.take(i + 1), refs_dir, texts) == match path_event(
            kind,
            paths[i],
            refs_dir,
            texts[i],
        ) {
            Some(e) => change_events(kind, paths.take(i), refs_dir, texts).push(e),
            None => change_events(kind, paths.take(i), refs_dir, texts),
        },
{
    assert(paths.take(i + 1).drop_last() =~= paths.take(i));
}

/// The events one file-system change reports, in the order of its paths.
/// `texts[i]` is what the reference file at `paths[i]` reads (empty when it
/// was not or could not be read); it matters only for a created or
/// modified reference.
pub fn change_events_of(kind: ChangeKind, paths: &Vec<String>, refs_dir: &str, texts: &Vec<String>) -> (events: Vec<
    BranchEvent,
>)
    requires
        texts@.len() == paths@.len(),
    ensures
        event_views(events@) == change_events(kind, string_views(paths@), refs_dir@, string_views(texts@)),
{
    let ghost pv = string_views(paths@);
    let ghost tv = string_views(texts@);
    let n = paths.len();
    let mut events: Vec<BranchEvent> = Vec::new();
    let mut i: usize = 0;
    proof {
        assert(pv.take(0) =~= Seq::<Seq<char>>::empty());
        assert(event_views(events@) =~= Seq::<EventView>::empty());
    }
    while i < n
        invariant
            n == paths@.len(),
            texts@.len() == n,
            pv == string_views(paths@),
            tv == string_views(texts@),
            i <= n,
            event_views(events@) == change_events(kind, pv.take(i as int), refs_dir@, tv),
        decreases n - i,
    {
        proof {
            lemma_change_events_prefix(kind, pv, refs_dir@, tv, i as int);
        }
        let ghost before = events@;
        match ref_action(kind, paths[i].as_str(), refs_dir) {
            RefAction::Ignore => {},
            RefAction::Deleted(b) => {
                events.push(BranchEvent::BranchDeleted { branch: b });
                proof {
                    assert(event_views(events@) =~= event_views(before).push(event_view(events@.last())));
                }
            },
            RefAction::ReadTip(b) => {
                let e = tip_changed(b, texts[i].as_str());
                events.push(e);
                proof {
                    assert(event_views(events@) =~= event_views(before).push(event_view(events@.last())));
                }
            },
        }
        i = i + 1;
    }
    proof {
        assert(pv.take(n as int) =~= pv);
    }
    events
}

/// The event reporting that the watcher could not be created.
pub fn watcher_creation_failed(detail: &str) -> (e: BranchEvent)
    ensures
        e matches BranchEvent::WatcherError(m) && m@ == "Failed to create watcher: "@ + detail@,
{
    let mut m = string_from_str("Failed to create watcher: ");
    push_str(&mut m, detail);
    BranchEvent::WatcherError(m)
}

/// Whether moving a tip from `old_oid` to `new_oid` needs Git's ancestry
/// answer to be judged: both are object ids and they differ.
pub open spec fn force_check_needed(old_oid: Seq<char>, new_oid: Seq<char>) -> bool {
    oid_text(old_oid) && oid_text(new_oid) && oid_bytes(old_oid) != oid_bytes(new_oid)
}

/// Whether the move is a force push: the ids differ and Git answered that
/// the new tip does not descend from the old one (an unknown answer counts
/// as descending).
pub open spec fn is_force_push(old_oid: Seq<char>, new_oid: Seq<char>, descends: Option<bool>) -> bool {
    force_check_needed(old_oid, new_oid) && descends == Some(false)
}

/// Whether Git's ancestry answer is needed to judge the move.
pub fn needs_force_check(old_oid: &str, new_oid: &str) -> (b: bool)
    ensures
        b == force_check_needed(old_oid@, new_oid@),
{
    match (parse_oid(old_oid), parse_oid(new_oid)) {
        (Some(a), Some(b)) => !bytes_equal(a.as_slice(), b.as_slice()),
        _ => false,
    }
}

/// Judge a tip move from `old_oid` to `new_oid`, given Git's answer to
/// whether the new tip descends from the old one, when it was asked and
/// answered.
pub fn detect_force_push(old_oid: &str, new_oid: &str, descends: Option<bool>) -> (b: bool)
    ensures
        b == is_force_push(old_oid@, new_oid@, descends),
{
    needs_force_check(old_oid, new_oid) && match descends {
        Some(d) => !d,
        None => false,
    }
}

/// Whether two byte strings are equal.
fn bytes_equal(a: &[u8], b: &[u8]) -> (r: bool)
    ensures
        r == (a@ == b@),
{
    if a.len() != b.len() {
        return false;
    }
    let n = a.len();
    let mut i: usize = 0;
    while i < n
        invariant
            n == a@.len(),
            n == b@.len(),
            i <= n,
            forall|j: int| 0 <= j < i ==> a@[j] == b@[j],
        decreases n - i,
    {
        if a[i] != b[i] {
            return false;
        }
        i = i + 1;
    }
    proof {
        assert(a@ =~= b@);
    }
    true
}

/// A tip that did not move is never a force push, whatever Git answers;
/// neither is a move to a descendant.
pub proof fn law_unmoved_tip_is_not_forced(oid: Seq<char>, other: Seq<char>, descends: Option<bool>)
    ensures
        !is_force_push(oid, oid, descends),
        !is_force_push(oid, other, Some(true)),
        !is_force_push(oid, other, None),
{
}

} // verus!
