//! Merging a pull request: tracking how each conflicted file is resolved,
//! and deciding whether, and how, the merge may be written.
use vstd::prelude::*;
use vstd::utf8::{decode_utf8, valid_utf8};

use crate::pr::error::PrError;
use crate::pr::types::{ContentEncoding, FileContent, MergeStrategy, ThreeWayContent};
use crate::text::{clone_string, copy_bytes, same_text, string_from_str, push_str};

verus! {

/// The resolved content chosen for one conflicted file.
#[derive(Debug)]
pub struct Resolution {
    pub path: String,
    pub content: Vec<u8>,
}

/// A merge in progress: the two tips it was started from, the branch it
/// will move, the files in conflict and the resolutions given so far.
#[derive(Debug)]
pub struct MergeSession {
    pub source_oid: String,
    pub target_oid: String,
    pub target_branch: String,
    pub conflicted_paths: Vec<String>,
    pub resolutions: Vec<Resolution>,
}

/// The resolutions a list stands for: each path maps to the content of its
/// last entry.
pub open spec fn resolution_map(rs: Seq<Resolution>) -> Map<Seq<char>, Seq<u8>>
    decreases rs.len(),
{
    if rs.len() == 0 {
        Map::empty()
    } else {
        resolution_map(rs.drop_last()).insert(rs.last().path@, rs.last().content@)
    }
}

/// The list without the entries for `path`, in order.
pub open spec fn without_path(rs: Seq<Resolution>, path: Seq<char>) -> Seq<Resolution>
    decreases rs.len(),
{
    if rs.len() == 0 {
        Seq::empty()
    } else if rs.last().path@ == path {
        without_path(rs.drop_last(), path)
    } else {
        without_path(rs.drop_last(), path).push(rs.last())
    }
}

/// The conflicted paths, as text.
pub open spec fn path_texts(paths: Seq<String>) -> Seq<Seq<char>> {
    paths.map_values(|p: String| p@)
}

/// Every conflicted path has a resolution.
pub open spec fn all_resolved(paths: Seq<Seq<char>>, resolved: Map<Seq<char>, Seq<u8>>) -> bool {
    forall|i: int| 0 <= i < paths.len() ==> resolved.contains_key(#[trigger] paths[i])
}

impl MergeSession {
    /// The resolutions given so far, by path.
    pub open spec fn resolved(&self) -> Map<Seq<char>, Seq<u8>> {
        resolution_map(self.resolutions@)
    }

    /// The conflicted paths, as text.
    pub open spec fn conflicts(&self) -> Seq<Seq<char>> {
        path_texts(self.conflicted_paths@)
    }
}

proof fn lemma_resolution_map_dom(rs: Seq<Resolution>)
    ensures
        forall|k: Seq<char>| #[trigger] resolution_map(rs).contains_key(k) <==> exists|i: int|
            0 <= i < rs.len() && rs[i].path@ == k,
    decreases rs.len(),
{
    if rs.len() > 0 {
        let p = rs.drop_last();
        lemma_resolution_map_dom(p);
        assert forall|k: Seq<char>| #[trigger] resolution_map(rs).contains_key(k) implies exists|i: int|
            0 <= i < rs.len() && rs[i].path@ == k by {
            if k != rs.last().path@ {
                assert(resolution_map(p).contains_key(k));
                let i = choose|i: int| 0 <= i < p.len() && p[i].path@ == k;
                assert(rs[i] == p[i]);
            } else {
                assert(rs[rs.len() - 1].path@ == k);
            }
        }
        assert forall|k: Seq<char>| (exists|i: int| 0 <= i < rs.len() && rs[i].path@ == k) implies #[trigger] resolution_map(rs).contains_key(k) by {
            let i = choose|i: int| 0 <= i < rs.len() && rs[i].path@ == k;
            if i < rs.len() - 1 {
                assert(p[i] == rs[i]);
                assert(resolution_map(p).contains_key(k));
            }
        }
    }
}

proof fn lemma_without_path(rs: Seq<Resolution>, path: Seq<char>)
    ensures
        resolution_map(without_path(rs, path)) == resolution_map(rs).remove(path),
    decreases rs.len(),
{
    if rs.len() == 0 {
        assert(resolution_map(rs).remove(path) =~= Map::empty());
    } else {
        let p = rs.drop_last();
        lemma_without_path(p, path);
        if rs.last().path@ == path {
            assert(resolution_map(rs).remove(path) =~= resolution_map(p).remove(path));
        } else {
            let w = without_path(p, path);
            assert(w.push(rs.last()).drop_last() == w);
            assert(resolution_map(w.push(rs.last())) =~= resolution_map(rs).remove(path));
        }
    }
}

/// A session whose conflicts are the given paths, with nothing resolved yet.
pub fn new_session(
    source_oid: &str,
    target_oid: &str,
    target_branch: &str,
    conflicted_paths: Vec<String>,
) -> (s: MergeSession)
    ensures
        s.source_oid@ == source_oid@,
        s.target_oid@ == target_oid@,
        s.target_branch@ == target_branch@,
        s.conflicted_paths@ == conflicted_paths@,
        s.resolutions@.len() == 0,
        s.resolved() == Map::<Seq<char>, Seq<u8>>::empty(),
{
    MergeSession {
        source_oid: string_from_str(source_oid),
        target_oid: string_from_str(target_oid),
        target_branch: string_from_str(target_branch),
        conflicted_paths,
        resolutions: Vec::new(),
    }
}

/// The list without the entries for `path`.
fn drop_path(rs: &Vec<Resolution>, path: &str) -> (out: Vec<Resolution>)
    ensures
        resolution_map(out@) == resolution_map(rs@).remove(path@),
{
    let n = rs.len();
    let mut out: Vec<Resolution> = Vec::new();
    let mut i: usize = 0;
    while i < n
        invariant
            n == rs@.len(),
            i <= n,
            resolution_map(out@) == resolution_map(without_path(rs@.take(i as int), path@)),
        decreases n - i,
    {
        let r = &rs[i];
        let ghost before = rs@.take(i as int);
        proof {
            assert(rs@.take(i as int + 1).drop_last() == before);
            assert(rs@.take(i as int + 1).last() == rs@[i as int]);
        }
        if !same_text(r.path.as_str(), path) {
            let copy = Resolution { path: clone_string(&r.path), content: copy_bytes(r.content.as_slice()) };
            let ghost prev = out@;
            out.push(copy);
            proof {
                assert(out@.drop_last() == prev);
                assert(resolution_map(out@) == resolution_map(prev).insert(r.path@, r.content@));
                let w = without_path(before, path@);
                assert(without_path(rs@.take(i as int + 1), path@) == w.push(rs@[i as int]));
                assert(w.push(rs@[i as int]).drop_last() == w);
                assert(resolution_map(without_path(rs@.take(i as int + 1), path@)) == resolution_map(w).insert(
                    r.path@,
                    r.content@,
                ));
            }
        }
        i = i + 1;
    }
    proof {
        assert(rs@.take(n as int) == rs@);
        lemma_without_path(rs@, path@);
    }
    out
}

/// Whether every conflicted path has a resolution.
fn every_path_resolved(paths: &Vec<String>, rs: &Vec<Resolution>) -> (b: bool)
    ensures
        b == all_resolved(path_texts(paths@), resolution_map(rs@)),
{
    proof {
        lemma_resolution_map_dom(rs@);
    }
    let n = paths.len();
    let mut i: usize = 0;
    while i < n
        invariant
            n == paths@.len(),
            i <= n,
            forall|j: int| 0 <= j < i ==> resolution_map(rs@).contains_key(#[trigger] path_texts(paths@)[j]),
            forall|k: Seq<char>| #[trigger] resolution_map(rs@).contains_key(k) <==> exists|x: int|
                0 <= x < rs@.len() && rs@[x].path@ == k,
        decreases n - i,
    {
        let p = paths[i].as_str();
        let m = rs.len();
        let mut found = false;
        let mut j: usize = 0;
        while j < m
            invariant
                m == rs@.len(),
                j <= m,
                found ==> exists|x: int| 0 <= x < rs@.len() && rs@[x].path@ == p@,
                !found ==> forall|x: int| 0 <= x < j ==> rs@[x].path@ != p@,
            decreases m - j,
        {
            if same_text(rs[j].path.as_str(), p) {
                found = true;
            }
            j = j + 1;
        }
        assert(path_texts(paths@)[i as int] == p@);
        if !found {
            assert(!resolution_map(rs@).contains_key(p@));
            return false;
        }
        i = i + 1;
    }
    true
}

/// Resolving a file completes a session exactly when every other
/// conflicted file was already resolved; in particular resolving never
/// undoes completeness.
pub proof fn law_resolving_completes(paths: Seq<Seq<char>>, resolved: Map<Seq<char>, Seq<u8>>, path: Seq<char>, content: Seq<u8>)
    ensures
        all_resolved(paths, resolved.insert(path, content)) <==> (forall|i: int|
            0 <= i < paths.len() && paths[i] != path ==> resolved.contains_key(#[trigger] paths[i])),
        all_resolved(paths, resolved) ==> all_resolved(paths, resolved.insert(path, content)),
{
}

/// Forgetting the resolution of a conflicted file leaves the session
/// unresolved, whatever else was resolved.
pub proof fn law_reset_unresolves(paths: Seq<Seq<char>>, resolved: Map<Seq<char>, Seq<u8>>, path: Seq<char>)
    requires
        paths.contains(path),
    ensures
        !all_resolved(paths, resolved.remove(path)),
{
    let i = choose|i: int| 0 <= i < paths.len() && paths[i] == path;
    assert(!resolved.remove(path).contains_key(paths[i]));
}

/// A session without conflicts is fully resolved before any resolution.
pub proof fn law_no_conflicts_resolved(resolved: Map<Seq<char>, Seq<u8>>)
    ensures
        all_resolved(Seq::empty(), resolved),
{
}

/// The Git objects and names a permitted merge is written with.
#[derive(Debug)]
pub struct MergePlan {
    /// Parents of the new commit: the target tip, then (for a merge commit)
    /// the source tip.
    pub parents: Vec<String>,
    /// The reference moved to the new commit.
    pub ref_name: String,
    /// The reflog message of that move.
    pub reflog_message: String,
}

/// The parents a strategy gives the new commit.
pub open spec fn merge_parents(strategy: MergeStrategy, target: Seq<char>, source: Seq<char>) -> Seq<Seq<char>> {
    match strategy {
        MergeStrategy::MergeCommit => seq![target, source],
        MergeStrategy::Squash => seq![target],
    }
}

/// The parents of a plan, as text.
pub open spec fn plan_parents(p: MergePlan) -> Seq<Seq<char>> {
    path_texts(p.parents@)
}

/// The result of a merge request: refused when the target branch has moved
/// since the session started, then when a conflict is unresolved; otherwise
/// the plan for writing it.
pub open spec fn merge_outcome_ok(
    s: MergeSession,
    strategy: MergeStrategy,
    message: Seq<char>,
    current_target_oid: Seq<char>,
    p: MergePlan,
) -> bool {
    &&& plan_parents(p) == merge_parents(strategy, s.target_oid@, s.source_oid@)
    &&& p.ref_name@ == "refs/heads/"@ + s.target_branch@
    &&& p.reflog_message@ == "merge: "@ + message
}

/// The error reported when the target branch reference cannot be moved.
pub open spec fn ref_update_failure(branch: Seq<char>, detail: Seq<char>) -> Seq<char> {
    "Failed to update branch ref '"@ + branch + "': "@ + detail
}

/// Merging pull requests.
pub struct MergeService;

impl MergeService {
    pub fn new() -> (s: Self) {
        MergeService
    }

    /// Start a merge of `source_oid` into `target_oid`, with the conflicts
    /// the two tips have.
    pub fn start_merge_session(
        &self,
        source_oid: &str,
        target_oid: &str,
        target_branch: &str,
        conflicts: Vec<String>,
    ) -> (s: MergeSession)
        ensures
            s.source_oid@ == source_oid@,
            s.target_oid@ == target_oid@,
            s.target_branch@ == target_branch@,
            s.conflicted_paths@ == conflicts@,
            s.resolved() == Map::<Seq<char>, Seq<u8>>::empty(),
    {
        new_session(source_oid, target_oid, target_branch, conflicts)
    }

    /// Record `content` as the resolution of `path`, replacing an earlier one.
    pub fn resolve_conflict(session: &mut MergeSession, path: &str, content: Vec<u8>)
        ensures
            final(session).resolved() == old(session).resolved().insert(path@, content@),
            final(session).source_oid == old(session).source_oid,
            final(session).target_oid == old(session).target_oid,
            final(session).target_branch == old(session).target_branch,
            final(session).conflicted_paths == old(session).conflicted_paths,
    {
        let mut kept = drop_path(&session.resolutions, path);
        let ghost before = kept@;
        kept.push(Resolution { path: string_from_str(path), content });
        proof {
            assert(kept@.drop_last() == before);
        }
        session.resolutions = kept;
    }

    /// Forget the resolution of `path`.
    pub fn reset_conflict(session: &mut MergeSession, path: &str)
        ensures
            final(session).resolved() == old(session).resolved().remove(path@),
            final(session).source_oid == old(session).source_oid,
            final(session).target_oid == old(session).target_oid,
            final(session).target_branch == old(session).target_branch,
            final(session).conflicted_paths == old(session).conflicted_paths,
    {
        let kept = drop_path(&session.resolutions, path);
        session.resolutions = kept;
    }

    /// Whether every conflicted file has a resolution.
    pub fn is_fully_resolved(session: &MergeSession) -> (b: bool)
        ensures
            b == all_resolved(session.conflicts(), session.resolved()),
    {
        every_path_resolved(&session.conflicted_paths, &session.resolutions)
    }

    /// Decide whether the merge may be written and, if so, how: refused with
    /// `TargetMoved` when the target tip is no longer the one the session
    /// started from, then with `MergeConflicts` while a conflict is
    /// unresolved.
    pub fn plan_merge(
        &self,
        session: &MergeSession,
        strategy: MergeStrategy,
        message: &str,
        current_target_oid: &str,
    ) -> (r: Result<MergePlan, PrError>)
        ensures
            current_target_oid@ != session.target_oid@ <==> r matches Err(PrError::TargetMoved),
            (current_target_oid@ == session.target_oid@ && !all_resolved(session.conflicts(), session.resolved()))
                <==> r matches Err(PrError::MergeConflicts),
            r is Ok <==> (current_target_oid@ == session.target_oid@ && all_resolved(session.conflicts(), session.resolved())),
            r matches Ok(p) ==> merge_outcome_ok(*session, strategy, message@, current_target_oid@, p),
    {
        if !same_text(current_target_oid, session.target_oid.as_str()) {
            return Err(PrError::TargetMoved);
        }
        if !Self::is_fully_resolved(session) {
            return Err(PrError::MergeConflicts);
        }
        let mut parents: Vec<String> = Vec::new();
        parents.push(clone_string(&session.target_oid));
        match strategy {
            MergeStrategy::MergeCommit => {
                parents.push(clone_string(&session.source_oid));
            },
            MergeStrategy::Squash => {},
        }
        let mut ref_name = string_from_str("refs/heads/");
        push_str(&mut ref_name, session.target_branch.as_str());
        let mut reflog_message = string_from_str("merge: ");
        push_str(&mut reflog_message, message);
        let plan = MergePlan { parents, ref_name, reflog_message };
        proof {
            assert(plan_parents(plan) =~= merge_parents(strategy, session.target_oid@, session.source_oid@));
        }
        Ok(plan)
    }
}

/// The failure reported when the target branch reference cannot be moved.
pub fn ref_update_error(branch: &str, detail: &str) -> (e: PrError)
    ensures
        e matches PrError::Other(m) && m@ == ref_update_failure(branch@, detail@),
{
    let mut m = string_from_str("Failed to update branch ref '");
    push_str(&mut m, branch);
    push_str(&mut m, "': ");
    push_str(&mut m, detail);
    PrError::Other(m)
}

/// Bytes decoded as UTF-8 with each invalid sequence replaced by U+FFFD,
/// as `String::from_utf8_lossy` gives them.
pub uninterp spec fn lossy_text(bytes: Seq<u8>) -> Seq<char>;

/// `String::from_utf8_lossy`: the result is named `lossy_text`, a function
/// of the bytes alone; on valid UTF-8 it is the plain decoding, as the
/// documentation states.
#[verifier::external_body]
fn from_utf8_lossy(bytes: &[u8]) -> (s: String)
    ensures
        s@ == lossy_text(bytes@),
        valid_utf8(bytes@) ==> s@ == decode_utf8(bytes@),
{
    String::from_utf8_lossy(bytes).to_string()
}

/// The index entries of one conflicted file, by their path bytes: the
/// target side, the source side and the common ancestor.
#[derive(Debug)]
pub struct ConflictSides {
    pub our: Option<Vec<u8>>,
    pub their: Option<Vec<u8>>,
    pub ancestor: Option<Vec<u8>>,
}

/// The path bytes a conflict is named by: the target side's, else the
/// source side's, else the ancestor's.
pub open spec fn conflict_path_bytes(c: ConflictSides) -> Option<Seq<u8>> {
    match c.our {
        Some(p) => Some(p@),
        None => match c.their {
            Some(p) => Some(p@),
            None => match c.ancestor {
                Some(p) => Some(p@),
                None => None,
            },
        },
    }
}

/// The paths of the conflicts that name one, in order, each decoded leniently.
pub open spec fn conflict_paths_spec(cs: Seq<ConflictSides>) -> Seq<Seq<char>>
    decreases cs.len(),
{
    if cs.len() == 0 {
        Seq::empty()
    } else {
        let rest = conflict_paths_spec(cs.drop_last());
        match conflict_path_bytes(cs.last()) {
            Some(b) => rest.push(lossy_text(b)),
            None => rest,
        }
    }
}

/// The paths of the conflicted files of a merge, in index order.
pub fn conflict_paths(conflicts: &Vec<ConflictSides>) -> (paths: Vec<String>)
    ensures
        path_texts(paths@) == conflict_paths_spec(conflicts@),
{
    let n = conflicts.len();
    let mut paths: Vec<String> = Vec::new();
    let mut i: usize = 0;
    while i < n
        invariant
            n == conflicts@.len(),
            i <= n,
            path_texts(paths@) == conflict_paths_spec(conflicts@.take(i as int)),
        decreases n - i,
    {
        let c = &conflicts[i];
        proof {
            assert(conflicts@.take(i as int + 1).drop_last() == conflicts@.take(i as int));
            assert(conflicts@.take(i as int + 1).last() == conflicts@[i as int]);
        }
        let bytes: Option<&Vec<u8>> = match &c.our {
            Some(p) => Some(p),
            None => match &c.their {
                Some(p) => Some(p),
                None => match &c.ancestor {
                    Some(p) => Some(p),
                    None => None,
                },
            },
        };
        match bytes {
            Some(b) => {
                let s = from_utf8_lossy(b.as_slice());
                let ghost prev = paths@;
                paths.push(s);
                proof {
                    assert(path_texts(paths@) =~= path_texts(prev).push(s@));
                }
            },
            None => {},
        }
        i = i + 1;
    }
    proof {
        assert(conflicts@.take(n as int) == conflicts@);
    }
    paths
}

/// A file's content as read from a tree: its bytes, the encoding they show
/// in, and whether they are a Git LFS pointer.
pub fn read_file_content(data: Vec<u8>) -> (f: FileContent)
    ensures
        f.data@ == data@,
        f.encoding == crate::pr::types::encoding_of(data@),
        f.is_lfs == (data@.len() >= crate::pr::types::lfs_magic().len() && data@.take(
            crate::pr::types::lfs_magic().len() as int,
        ) == crate::pr::types::lfs_magic()),
{
    let encoding = FileContent::detect_encoding(data.as_slice());
    let is_lfs = FileContent::is_lfs_pointer(data.as_slice());
    FileContent { data, encoding, is_lfs }
}

/// The content shown for a side that does not have the file: empty UTF-8 text.
pub fn missing_file_content() -> (f: FileContent)
    ensures
        f.data@.len() == 0,
        f.encoding == ContentEncoding::Utf8,
        !f.is_lfs,
{
    FileContent { data: Vec::new(), encoding: ContentEncoding::Utf8, is_lfs: false }
}

/// The three sides of a conflicted file from the bytes found in the common
/// ancestor, the target and the source; a side without the file shows as
/// empty text, except the ancestor, which is then absent.
pub fn conflict_content(base: Option<Vec<u8>>, ours: Option<Vec<u8>>, theirs: Option<Vec<u8>>) -> (t: ThreeWayContent)
    ensures
        match base {
            Some(b) => t.base matches Some(f) && f.data@ == b@ && f.encoding == crate::pr::types::encoding_of(b@),
            None => t.base is None,
        },
        match ours {
            Some(b) => t.ours.data@ == b@ && t.ours.encoding == crate::pr::types::encoding_of(b@),
            None => t.ours.data@.len() == 0 && t.ours.encoding == ContentEncoding::Utf8 && !t.ours.is_lfs,
        },
        match theirs {
            Some(b) => t.theirs.data@ == b@ && t.theirs.encoding == crate::pr::types::encoding_of(b@),
            None => t.theirs.data@.len() == 0 && t.theirs.encoding == ContentEncoding::Utf8 && !t.theirs.is_lfs,
        },
{
    let base = match base {
        Some(b) => Some(read_file_content(b)),
        None => None,
    };
    let ours = match ours {
        Some(b) => read_file_content(b),
        None => missing_file_content(),
    };
    let theirs = match theirs {
        Some(b) => read_file_content(b),
        None => missing_file_content(),
    };
    ThreeWayContent { base, ours, theirs }
}

} // verus!
