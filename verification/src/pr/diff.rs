//! Branch diffs: the files a source branch changes since its merge base,
//! and a least-recently-used cache of computed diffs keyed by the pair of
//! tips.
use vstd::prelude::*;

use lru::LruCache;
use std::collections::hash_map::RandomState;
use std::num::NonZeroUsize;

use crate::pr::error::PrError;
use crate::pr::types::{lfs_magic, FileContent};
use crate::text::{clone_string, string_from_str};

verus! {

/// `lru::LruCache`, a hash map that remembers the order in which its
/// entries were last used and drops the least recently used one when full.
#[verifier::external_type_specification]
#[verifier::external_body]
#[verifier::reject_recursive_types(K)]
#[verifier::reject_recursive_types(V)]
#[verifier::reject_recursive_types(S)]
pub struct ExLruCache<K, V, S>(LruCache<K, V, S>);

/// One file a diff touches.
#[derive(Debug)]
pub struct DiffFileEntry {
    pub path: String,
    pub status: char,
    pub insertions: usize,
    pub deletions: usize,
    pub is_binary: bool,
    pub is_lfs: bool,
    pub old_path: Option<String>,
}

/// The changes of a source tip against its merge base with a target tip.
#[derive(Debug)]
pub struct BranchDiff {
    pub source_oid: String,
    pub target_oid: String,
    pub merge_base_oid: String,
    pub files: Vec<DiffFileEntry>,
    pub total_insertions: usize,
    pub total_deletions: usize,
}

/// A diff entry as text and numbers.
pub struct DiffFileEntryView {
    pub path: Seq<char>,
    pub status: char,
    pub insertions: usize,
    pub deletions: usize,
    pub is_binary: bool,
    pub is_lfs: bool,
    pub old_path: Option<Seq<char>>,
}

/// A branch diff as text and numbers.
pub struct BranchDiffView {
    pub source_oid: Seq<char>,
    pub target_oid: Seq<char>,
    pub merge_base_oid: Seq<char>,
    pub files: Seq<DiffFileEntryView>,
    pub total_insertions: usize,
    pub total_deletions: usize,
}

/// The text of an optional string.
pub open spec fn opt_text(o: Option<String>) -> Option<Seq<char>> {
    match o {
        Some(s) => Some(s@),
        None => None,
    }
}

impl View for DiffFileEntry {
    type V = DiffFileEntryView;

    open spec fn view(&self) -> DiffFileEntryView {
        DiffFileEntryView {
            path: self.path@,
            status: self.status,
            insertions: self.insertions,
            deletions: self.deletions,
            is_binary: self.is_binary,
            is_lfs: self.is_lfs,
            old_path: opt_text(self.old_path),
        }
    }
}

impl View for BranchDiff {
    type V = BranchDiffView;

    open spec fn view(&self) -> BranchDiffView {
        BranchDiffView {
            source_oid: self.source_oid@,
            target_oid: self.target_oid@,
            merge_base_oid: self.merge_base_oid@,
            files: self.files@.map_values(|f: DiffFileEntry| f@),
            total_insertions: self.total_insertions,
            total_deletions: self.total_deletions,
        }
    }
}

fn copy_opt_string(o: &Option<String>) -> (r: Option<String>)
    ensures
        opt_text(r) == opt_text(*o),
{
    match o {
        Some(s) => Some(clone_string(s)),
        None => None,
    }
}

impl DiffFileEntry {
    /// A copy of the entry.
    pub fn duplicate(&self) -> (r: DiffFileEntry)
        ensures
            r@ == self@,
    {
        DiffFileEntry {
            path: clone_string(&self.path),
            status: self.status,
            insertions: self.insertions,
            deletions: self.deletions,
            is_binary: self.is_binary,
            is_lfs: self.is_lfs,
            old_path: copy_opt_string(&self.old_path),
        }
    }
}

impl BranchDiff {
    /// A copy of the diff.
    pub fn duplicate(&self) -> (r: BranchDiff)
        ensures
            r@ == self@,
    {
        let n = self.files.len();
        let mut files: Vec<DiffFileEntry> = Vec::new();
        let mut i: usize = 0;
        while i < n
            invariant
                n == self.files@.len(),
                i <= n,
                files@.len() == i,
                forall|j: int| 0 <= j < i ==> #[trigger] files@[j]@ == self.files@[j]@,
            decreases n - i,
        {
            files.push(self.files[i].duplicate());
            i = i + 1;
        }
        let r = BranchDiff {
            source_oid: clone_string(&self.source_oid),
            target_oid: clone_string(&self.target_oid),
            merge_base_oid: clone_string(&self.merge_base_oid),
            files,
            total_insertions: self.total_insertions,
            total_deletions: self.total_deletions,
        };
        proof {
            assert(r@.files =~= self@.files);
        }
        r
    }
}

/// How a file changed between two trees, as Git classifies it.
#[derive(Debug, Clone, Copy, PartialEq, Eq, Structural)]
pub enum DeltaStatus {
    Unmodified,
    Added,
    Deleted,
    Modified,
    Renamed,
    Copied,
    Ignored,
    Untracked,
    Typechange,
    Unreadable,
    Conflicted,
}

/// The letter a change is shown with.
pub open spec fn status_letter(s: DeltaStatus) -> char {
    match s {
        DeltaStatus::Added => 'A',
        DeltaStatus::Deleted => 'D',
        DeltaStatus::Modified => 'M',
        DeltaStatus::Renamed => 'R',
        DeltaStatus::Copied => 'C',
        DeltaStatus::Typechange => 'T',
        _ => '?',
    }
}

/// The letter a change is shown with.
pub fn status_char(s: DeltaStatus) -> (c: char)
    ensures
        c == status_letter(s),
{
    match s {
        DeltaStatus::Added => 'A',
        DeltaStatus::Deleted => 'D',
        DeltaStatus::Modified => 'M',
        DeltaStatus::Renamed => 'R',
        DeltaStatus::Copied => 'C',
        DeltaStatus::Typechange => 'T',
        _ => '?',
    }
}

/// Whether the new side's blob must be read to tell an LFS pointer: the
/// change is not binary and the new side has an object (its id does not
/// start with a zero byte).
pub open spec fn lfs_read_needed(is_binary: bool, new_id: Seq<u8>) -> bool {
    !is_binary && new_id.len() > 0 && new_id[0] != 0
}

/// Whether the new side's blob must be read to tell an LFS pointer.
pub fn needs_lfs_check(is_binary: bool, new_id: &[u8]) -> (b: bool)
    ensures
        b == lfs_read_needed(is_binary, new_id@),
{
    !is_binary && new_id.len() > 0 && new_id[0] != 0
}

/// Whether some bytes start like a Git LFS pointer file.
pub open spec fn lfs_pointer(data: Seq<u8>) -> bool {
    data.len() >= lfs_magic().len() && data.take(lfs_magic().len() as int) == lfs_magic()
}

/// The entry for one change: shown under its new path (else its old path,
/// else no path), with its old path only when renamed, and marked LFS when
/// it is not binary and its new blob, when one was read, is an LFS pointer.
/// Line counts per file are not collected.
pub fn diff_file_entry(
    new_path: Option<String>,
    old_path: Option<String>,
    status: DeltaStatus,
    is_binary: bool,
    new_blob: Option<&[u8]>,
) -> (e: DiffFileEntry)
    ensures
        e.path@ == (match new_path {
            Some(p) => p@,
            None => match old_path {
                Some(p) => p@,
                None => Seq::<char>::empty(),
            },
        }),
        e.status == status_letter(status),
        e.insertions == 0,
        e.deletions == 0,
        e.is_binary == is_binary,
        e.is_lfs == (!is_binary && (new_blob matches Some(b) && lfs_pointer(b@))),
        opt_text(e.old_path) == (if status == DeltaStatus::Renamed {
            opt_text(old_path)
        } else {
            None
        }),
{
    let shown_old = if status == DeltaStatus::Renamed {
        copy_opt_string(&old_path)
    } else {
        None
    };
    let path = match new_path {
        Some(p) => p,
        None => match old_path {
            Some(p) => p,
            None => String::new(),
        },
    };
    let is_lfs = if is_binary {
        false
    } else {
        match new_blob {
            Some(b) => FileContent::is_lfs_pointer(b),
            None => false,
        }
    };
    DiffFileEntry {
        path,
        status: status_char(status),
        insertions: 0,
        deletions: 0,
        is_binary,
        is_lfs,
        old_path: shown_old,
    }
}

/// A cache key: the source and target tips.
pub open spec fn key_text(k: (String, String)) -> (Seq<char>, Seq<char>) {
    (k.0@, k.1@)
}

/// The cached diffs, most recently used first, each under its pair of tips.
pub uninterp spec fn diff_cache_entries(c: LruCache<(String, String), BranchDiff, RandomState>) -> Seq<
    ((Seq<char>, Seq<char>), BranchDiffView),
>;

/// The number of diffs the cache was made to hold.
pub uninterp spec fn diff_cache_capacity(c: LruCache<(String, String), BranchDiff, RandomState>) -> nat;

/// Whether an entry list holds the key.
pub open spec fn holds_key(e: Seq<((Seq<char>, Seq<char>), BranchDiffView)>, k: (Seq<char>, Seq<char>)) -> bool {
    exists|i: int| 0 <= i < e.len() && (#[trigger] e[i]).0 == k
}

/// Where the key stands in an entry list that holds it.
pub open spec fn key_position(e: Seq<((Seq<char>, Seq<char>), BranchDiffView)>, k: (Seq<char>, Seq<char>)) -> int {
    choose|i: int| 0 <= i < e.len() && (#[trigger] e[i]).0 == k
}

/// The diff stored under the key.
pub open spec fn cached(e: Seq<((Seq<char>, Seq<char>), BranchDiffView)>, k: (Seq<char>, Seq<char>)) -> Option<
    BranchDiffView,
> {
    if holds_key(e, k) {
        Some(e[key_position(e, k)].1)
    } else {
        None
    }
}

/// No key twice, and no more entries than the capacity, which is at least one.
pub open spec fn lru_wf(e: Seq<((Seq<char>, Seq<char>), BranchDiffView)>, cap: nat) -> bool {
    &&& 1 <= cap
    &&& e.len() <= cap
    &&& forall|i: int, j: int| 0 <= i < j < e.len() ==> (#[trigger] e[i]).0 != (#[trigger] e[j]).0
}

/// The entries after a lookup of the key: a found entry moves to the front.
pub open spec fn after_get(e: Seq<((Seq<char>, Seq<char>), BranchDiffView)>, k: (Seq<char>, Seq<char>)) -> Seq<
    ((Seq<char>, Seq<char>), BranchDiffView),
> {
    if holds_key(e, k) {
        seq![e[key_position(e, k)]] + e.remove(key_position(e, k))
    } else {
        e
    }
}

/// The entries after storing `v` under the key: it goes to the front,
/// replacing the key's old entry, or else the least recently used entry
/// when the cache is full.
pub open spec fn after_put(
    e: Seq<((Seq<char>, Seq<char>), BranchDiffView)>,
    cap: nat,
    k: (Seq<char>, Seq<char>),
    v: BranchDiffView,
) -> Seq<((Seq<char>, Seq<char>), BranchDiffView)> {
    if holds_key(e, k) {
        seq![(k, v)] + e.remove(key_position(e, k))
    } else if e.len() >= cap {
        seq![(k, v)] + e.drop_last()
    } else {
        seq![(k, v)] + e
    }
}

/// The entries after removing the key.
pub open spec fn after_pop(e: Seq<((Seq<char>, Seq<char>), BranchDiffView)>, k: (Seq<char>, Seq<char>)) -> Seq<
    ((Seq<char>, Seq<char>), BranchDiffView),
> {
    if holds_key(e, k) {
        e.remove(key_position(e, k))
    } else {
        e
    }
}

/// `LruCache::with_hasher`, with std's hasher: an empty cache of the given
/// capacity.
#[verifier::external_body]
fn cache_new(capacity: usize) -> (c: LruCache<(String, String), BranchDiff, RandomState>)
    requires
        capacity >= 1,
    ensures
        lru_wf(diff_cache_entries(c), diff_cache_capacity(c)),
        diff_cache_entries(c).len() == 0,
        diff_cache_capacity(c) == capacity,
{
    LruCache::with_hasher(NonZeroUsize::new(capacity).unwrap(), RandomState::new())
}

/// `LruCache::get`, with the found diff copied out: the entry for the key,
/// which becomes the most recently used.
#[verifier::external_body]
fn cache_get(c: &mut LruCache<(String, String), BranchDiff, RandomState>, key: &(String, String)) -> (r: Option<BranchDiff>)
    ensures
        lru_wf(diff_cache_entries(*final(c)), diff_cache_capacity(*final(c))),
        diff_cache_entries(*final(c)) == after_get(diff_cache_entries(*old(c)), key_text(*key)),
        diff_cache_capacity(*final(c)) == diff_cache_capacity(*old(c)),
        match r {
            Some(d) => cached(diff_cache_entries(*old(c)), key_text(*key)) == Some(d@),
            None => cached(diff_cache_entries(*old(c)), key_text(*key)) is None,
        },
{
    c.get(key).map(|d| d.duplicate())
}

/// `LruCache::put`: store the diff under the key as the most recently used
/// entry, replacing the key's old entry, else evicting the least recently
/// used one when full; the replaced value of the key is returned.
#[verifier::external_body]
fn cache_put(c: &mut LruCache<(String, String), BranchDiff, RandomState>, key: (String, String), value: BranchDiff) -> (r: Option<
    BranchDiff,
>)
    ensures
        lru_wf(diff_cache_entries(*final(c)), diff_cache_capacity(*final(c))),
        diff_cache_entries(*final(c)) == after_put(
            diff_cache_entries(*old(c)),
            diff_cache_capacity(*old(c)),
            key_text(key),
            value@,
        ),
        diff_cache_capacity(*final(c)) == diff_cache_capacity(*old(c)),
        match r {
            Some(d) => cached(diff_cache_entries(*old(c)), key_text(key)) == Some(d@),
            None => cached(diff_cache_entries(*old(c)), key_text(key)) is None,
        },
{
    c.put(key, value)
}

/// `LruCache::pop`: remove the key's entry, returning its value.
#[verifier::external_body]
fn cache_pop(c: &mut LruCache<(String, String), BranchDiff, RandomState>, key: &(String, String)) -> (r: Option<BranchDiff>)
    ensures
        lru_wf(diff_cache_entries(*final(c)), diff_cache_capacity(*final(c))),
        diff_cache_entries(*final(c)) == after_pop(diff_cache_entries(*old(c)), key_text(*key)),
        diff_cache_capacity(*final(c)) == diff_cache_capacity(*old(c)),
        match r {
            Some(d) => cached(diff_cache_entries(*old(c)), key_text(*key)) == Some(d@),
            None => cached(diff_cache_entries(*old(c)), key_text(*key)) is None,
        },
{
    c.pop(key)
}

/// `LruCache::clear`: drop every entry.
#[verifier::external_body]
fn cache_clear(c: &mut LruCache<(String, String), BranchDiff, RandomState>)
    ensures
        lru_wf(diff_cache_entries(*final(c)), diff_cache_capacity(*final(c))),
        diff_cache_entries(*final(c)).len() == 0,
        diff_cache_capacity(*final(c)) == diff_cache_capacity(*old(c)),
{
    c.clear()
}

proof fn lemma_remove_keeps_wf(e: Seq<((Seq<char>, Seq<char>), BranchDiffView)>, cap: nat, p: int)
    requires
        lru_wf(e, cap),
        0 <= p < e.len(),
    ensures
        lru_wf(e.remove(p), cap),
        forall|k: (Seq<char>, Seq<char>)| k != e[p].0 ==> #[trigger] holds_key(e.remove(p), k) == holds_key(e, k),
        !holds_key(e.remove(p), e[p].0),
{
    let r = e.remove(p);
    assert forall|i: int, j: int| 0 <= i < j < r.len() implies (#[trigger] r[i]).0 != (#[trigger] r[j]).0 by {
        let a = if i < p { i } else { i + 1 };
        let b = if j < p { j } else { j + 1 };
        assert(r[i] == e[a] && r[j] == e[b]);
    }
    assert forall|k: (Seq<char>, Seq<char>)| k != e[p].0 implies #[trigger] holds_key(r, k) == holds_key(e, k) by {
        if holds_key(e, k) {
            let i = choose|i: int| 0 <= i < e.len() && (#[trigger] e[i]).0 == k;
            if i < p {
                assert(r[i] == e[i]);
            } else {
                assert(r[i - 1] == e[i]);
            }
        }
        if holds_key(r, k) {
            let i = choose|i: int| 0 <= i < r.len() && (#[trigger] r[i]).0 == k;
            if i < p {
                assert(r[i] == e[i]);
            } else {
                assert(r[i] == e[i + 1]);
            }
        }
    }
    if holds_key(r, e[p].0) {
        let i = choose|i: int| 0 <= i < r.len() && (#[trigger] r[i]).0 == e[p].0;
        if i < p {
            assert(r[i] == e[i]);
        } else {
            assert(r[i] == e[i + 1]);
        }
    }
}

/// Storing keeps the cache well formed, and the stored diff is then the one
/// found under its key.
proof fn lemma_after_put(
    e: Seq<((Seq<char>, Seq<char>), BranchDiffView)>,
    cap: nat,
    k: (Seq<char>, Seq<char>),
    v: BranchDiffView,
)
    requires
        lru_wf(e, cap),
    ensures
        lru_wf(after_put(e, cap, k, v), cap),
        cached(after_put(e, cap, k, v), k) == Some(v),
        after_put(e, cap, k, v)[0] == (k, v),
{
    let n = after_put(e, cap, k, v);
    let rest = if holds_key(e, k) {
        e.remove(key_position(e, k))
    } else if e.len() >= cap {
        e.drop_last()
    } else {
        e
    };
    assert(n == seq![(k, v)] + rest);
    if holds_key(e, k) {
        lemma_remove_keeps_wf(e, cap, key_position(e, k));
    } else if e.len() >= cap {
        assert(e.len() > 0);
        assert(e.drop_last() == e.remove(e.len() - 1));
        lemma_remove_keeps_wf(e, cap, e.len() - 1);
        assert(!holds_key(rest, k)) by {
            if holds_key(rest, k) {
                let i = choose|i: int| 0 <= i < rest.len() && (#[trigger] rest[i]).0 == k;
                assert(e[i] == rest[i]);
            }
        }
    }
    assert(!holds_key(rest, k));
    assert forall|i: int, j: int| 0 <= i < j < n.len() implies (#[trigger] n[i]).0 != (#[trigger] n[j]).0 by {
        if i == 0 {
            assert(n[j] == rest[j - 1]);
            if rest[j - 1].0 == k {
                assert(holds_key(rest, k));
            }
        } else {
            assert(n[i] == rest[i - 1] && n[j] == rest[j - 1]);
        }
    }
    assert(n[0].0 == k);
    assert(holds_key(n, k));
    let p = key_position(n, k);
    if p != 0 {
        assert(n[p].0 == n[0].0);
    }
}

/// Computing diffs between branches, with the most recent ones cached.
pub struct DiffService {
    cache: LruCache<(String, String), BranchDiff, RandomState>,
}

impl DiffService {
    /// The cached diffs, most recently used first.
    pub closed spec fn entries(&self) -> Seq<((Seq<char>, Seq<char>), BranchDiffView)> {
        diff_cache_entries(self.cache)
    }

    /// How many diffs the cache holds at most.
    pub closed spec fn capacity(&self) -> nat {
        diff_cache_capacity(self.cache)
    }

    /// The cache is well formed.
    pub open spec fn wf(&self) -> bool {
        lru_wf(self.entries(), self.capacity())
    }

    /// A service caching up to `cache_size` diffs (at least one).
    pub fn new(cache_size: usize) -> (s: Self)
        ensures
            s.wf(),
            s.entries().len() == 0,
            s.capacity() == if cache_size == 0 {
                1
            } else {
                cache_size as nat
            },
    {
        let cap = if cache_size == 0 {
            1
        } else {
            cache_size
        };
        DiffService { cache: cache_new(cap) }
    }

    /// The diff between `source_oid` and `target_oid`: the cached one when
    /// there is one (which becomes the most recently used), else the one
    /// `compute` gives, which is then cached as the most recently used.
    pub fn get_branch_diff<F: FnOnce() -> Result<BranchDiff, PrError>>(
        &mut self,
        source_oid: &str,
        target_oid: &str,
        compute: F,
    ) -> (r: Result<BranchDiff, PrError>)
        requires
            old(self).wf(),
            compute.requires(()),
        ensures
            final(self).wf(),
            final(self).capacity() == old(self).capacity(),
            match cached(old(self).entries(), (source_oid@, target_oid@)) {
                Some(d) => r matches Ok(x) && x@ == d && final(self).entries() == after_get(
                    old(self).entries(),
                    (source_oid@, target_oid@),
                ),
                None => compute.ensures((), r) && match r {
                    Ok(x) => final(self).entries() == after_put(
                        old(self).entries(),
                        old(self).capacity(),
                        (source_oid@, target_oid@),
                        x@,
                    ),
                    Err(_) => final(self).entries() == old(self).entries(),
                },
            },
    {
        let key = (string_from_str(source_oid), string_from_str(target_oid));
        proof {
            assert(key_text(key) == (source_oid@, target_oid@));
        }
        let found = cache_get(&mut self.cache, &key);
        match found {
            Some(d) => Ok(d),
            None => {
                let computed = compute();
                match computed {
                    Ok(diff) => {
                        let copy = diff.duplicate();
                        let _ = cache_put(&mut self.cache, key, copy);
                        Ok(diff)
                    },
                    Err(e) => Err(e),
                }
            },
        }
    }

    /// Forget the cached diff between `source_oid` and `target_oid`.
    pub fn invalidate(&mut self, source_oid: &str, target_oid: &str)
        requires
            old(self).wf(),
        ensures
            final(self).wf(),
            final(self).capacity() == old(self).capacity(),
            final(self).entries() == after_pop(old(self).entries(), (source_oid@, target_oid@)),
    {
        let key = (string_from_str(source_oid), string_from_str(target_oid));
        proof {
            assert(key_text(key) == (source_oid@, target_oid@));
        }
        let _ = cache_pop(&mut self.cache, &key);
    }

    /// Forget every cached diff.
    pub fn invalidate_all(&mut self)
        requires
            old(self).wf(),
        ensures
            final(self).wf(),
            final(self).capacity() == old(self).capacity(),
            final(self).entries().len() == 0,
    {
        cache_clear(&mut self.cache);
    }
}

/// What is stored can be read back: right after a diff is stored under a
/// pair of tips, the cache finds it there, as its most recently used entry,
/// and the cache never holds more diffs than its capacity.
pub proof fn law_cache_read_after_store(
    e: Seq<((Seq<char>, Seq<char>), BranchDiffView)>,
    cap: nat,
    k: (Seq<char>, Seq<char>),
    v: BranchDiffView,
)
    requires
        lru_wf(e, cap),
    ensures
        cached(after_put(e, cap, k, v), k) == Some(v),
        after_put(e, cap, k, v)[0] == (k, v),
        after_put(e, cap, k, v).len() <= cap,
{
    lemma_after_put(e, cap, k, v);
}

/// After a pair of tips is invalidated the cache no longer finds a diff for
/// it, and every other pair is found as before.
pub proof fn law_invalidate_forgets_only_that_pair(
    e: Seq<((Seq<char>, Seq<char>), BranchDiffView)>,
    cap: nat,
    k: (Seq<char>, Seq<char>),
    other: (Seq<char>, Seq<char>),
)
    requires
        lru_wf(e, cap),
        other != k,
    ensures
        cached(after_pop(e, k), k) is None,
        cached(after_pop(e, k), other) == cached(e, other),
{
    if holds_key(e, k) {
        let p = key_position(e, k);
        lemma_remove_keeps_wf(e, cap, p);
        let r = e.remove(p);
        if holds_key(e, other) {
            let q = key_position(e, other);
            let q2 = key_position(r, other);
            assert(holds_key(r, other));
            if q2 < p {
                assert(r[q2] == e[q2]);
                assert(q2 == q);
            } else {
                assert(r[q2] == e[q2 + 1]);
                assert(q2 + 1 == q);
            }
        }
    }
}

/// A lookup changes which entry is most recently used, never what is
/// stored: every pair is found with the same diff as before.
pub proof fn law_lookup_keeps_contents(
    e: Seq<((Seq<char>, Seq<char>), BranchDiffView)>,
    cap: nat,
    k: (Seq<char>, Seq<char>),
    other: (Seq<char>, Seq<char>),
)
    requires
        lru_wf(e, cap),
    ensures
        cached(after_get(e, k), other) == cached(e, other),
{
    if holds_key(e, k) {
        let p = key_position(e, k);
        lemma_remove_keeps_wf(e, cap, p);
        let r = e.remove(p);
        let n = after_get(e, k);
        assert(n == seq![e[p]] + r);
        if other == k {
            assert(n[0].0 == k);
            assert(holds_key(n, k));
            let q = key_position(n, k);
            if q != 0 {
                assert(n[q] == r[q - 1]);
                assert(holds_key(r, k));
            }
        } else {
            if holds_key(e, other) {
                let q = key_position(e, other);
                assert(holds_key(r, other));
                let q2 = key_position(r, other);
                assert(n[q2 + 1] == r[q2]);
                assert(holds_key(n, other));
                let q3 = key_position(n, other);
                if q3 == 0 {
                    assert(n[0].0 == k);
                } else {
                    assert(n[q3] == r[q3 - 1]);
                    if q3 - 1 != q2 {
                        assert(r[q3 - 1].0 == r[q2].0);
                    }
                }
                if q2 < p {
                    assert(r[q2] == e[q2]);
                } else {
                    assert(r[q2] == e[q2 + 1]);
                }
            } else {
                assert(!holds_key(r, other));
                if holds_key(n, other) {
                    let q3 = key_position(n, other);
                    if q3 > 0 {
                        assert(n[q3] == r[q3 - 1]);
                    }
                }
            }
        }
    }
}

} // verus!

verus! {

/// The kinds of change a diff names with their own letter.
pub open spec fn named_kind(s: DeltaStatus) -> bool {
    s == DeltaStatus::Added || s == DeltaStatus::Deleted || s == DeltaStatus::Modified || s == DeltaStatus::Renamed
        || s == DeltaStatus::Copied || s == DeltaStatus::Typechange
}

/// Each named kind of change shows its own Git letter (added `A`, deleted
/// `D`, modified `M`, renamed `R`, copied `C`, type change `T`), so two
/// different named kinds never share a letter; every other kind shows `?`,
/// which no named kind shows.
pub proof fn law_change_kinds_have_distinct_letters(a: DeltaStatus, b: DeltaStatus)
    ensures
        named_kind(a) && named_kind(b) && a != b ==> status_letter(a) != status_letter(b),
        (status_letter(a) == '?') <==> !named_kind(a),
        a == DeltaStatus::Added ==> status_letter(a) == 'A',
        a == DeltaStatus::Deleted ==> status_letter(a) == 'D',
        a == DeltaStatus::Modified ==> status_letter(a) == 'M',
        a == DeltaStatus::Renamed ==> status_letter(a) == 'R',
        a == DeltaStatus::Copied ==> status_letter(a) == 'C',
        a == DeltaStatus::Typechange ==> status_letter(a) == 'T',
{
}

} // verus!
