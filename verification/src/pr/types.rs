//! The records a local pull request is made of.
use vstd::prelude::*;
use vstd::utf8::{decode_utf8, encode_utf8, valid_utf8};

use crate::text::push_char;

verus! {

/// Where a pull request stands.
#[derive(Debug, Clone, Copy, PartialEq, Eq, Structural)]
pub enum PrStatus {
    Open,
    Merged,
    Closed,
}

/// The stored name of each status.
pub open spec fn status_name(s: PrStatus) -> Seq<char> {
    match s {
        PrStatus::Open => "open"@,
        PrStatus::Merged => "merged"@,
        PrStatus::Closed => "closed"@,
    }
}

impl PrStatus {
    /// The stored name of the status.
    pub fn as_str(&self) -> (s: &'static str)
        ensures
            s@ == status_name(*self),
    {
        match self {
            PrStatus::Open => "open",
            PrStatus::Merged => "merged",
            PrStatus::Closed => "closed",
        }
    }

    /// The status with the given stored name.
    pub fn from_str(s: &str) -> (r: Option<PrStatus>)
        ensures
            match r {
                Some(st) => status_name(st) == s@,
                None => forall|st: PrStatus| status_name(st) != s@,
            },
    {
        if crate::text::same_text(s, "open") {
            Some(PrStatus::Open)
        } else if crate::text::same_text(s, "merged") {
            Some(PrStatus::Merged)
        } else if crate::text::same_text(s, "closed") {
            Some(PrStatus::Closed)
        } else {
            proof {
                assert forall|st: PrStatus| status_name(st) != s@ by {
                    match st {
                        PrStatus::Open => {},
                        PrStatus::Merged => {},
                        PrStatus::Closed => {},
                    }
                }
            }
            None
        }
    }
}

/// Different statuses have different names, so reading back a stored name
/// gives the status that was stored.
pub proof fn law_status_names_round_trip(a: PrStatus, b: PrStatus)
    ensures
        status_name(a) == status_name(b) ==> a == b,
{
    reveal_strlit("open");
    reveal_strlit("merged");
    reveal_strlit("closed");
    if a != b {
        assert(status_name(a).len() != status_name(b).len() || status_name(a)[0] != status_name(b)[0]);
    }
}

/// How a pull request is merged.
#[derive(Debug, Clone, Copy, PartialEq, Eq, Structural)]
pub enum MergeStrategy {
    MergeCommit,
    Squash,
}

/// The stored name of each strategy.
pub open spec fn strategy_name(s: MergeStrategy) -> Seq<char> {
    match s {
        MergeStrategy::MergeCommit => "merge"@,
        MergeStrategy::Squash => "squash"@,
    }
}

impl MergeStrategy {
    /// The stored name of the strategy.
    pub fn as_str(&self) -> (s: &'static str)
        ensures
            s@ == strategy_name(*self),
    {
        match self {
            MergeStrategy::MergeCommit => "merge",
            MergeStrategy::Squash => "squash",
        }
    }

    /// The strategy with the given stored name.
    pub fn from_str(s: &str) -> (r: Option<MergeStrategy>)
        ensures
            match r {
                Some(st) => strategy_name(st) == s@,
                None => forall|st: MergeStrategy| strategy_name(st) != s@,
            },
    {
        if crate::text::same_text(s, "merge") {
            Some(MergeStrategy::MergeCommit)
        } else if crate::text::same_text(s, "squash") {
            Some(MergeStrategy::Squash)
        } else {
            proof {
                assert forall|st: MergeStrategy| strategy_name(st) != s@ by {
                    match st {
                        MergeStrategy::MergeCommit => {},
                        MergeStrategy::Squash => {},
                    }
                }
            }
            None
        }
    }
}

/// Different strategies have different names.
pub proof fn law_strategy_names_round_trip(a: MergeStrategy, b: MergeStrategy)
    ensures
        strategy_name(a) == strategy_name(b) ==> a == b,
{
    reveal_strlit("merge");
    reveal_strlit("squash");
    if a != b {
        assert(strategy_name(a).len() != strategy_name(b).len());
    }
}

/// A local pull request. Its timestamps are RFC 3339 text, as stored.
#[derive(Debug)]
pub struct LocalPr {
    pub id: i64,
    pub repo_id: i64,
    pub title: String,
    pub source_branch: String,
    pub target_branch: String,
    pub source_oid: String,
    pub target_oid: String,
    pub status: PrStatus,
    pub merge_strategy: Option<MergeStrategy>,
    pub merged_oid: Option<String>,
    pub created_at: String,
    pub updated_at: String,
}

/// What is known about a branch a pull request was recorded against.
#[derive(Debug, Clone)]
pub struct BranchHealth {
    pub exists: bool,
    pub force_pushed: bool,
    pub ahead: u32,
    pub behind: u32,
    pub current_oid: Option<String>,
}

impl Default for BranchHealth {
    /// An existing branch, not force-pushed, level with its record.
    fn default() -> (h: Self)
        ensures
            h.exists,
            !h.force_pushed,
            h.ahead == 0,
            h.behind == 0,
            h.current_oid is None,
    {
        BranchHealth { exists: true, force_pushed: false, ahead: 0, behind: 0, current_oid: None }
    }
}

/// How a file's bytes are to be read.
#[derive(Debug, Clone, Copy, PartialEq, Eq, Structural)]
pub enum ContentEncoding {
    Utf8,
    Latin1,
    Binary,
}

/// A file's bytes, how they decode, and whether they are a Git LFS pointer.
#[derive(Debug, Clone)]
pub struct FileContent {
    pub data: Vec<u8>,
    pub encoding: ContentEncoding,
    pub is_lfs: bool,
}

/// Each byte read as the character of the same number.
pub open spec fn latin1_chars(data: Seq<u8>) -> Seq<char> {
    Seq::new(data.len(), |i: int| data[i] as char)
}

/// The first line of a Git LFS pointer file.
pub open spec fn lfs_magic() -> Seq<u8> {
    encode_utf8("version https://git-lfs.github.com/spec/v1"@)
}

/// The encoding a file's bytes are shown in: UTF-8 when they are valid
/// UTF-8 (the empty file included), binary when they hold a zero byte, and
/// Latin-1 otherwise.
pub open spec fn encoding_of(data: Seq<u8>) -> ContentEncoding {
    if data.len() == 0 || valid_utf8(data) {
        ContentEncoding::Utf8
    } else if data.contains(0u8) {
        ContentEncoding::Binary
    } else {
        ContentEncoding::Latin1
    }
}

/// `String::from_utf8`: it succeeds exactly on valid UTF-8, and the string
/// holds the decoded characters.
#[verifier::external_body]
pub(crate) fn string_from_utf8(bytes: Vec<u8>) -> (r: Option<String>)
    ensures
        r is Some <==> valid_utf8(bytes@),
        r matches Some(s) ==> s@ == decode_utf8(bytes@),
{
    String::from_utf8(bytes).ok()
}

/// `std::str::from_utf8(..).is_ok()`: whether the bytes are valid UTF-8.
#[verifier::external_body]
pub(crate) fn is_utf8(bytes: &[u8]) -> (b: bool)
    ensures
        b == valid_utf8(bytes@),
{
    std::str::from_utf8(bytes).is_ok()
}

impl FileContent {
    /// The text of the file: decoded UTF-8 (none when the bytes are not
    /// valid UTF-8), one character per byte for Latin-1, none for binary.
    pub fn as_text(&self) -> (t: Option<String>)
        ensures
            match self.encoding {
                ContentEncoding::Utf8 => match t {
                    Some(s) => valid_utf8(self.data@) && s@ == decode_utf8(self.data@),
                    None => !valid_utf8(self.data@),
                },
                ContentEncoding::Latin1 => t matches Some(s) && s@ == latin1_chars(self.data@),
                ContentEncoding::Binary => t is None,
            },
    {
        match self.encoding {
            ContentEncoding::Utf8 => {
                let copy = crate::text::copy_bytes(self.data.as_slice());
                string_from_utf8(copy)
            },
            ContentEncoding::Latin1 => {
                let mut s = String::new();
                let n = self.data.len();
                let mut i: usize = 0;
                while i < n
                    invariant
                        n == self.data@.len(),
                        i <= n,
                        s@ == latin1_chars(self.data@).take(i as int),
                    decreases n - i,
                {
                    push_char(&mut s, self.data[i] as char);
                    i = i + 1;
                    proof {
                        assert(s@ =~= latin1_chars(self.data@).take(i as int));
                    }
                }
                proof {
                    assert(latin1_chars(self.data@).take(n as int) =~= latin1_chars(self.data@));
                }
                Some(s)
            },
            ContentEncoding::Binary => None,
        }
    }

    /// The encoding to show the bytes in.
    pub fn detect_encoding(data: &[u8]) -> (e: ContentEncoding)
        ensures
            e == encoding_of(data@),
    {
        if data.len() == 0 {
            return ContentEncoding::Utf8;
        }
        if is_utf8(data) {
            ContentEncoding::Utf8
        } else if contains_zero(data) {
            ContentEncoding::Binary
        } else {
            ContentEncoding::Latin1
        }
    }

    /// Whether the bytes start like a Git LFS pointer file.
    pub fn is_lfs_pointer(data: &[u8]) -> (b: bool)
        ensures
            b == (data@.len() >= lfs_magic().len() && data@.take(lfs_magic().len() as int) == lfs_magic()),
    {
        let magic = "version https://git-lfs.github.com/spec/v1".as_bytes();
        let m = magic.len();
        if data.len() < m {
            return false;
        }
        let mut i: usize = 0;
        while i < m
            invariant
                m == magic@.len(),
                magic@ == lfs_magic(),
                m <= data@.len(),
                i <= m,
                forall|j: int| 0 <= j < i ==> data@[j] == magic@[j],
            decreases m - i,
        {
            if data[i] != magic[i] {
                proof {
                    assert(data@.take(m as int)[i as int] != lfs_magic()[i as int]);
                }
                return false;
            }
            i = i + 1;
        }
        proof {
            assert(data@.take(m as int) =~= lfs_magic());
        }
        true
    }
}

/// Whether a zero byte occurs.
fn contains_zero(data: &[u8]) -> (b: bool)
    ensures
        b == data@.contains(0u8),
{
    let n = data.len();
    let mut i: usize = 0;
    while i < n
        invariant
            n == data@.len(),
            i <= n,
            forall|j: int| 0 <= j < i ==> data@[j] != 0u8,
        decreases n - i,
    {
        if data[i] == 0u8 {
            proof {
                assert(data@[i as int] == 0u8);
            }
            return true;
        }
        i = i + 1;
    }
    false
}

/// The three sides of a conflicted file.
#[derive(Debug, Clone)]
pub struct ThreeWayContent {
    pub base: Option<FileContent>,
    pub ours: FileContent,
    pub theirs: FileContent,
}

/// A recorded pair of branch tips of a pull request.
#[derive(Debug)]
pub struct PrSnapshot {
    pub id: i64,
    pub pr_id: i64,
    pub source_oid: String,
    pub target_oid: String,
    pub is_force_push: bool,
    pub created_at: String,
}

/// How a repository is recognised across moves and clones.
#[derive(Debug)]
pub struct RepoRecord {
    pub id: i64,
    pub first_commit_oid: String,
    pub remote_urls_hash: String,
    pub canonical_path: String,
    pub created_at: String,
}

} // verus!
