//! What can go wrong with local pull requests.
use vstd::prelude::*;

use crate::text::{decimal, push_decimal, push_str, string_from_str};

verus! {

/// A pull-request failure. Database, Git and operating-system failures are
/// carried as their messages.
#[derive(Debug, Clone)]
pub enum PrError {
    NotFound(i64),
    RepoNotFound(String),
    BranchNotFound(String),
    InvalidStatusTransition { from: String, to: String },
    SameBranch(String),
    DuplicatePr,
    TargetMoved,
    MergeConflicts,
    Database(String),
    AsyncDatabase(String),
    Git(String),
    Io(String),
    Other(String),
}

/// The decimal form of a signed number.
pub open spec fn signed_decimal(n: int) -> Seq<char> {
    if n < 0 {
        seq!['-'] + decimal((-n) as nat)
    } else {
        decimal(n as nat)
    }
}

/// The message shown for each failure.
pub open spec fn pr_error_message(e: PrError) -> Seq<char> {
    match e {
        PrError::NotFound(id) => "PR not found: "@ + signed_decimal(id as int),
        PrError::RepoNotFound(s) => "Repo not found: "@ + s@,
        PrError::BranchNotFound(s) => "Branch not found: "@ + s@,
        PrError::InvalidStatusTransition { from, to } => "Invalid status transition from "@ + from@ + " to "@
            + to@,
        PrError::SameBranch(s) => "Source and target branches cannot be the same: "@ + s@,
        PrError::DuplicatePr => "PR already exists for this source/target combination"@,
        PrError::TargetMoved => "Target branch has moved since merge started"@,
        PrError::MergeConflicts => "Merge has conflicts"@,
        PrError::Database(s) => "Database error: "@ + s@,
        PrError::AsyncDatabase(s) => "Database error: "@ + s@,
        PrError::Git(s) => "Git error: "@ + s@,
        PrError::Io(s) => "IO error: "@ + s@,
        PrError::Other(s) => s@,
    }
}

fn prefixed(prefix: &str, s: &String) -> (r: String)
    ensures
        r@ == prefix@ + s@,
{
    let mut r = string_from_str(prefix);
    push_str(&mut r, s.as_str());
    r
}

impl PrError {
    /// The message shown for this failure.
    pub fn message(&self) -> (m: String)
        ensures
            m@ == pr_error_message(*self),
    {
        match self {
            PrError::NotFound(id) => {
                let mut r = string_from_str("PR not found: ");
                if *id < 0 {
                    push_str(&mut r, "-");
                    let mag: u64 = if *id == i64::MIN {
                        9223372036854775808u64
                    } else {
                        (-*id) as u64
                    };
                    push_decimal(&mut r, mag);
                    proof {
                        reveal_strlit("-");
                        assert("-"@ =~= seq!['-']);
                        assert(r@ =~= "PR not found: "@ + signed_decimal(*id as int));
                    }
                } else {
                    push_decimal(&mut r, *id as u64);
                }
                r
            },
            PrError::RepoNotFound(s) => prefixed("Repo not found: ", s),
            PrError::BranchNotFound(s) => prefixed("Branch not found: ", s),
            PrError::InvalidStatusTransition { from, to } => {
                let mut r = string_from_str("Invalid status transition from ");
                push_str(&mut r, from.as_str());
                push_str(&mut r, " to ");
                push_str(&mut r, to.as_str());
                r
            },
            PrError::SameBranch(s) => prefixed("Source and target branches cannot be the same: ", s),
            PrError::DuplicatePr => string_from_str("PR already exists for this source/target combination"),
            PrError::TargetMoved => string_from_str("Target branch has moved since merge started"),
            PrError::MergeConflicts => string_from_str("Merge has conflicts"),
            PrError::Database(s) => prefixed("Database error: ", s),
            PrError::AsyncDatabase(s) => prefixed("Database error: ", s),
            PrError::Git(s) => prefixed("Git error: ", s),
            PrError::Io(s) => prefixed("IO error: ", s),
            PrError::Other(s) => crate::text::clone_string(s),
        }
    }
}

} // verus!
