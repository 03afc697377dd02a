//! The rules a pull request's life follows: which branches may be paired,
//! which status changes are allowed, and how a recorded branch is judged.
use vstd::prelude::*;

use crate::pr::error::PrError;
use crate::pr::types::{status_name, BranchHealth, PrStatus};
use crate::text::{clone_string, same_text, string_from_str};

verus! {

/// A pull request needs two different branches: a source equal to its
/// target is refused with `SameBranch`, naming the source.
pub fn check_distinct_branches(source_branch: &str, target_branch: &str) -> (r: Result<(), PrError>)
    ensures
        r is Ok <==> source_branch@ != target_branch@,
        r matches Err(e) ==> e matches PrError::SameBranch(b) && b@ == source_branch@,
{
    if same_text(source_branch, target_branch) {
        Err(PrError::SameBranch(string_from_str(source_branch)))
    } else {
        Ok(())
    }
}

/// Retargeting may not point a pull request at its own source branch; that
/// is refused with `SameBranch`, naming the new target.
pub fn check_retarget(source_branch: &str, new_target: &str) -> (r: Result<(), PrError>)
    ensures
        r is Ok <==> new_target@ != source_branch@,
        r matches Err(e) ==> e matches PrError::SameBranch(b) && b@ == new_target@,
{
    if same_text(new_target, source_branch) {
        Err(PrError::SameBranch(string_from_str(new_target)))
    } else {
        Ok(())
    }
}

/// Whether a status change is refused as the change from `from` to the
/// status named `to`.
pub open spec fn refused_transition(e: PrError, from: PrStatus, to: Seq<char>) -> bool {
    e matches PrError::InvalidStatusTransition { from: f, to: t } && f@ == status_name(from) && t@ == to
}

/// The status closing leads to: only an open pull request can be closed.
pub open spec fn closed_from(status: PrStatus) -> Option<PrStatus> {
    match status {
        PrStatus::Open => Some(PrStatus::Closed),
        _ => None,
    }
}

/// The status reopening leads to: only a closed pull request can be reopened.
pub open spec fn reopened_from(status: PrStatus) -> Option<PrStatus> {
    match status {
        PrStatus::Closed => Some(PrStatus::Open),
        _ => None,
    }
}

/// The status after closing; any other status than open is refused as the
/// change from it to `closed`.
pub fn close_transition(status: PrStatus) -> (r: Result<PrStatus, PrError>)
    ensures
        match r {
            Ok(s) => closed_from(status) == Some(s),
            Err(e) => closed_from(status) is None && refused_transition(e, status, "closed"@),
        },
{
    match status {
        PrStatus::Open => Ok(PrStatus::Closed),
        _ => Err(PrError::InvalidStatusTransition {
            from: string_from_str(status.as_str()),
            to: string_from_str("closed"),
        }),
    }
}

/// The status after reopening; any other status than closed is refused as
/// the change from it to `open`.
pub fn reopen_transition(status: PrStatus) -> (r: Result<PrStatus, PrError>)
    ensures
        match r {
            Ok(s) => reopened_from(status) == Some(s),
            Err(e) => reopened_from(status) is None && refused_transition(e, status, "open"@),
        },
{
    match status {
        PrStatus::Closed => Ok(PrStatus::Open),
        _ => Err(PrError::InvalidStatusTransition {
            from: string_from_str(status.as_str()),
            to: string_from_str("open"),
        }),
    }
}

/// Reopening undoes closing and closing undoes reopening; a merged pull
/// request can be neither closed nor reopened.
pub proof fn law_close_reopen_round_trip(status: PrStatus)
    ensures
        closed_from(status) matches Some(c) ==> reopened_from(c) == Some(status),
        reopened_from(status) matches Some(o) ==> closed_from(o) == Some(status),
        status == PrStatus::Merged ==> closed_from(status) is None && reopened_from(status) is None,
{
}

/// Whether a text is an object id Git accepts: one to forty hexadecimal
/// digits, either case.
pub open spec fn oid_text(s: Seq<char>) -> bool {
    &&& 1 <= s.len() <= 40
    &&& forall|i: int| 0 <= i < s.len() ==> is_hex_char(#[trigger] s[i])
}

/// A hexadecimal digit, either case.
pub open spec fn is_hex_char(c: char) -> bool {
    ('0' <= c && c <= '9') || ('a' <= c && c <= 'f') || ('A' <= c && c <= 'F')
}

/// The value of a hexadecimal digit.
pub open spec fn hex_value(c: char) -> int {
    if '0' <= c && c <= '9' {
        c as int - '0' as int
    } else if 'a' <= c && c <= 'f' {
        c as int - 'a' as int + 10
    } else {
        c as int - 'A' as int + 10
    }
}

/// The digit at position `p`, or 0 past the end.
pub open spec fn nibble(s: Seq<char>, p: int) -> int {
    if p < s.len() {
        hex_value(s[p])
    } else {
        0
    }
}

/// The twenty bytes of the object id a hexadecimal text denotes: digits
/// taken in pairs, high digit first, missing digits read as zero.
pub open spec fn oid_bytes(s: Seq<char>) -> Seq<u8> {
    Seq::new(20, |k: int| (nibble(s, 2 * k) * 16 + nibble(s, 2 * k + 1)) as u8)
}

/// `git2::Oid::from_str`, giving the id's bytes: libgit2 accepts one to
/// forty hexadecimal digits, refuses anything else, and fills the twenty
/// bytes from the digits in pairs, zero past the end.
#[verifier::external_body]
pub(crate) fn parse_oid(s: &str) -> (r: Option<Vec<u8>>)
    ensures
        r is Some <==> oid_text(s@),
        r matches Some(b) ==> b@ == oid_bytes(s@),
{
    match git2::Oid::from_str(s) {
        Ok(oid) => Some(oid.as_bytes().to_vec()),
        Err(_) => None,
    }
}

/// Whether judging a branch needs Git's ancestry answer: only when the
/// branch has a tip and both it and the recorded tip are object ids.
pub open spec fn ancestry_needed(current_oid: Option<Seq<char>>, recorded_oid: Seq<char>) -> bool {
    current_oid matches Some(c) && oid_text(recorded_oid) && oid_text(c)
}

/// Whether a branch was force-pushed past its recorded tip: its current tip
/// is an object id other than the recorded one and Git says it does not
/// descend from it. An unknown ancestry counts as descending.
pub open spec fn force_pushed_spec(current_oid: Option<Seq<char>>, recorded_oid: Seq<char>, descends: Option<bool>) -> bool {
    &&& ancestry_needed(current_oid, recorded_oid)
    &&& descends == Some(false)
    &&& current_oid->0 != recorded_oid
}

/// The text of an optional string.
pub open spec fn opt_view(o: Option<String>) -> Option<Seq<char>> {
    match o {
        Some(s) => Some(s@),
        None => None,
    }
}

/// Whether Git's ancestry answer is needed to judge the branch.
pub fn needs_ancestry_check(current_oid: &Option<String>, recorded_oid: &str) -> (b: bool)
    ensures
        b == ancestry_needed(opt_view(*current_oid), recorded_oid@),
{
    match current_oid {
        Some(c) => parse_oid(recorded_oid).is_some() && parse_oid(c.as_str()).is_some(),
        None => false,
    }
}

/// What is known of a branch recorded at `recorded_oid`: a missing branch
/// is reported as missing and otherwise as the defaults; a present one with
/// its current tip and whether it was force-pushed. `descends` is Git's
/// answer to whether the current tip descends from the recorded one, when
/// it was asked and answered.
pub fn branch_health(found: bool, current_oid: Option<String>, recorded_oid: &str, descends: Option<bool>) -> (h: BranchHealth)
    ensures
        h.exists == found,
        h.ahead == 0,
        h.behind == 0,
        !found ==> !h.force_pushed && h.current_oid is None,
        found ==> opt_view(h.current_oid) == opt_view(current_oid),
        found ==> h.force_pushed == force_pushed_spec(opt_view(current_oid), recorded_oid@, descends),
{
    if !found {
        return BranchHealth { exists: false, force_pushed: false, ahead: 0, behind: 0, current_oid: None };
    }
    let ghost cur = opt_view(current_oid);
    let needed = needs_ancestry_check(&current_oid, recorded_oid);
    let force_pushed = if needed {
        let not_descendant = match descends {
            Some(d) => !d,
            None => false,
        };
        let differs = match &current_oid {
            Some(c) => !same_text(c.as_str(), recorded_oid),
            None => false,
        };
        not_descendant && differs
    } else {
        false
    };
    BranchHealth { exists: true, force_pushed, ahead: 0, behind: 0, current_oid }
}

/// A branch still at its recorded tip is never reported as force-pushed,
/// whatever Git answers.
pub proof fn law_unmoved_branch_not_force_pushed(recorded_oid: Seq<char>, descends: Option<bool>)
    ensures
        !force_pushed_spec(Some(recorded_oid), recorded_oid, descends),
{
}

/// A branch that descends from its recorded tip, or whose ancestry is
/// unknown, is never reported as force-pushed.
pub proof fn law_descendant_not_force_pushed(current_oid: Option<Seq<char>>, recorded_oid: Seq<char>)
    ensures
        !force_pushed_spec(current_oid, recorded_oid, Some(true)),
        !force_pushed_spec(current_oid, recorded_oid, None),
{
}

} // verus!
