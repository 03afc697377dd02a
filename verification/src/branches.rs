//! The branch list: branches ordered by priority (the checked-out branch
//! first, then by the time of their newest commit, newest first, keeping
//! the given order among equals), the local branches' names, and the
//! labels of its sections and rows.
use vstd::prelude::*;

use crate::text::{clone_string, decimal, push_decimal, push_str, string_from_str, string_views};

verus! {

/// How far a branch is ahead of and behind its upstream.
#[derive(Debug, Clone, Copy, PartialEq, Eq, Structural)]
pub struct TrackingStatus {
    pub ahead: u32,
    pub behind: u32,
}

/// A branch as the list shows it: its short name, whether it is a
/// remote-tracking branch, whether it is checked out, the commit time of its
/// newest commit when known, and its upstream tracking status when it has one.
#[derive(Debug)]
pub struct Branch {
    pub name: String,
    pub is_remote: bool,
    pub is_head: bool,
    pub commit_timestamp: Option<i64>,
    pub tracking: Option<TrackingStatus>,
}

/// A branch as text and values.
pub struct BranchView {
    pub name: Seq<char>,
    pub is_remote: bool,
    pub is_head: bool,
    pub commit_timestamp: Option<i64>,
    pub tracking: Option<TrackingStatus>,
}

impl View for Branch {
    type V = BranchView;

    open spec fn view(&self) -> BranchView {
        BranchView {
            name: self.name@,
            is_remote: self.is_remote,
            is_head: self.is_head,
            commit_timestamp: self.commit_timestamp,
            tracking: self.tracking,
        }
    }
}

impl Branch {
    /// A copy of the branch.
    pub fn duplicate(&self) -> (r: Branch)
        ensures
            r@ == self@,
    {
        Branch {
            name: clone_string(&self.name),
            is_remote: self.is_remote,
            is_head: self.is_head,
            commit_timestamp: self.commit_timestamp,
            tracking: self.tracking,
        }
    }
}

/// The branches' views.
pub open spec fn branch_views(v: Seq<Branch>) -> Seq<BranchView> {
    v.map_values(|b: Branch| b@)
}

/// Commit times in order, an unknown time first.
pub open spec fn stamp_le(a: Option<i64>, b: Option<i64>) -> bool {
    match (a, b) {
        (None, _) => true,
        (Some(_), None) => false,
        (Some(x), Some(y)) => x <= y,
    }
}

/// Whether `a`'s priority is at most `b`'s: a checked-out branch ranks
/// above any other, then a later commit time ranks higher.
pub open spec fn priority_le(a: BranchView, b: BranchView) -> bool {
    (!a.is_head && b.is_head) || (a.is_head == b.is_head && stamp_le(a.commit_timestamp, b.commit_timestamp))
}

/// Whether `a`'s priority is strictly below `b`'s.
pub open spec fn priority_lt(a: BranchView, b: BranchView) -> bool {
    priority_le(a, b) && !priority_le(b, a)
}

proof fn lemma_priority_total(a: BranchView, b: BranchView)
    ensures
        priority_le(a, b) || priority_le(b, a),
{
}

proof fn lemma_priority_trans(a: BranchView, b: BranchView, c: BranchView)
    requires
        priority_le(a, b),
        priority_le(b, c),
    ensures
        priority_le(a, c),
{
}

/// Whether `a` ranks strictly below `b`.
pub fn priority_below(a: &Branch, b: &Branch) -> (r: bool)
    ensures
        r == priority_lt(a@, b@),
{
    if a.is_head != b.is_head {
        return !a.is_head;
    }
    match (a.commit_timestamp, b.commit_timestamp) {
        (None, None) => false,
        (None, Some(_)) => true,
        (Some(_), None) => false,
        (Some(x), Some(y)) => x < y,
    }
}

/// `order` lists each position below `n` exactly once.
pub open spec fn is_arrangement(order: Seq<usize>, n: nat) -> bool {
    &&& order.len() == n
    &&& forall|k: int| 0 <= k < n ==> #[trigger] order[k] < n
    &&& forall|k: int, l: int| 0 <= k < l < n ==> #[trigger] order[k] != #[trigger] order[l]
}

/// Taking the branches at `order` gives them by descending priority, and
/// branches of equal priority keep their relative order.
pub open spec fn priority_ordered(order: Seq<usize>, v: Seq<BranchView>) -> bool {
    &&& forall|k: int, l: int|
        #![trigger order[k], order[l]]
        0 <= k < l < order.len() ==> priority_le(v[order[l] as int], v[order[k] as int])
    &&& forall|k: int, l: int|
        #![trigger order[k], order[l]]
        0 <= k < l < order.len() && priority_le(v[order[k] as int], v[order[l] as int]) ==> order[k] < order[l]
}

/// Putting position `i` at `p` keeps an arrangement of the first `i`
/// positions ordered, when everything before `p` ranks at least as high as
/// `i` and the entry at `p` ranks strictly lower.
proof fn lemma_insert_ordered(v: Seq<BranchView>, order: Seq<usize>, p: int, i: usize)
    requires
        i < v.len(),
        is_arrangement(order, i as nat),
        priority_ordered(order, v),
        0 <= p <= order.len(),
        forall|k: int| 0 <= k < p ==> priority_le(v[i as int], v[#[trigger] order[k] as int]),
        p < order.len() ==> priority_lt(v[order[p] as int], v[i as int]),
    ensures
        is_arrangement(order.insert(p, i), (i + 1) as nat),
        priority_ordered(order.insert(p, i), v),
{
    let o2 = order.insert(p, i);
    assert(forall|k: int| 0 <= k < p ==> o2[k] == order[k]);
    assert(o2[p] == i);
    assert(forall|k: int| p < k < o2.len() ==> o2[k] == order[k - 1]);
    assert forall|k: int| 0 <= k < i + 1 implies #[trigger] o2[k] < i + 1 by {
        if k < p {
            assert(order[k] < i);
        } else if k > p {
            assert(order[k - 1] < i);
        }
    }
    assert forall|k: int, l: int| 0 <= k < l < i + 1 implies #[trigger] o2[k] != #[trigger] o2[l] by {
        if k < p && l < p {
            assert(order[k] != order[l]);
        } else if k < p && l == p {
            assert(order[k] < i);
        } else if k < p && l > p {
            assert(order[k] != order[l - 1]);
        } else if k == p {
            assert(order[l - 1] < i);
        } else {
            assert(order[k - 1] != order[l - 1]);
        }
    }
    assert forall|k: int, l: int|
        #![trigger o2[k], o2[l]]
        0 <= k < l < o2.len() implies priority_le(v[o2[l] as int], v[o2[k] as int]) by {
        if k < p && l < p {
            assert(priority_le(v[order[l] as int], v[order[k] as int]));
        } else if k < p && l == p {
        } else if k < p && l > p {
            assert(priority_le(v[order[l - 1] as int], v[order[k] as int]));
        } else if k == p {
            if l - 1 > p {
                assert(priority_le(v[order[l - 1] as int], v[order[p] as int]));
                lemma_priority_trans(v[order[l - 1] as int], v[order[p] as int], v[i as int]);
            }
        } else {
            assert(priority_le(v[order[l - 1] as int], v[order[k - 1] as int]));
        }
    }
    assert forall|k: int, l: int|
        #![trigger o2[k], o2[l]]
        0 <= k < l < o2.len() && priority_le(v[o2[k] as int], v[o2[l] as int]) implies o2[k] < o2[l] by {
        if k < p && l < p {
            assert(order[k] < order[l]);
        } else if k < p && l == p {
            assert(order[k] < i);
        } else if k < p && l > p {
            assert(priority_le(v[order[k] as int], v[order[l - 1] as int]));
            assert(order[k] < order[l - 1]);
        } else if k == p {
            let w = v[order[l - 1] as int];
            if l - 1 > p {
                assert(priority_le(w, v[order[p] as int]));
            }
            assert(priority_le(w, v[order[p] as int]));
            lemma_priority_trans(v[i as int], w, v[order[p] as int]);
            assert(false);
        } else {
            assert(priority_le(v[order[k - 1] as int], v[order[l - 1] as int]));
            assert(order[k - 1] < order[l - 1]);
        }
    }
}

/// The arrangement that sorts branches by descending priority, keeping the
/// given order among equals.
fn priority_order(branches: &Vec<Branch>) -> (order: Vec<usize>)
    ensures
        is_arrangement(order@, branches@.len()),
        priority_ordered(order@, branch_views(branches@)),
{
    let ghost v = branch_views(branches@);
    let n = branches.len();
    let mut order: Vec<usize> = Vec::new();
    let mut i: usize = 0;
    while i < n
        invariant
            n == branches@.len(),
            v == branch_views(branches@),
            i <= n,
            is_arrangement(order@, i as nat),
            priority_ordered(order@, v),
        decreases n - i,
    {
        let mut p: usize = 0;
        loop
            invariant
                n == branches@.len(),
                v == branch_views(branches@),
                i < n,
                is_arrangement(order@, i as nat),
                p <= order@.len(),
                forall|k: int| 0 <= k < p ==> priority_le(v[i as int], v[#[trigger] order@[k] as int]),
            ensures
                p <= order@.len(),
                forall|k: int| 0 <= k < p ==> priority_le(v[i as int], v[#[trigger] order@[k] as int]),
                p < order@.len() ==> priority_lt(v[order@[p as int] as int], v[i as int]),
            decreases order@.len() - p,
        {
            if p == order.len() {
                break;
            }
            let below = priority_below(&branches[order[p]], &branches[i]);
            if below {
                break;
            }
            proof {
                lemma_priority_total(v[i as int], v[order@[p as int] as int]);
            }
            p = p + 1;
        }
        proof {
            lemma_insert_ordered(v, order@, p as int, i);
        }
        order.insert(p, i);
        i = i + 1;
    }
    order
}

/// The names of the local (not remote-tracking) branches, in order.
pub open spec fn local_names(v: Seq<BranchView>) -> Seq<Seq<char>>
    decreases v.len(),
{
    if v.len() == 0 {
        Seq::empty()
    } else if v.last().is_remote {
        local_names(v.drop_last())
    } else {
        local_names(v.drop_last()).push(v.last().name)
    }
}

/// A section's heading: its label and how many branches it lists.
pub open spec fn section_heading_text(label: Seq<char>, count: nat) -> Seq<char> {
    label + " ("@ + decimal(count) + ")"@
}

/// The branches of a repository, in display order, with the local and
/// remote sections each shown or hidden.
pub struct BranchList {
    branches: Vec<Branch>,
    show_local: bool,
    show_remote: bool,
}

impl BranchList {
    /// The branches, in display order.
    pub closed spec fn branches(&self) -> Seq<BranchView> {
        branch_views(self.branches@)
    }

    /// Whether the local section is shown.
    pub closed spec fn local_shown(&self) -> bool {
        self.show_local
    }

    /// Whether the remote section is shown.
    pub closed spec fn remote_shown(&self) -> bool {
        self.show_remote
    }

    /// An empty list with both sections shown.
    pub fn new() -> (l: Self)
        ensures
            l.branches().len() == 0,
            l.local_shown(),
            l.remote_shown(),
    {
        BranchList { branches: Vec::new(), show_local: true, show_remote: true }
    }

    /// Replace the branches, ordered by descending priority; branches of
    /// equal priority keep the given order.
    pub fn set_branches(&mut self, branches: Vec<Branch>)
        ensures
            final(self).branches().len() == branches@.len(),
            exists|order: Seq<usize>|
                {
                    &&& is_arrangement(order, branches@.len())
                    &&& priority_ordered(order, branch_views(branches@))
                    &&& forall|k: int|
                        0 <= k < order.len() ==> #[trigger] final(self).branches()[k] == branches@[order[k] as int]@
                },
            final(self).local_shown() == old(self).local_shown(),
            final(self).remote_shown() == old(self).remote_shown(),
    {
        let order = priority_order(&branches);
        let n = order.len();
        let mut sorted: Vec<Branch> = Vec::new();
        let mut k: usize = 0;
        while k < n
            invariant
                n == order@.len(),
                is_arrangement(order@, branches@.len()),
                k <= n,
                sorted@.len() == k,
                forall|j: int| 0 <= j < k ==> #[trigger] sorted@[j]@ == branches@[order@[j] as int]@,
            decreases n - k,
        {
            assert(order@[k as int] < branches@.len());
            sorted.push(branches[order[k]].duplicate());
            k = k + 1;
        }
        self.branches = sorted;
        proof {
            let o = order@;
            assert forall|j: int| 0 <= j < o.len() implies #[trigger] self.branches()[j]
                == branches@[o[j] as int]@ by {
                assert(self.branches()[j] == self.branches@[j]@);
            }
        }
    }

    /// The names of the local branches, in display order.
    pub fn local_branch_names(&self) -> (names: Vec<String>)
        ensures
            string_views(names@) == local_names(self.branches()),
    {
        let ghost v = self.branches();
        let n = self.branches.len();
        let mut names: Vec<String> = Vec::new();
        let mut i: usize = 0;
        while i < n
            invariant
                n == self.branches@.len(),
                v == branch_views(self.branches@),
                i <= n,
                string_views(names@) == local_names(v.take(i as int)),
            decreases n - i,
        {
            proof {
                assert(v.take(i + 1).drop_last() =~= v.take(i as int));
                assert(v.take(i + 1).last() == self.branches@[i as int]@);
            }
            if !self.branches[i].is_remote {
                names.push(clone_string(&self.branches[i].name));
                proof {
                    assert(string_views(names@) =~= local_names(v.take(i as int)).push(
                        self.branches@[i as int].name@,
                    ));
                }
            }
            i = i + 1;
        }
        proof {
            assert(v.take(n as int) =~= v);
        }
        names
    }
}

/// Whether a section is drawn: it is expanded and lists some branch.
pub fn section_shown(expanded: bool, count: usize) -> (b: bool)
    ensures
        b == (expanded && count > 0),
{
    expanded && count > 0
}

/// A section's heading: `Local (3)`.
pub fn section_heading(label: &str, count: usize) -> (s: String)
    ensures
        s@ == section_heading_text(label@, count as nat),
{
    let mut s = string_from_str(label);
    push_str(&mut s, " (");
    push_decimal(&mut s, count as u64);
    push_str(&mut s, ")");
    s
}

/// The element id of a branch's row: `branch-` and its name.
pub fn branch_item_id(name: &str) -> (s: String)
    ensures
        s@ == "branch-"@ + name@,
{
    let mut s = string_from_str("branch-");
    push_str(&mut s, name);
    s
}

} // verus!
