//! The state behind the pull-request panels: the create form's branch
//! choice, the staging list's status letters, and the unified diff text.
use vstd::prelude::*;
use vstd::utf8::{decode_utf8, valid_utf8};

use crate::pr::types::{is_utf8, string_from_utf8};
use crate::text::{clone_string, copy_bytes, push_char, push_str, same_text, string_from_str, string_views};

verus! {

/// What submitting the form asks for.
#[derive(Debug)]
pub enum CreatePrFormEvent {
    Submit { title: String, source_branch: String, target_branch: String },
}

/// The create-pull-request form: whether it is shown, the branches to pick
/// from, the picked source and target, and the title.
pub struct CreatePrForm {
    visible: bool,
    branch_names: Vec<String>,
    selected_source: usize,
    selected_target: usize,
    title: String,
}

/// The form as text and numbers.
pub struct FormView {
    pub visible: bool,
    pub branches: Seq<Seq<char>>,
    pub source: nat,
    pub target: nat,
    pub title: Seq<char>,
}

/// The first position of `name` in the list, if it is there.
pub open spec fn position_of(names: Seq<Seq<char>>, name: Seq<char>) -> Option<nat>
    decreases names.len(),
{
    if names.len() == 0 {
        None
    } else if names[0] == name {
        Some(0)
    } else {
        match position_of(names.drop_first(), name) {
            Some(p) => Some(p + 1),
            None => None,
        }
    }
}

/// The source picked for a list of branches: the current branch when it is
/// listed, else the first.
pub open spec fn default_source(names: Seq<Seq<char>>, current: Option<Seq<char>>) -> nat {
    match current {
        Some(c) => match position_of(names, c) {
            Some(p) => p,
            None => 0,
        },
        None => 0,
    }
}

/// The target picked for a list of branches: `main` when listed, else
/// `master` when listed, else the first; if that is the source and there is
/// another branch, the first branch other than the source.
pub open spec fn default_target(names: Seq<Seq<char>>, source: nat) -> nat {
    let t: nat = match position_of(names, "main"@) {
        Some(p) => p,
        None => match position_of(names, "master"@) {
            Some(p) => p,
            None => 0,
        },
    };
    if t == source && names.len() > 1 {
        if source == 0 {
            1
        } else {
            0
        }
    } else {
        t
    }
}

/// The name at a position, or `(none)` past the end.
pub open spec fn name_at(names: Seq<Seq<char>>, i: nat) -> Seq<char> {
    if i < names.len() {
        names[i as int]
    } else {
        "(none)"@
    }
}

proof fn lemma_position_of(names: Seq<Seq<char>>, name: Seq<char>)
    ensures
        position_of(names, name) matches Some(p) ==> p < names.len() && names[p as int] == name && forall|j: int|
            0 <= j < p ==> names[j] != name,
        position_of(names, name) is None ==> forall|j: int| 0 <= j < names.len() ==> names[j] != name,
    decreases names.len(),
{
    if names.len() > 0 {
        lemma_position_of(names.drop_first(), name);
        if names[0] != name {
            assert forall|j: int| 0 < j < names.len() implies names[j] == names.drop_first()[j - 1] by {}
        }
    }
}

/// With branches offered, the form's default picks are branches; with two
/// or more they are two different ones.
pub proof fn law_default_picks_differ(names: Seq<Seq<char>>, current: Option<Seq<char>>)
    requires
        names.len() > 0,
    ensures
        default_source(names, current) < names.len(),
        default_target(names, default_source(names, current)) < names.len(),
        names.len() > 1 ==> default_target(names, default_source(names, current)) != default_source(names, current),
{
    lemma_position_of(names, "main"@);
    lemma_position_of(names, "master"@);
    if let Some(c) = current {
        lemma_position_of(names, c);
    }
}

/// The first position of `name` in the list, if it is there.
fn find_name(names: &Vec<String>, name: &str) -> (r: Option<usize>)
    ensures
        match r {
            Some(i) => position_of(string_views(names@), name@) == Some(i as nat),
            None => position_of(string_views(names@), name@) is None,
        },
{
    let ghost v = string_views(names@);
    proof {
        lemma_position_of(v, name@);
    }
    let n = names.len();
    let mut i: usize = 0;
    while i < n
        invariant
            n == names@.len(),
            v == string_views(names@),
            i <= n,
            forall|j: int| 0 <= j < i ==> v[j] != name@,
            position_of(v, name@) matches Some(p) ==> p < v.len() && v[p as int] == name@ && forall|j: int|
                0 <= j < p ==> v[j] != name@,
            position_of(v, name@) is None ==> forall|j: int| 0 <= j < v.len() ==> v[j] != name@,
        decreases n - i,
    {
        if same_text(names[i].as_str(), name) {
            proof {
                assert(v[i as int] == name@);
                match position_of(v, name@) {
                    Some(p) => {
                        if p < i {
                        } else if p > i {
                            assert(v[i as int] != name@);
                        }
                    },
                    None => {
                        assert(v[i as int] != name@);
                    },
                }
            }
            return Some(i);
        }
        proof {
            assert(v[i as int] != name@);
        }
        i = i + 1;
    }
    proof {
        if position_of(v, name@) is Some {
            let p = position_of(v, name@)->0;
            assert(v[p as int] == name@);
        }
    }
    None
}

impl CreatePrForm {
    /// With branches to pick from, both picks are among them.
    #[verifier::type_invariant]
    spec fn picks_in_range(self) -> bool {
        self.branch_names.len() > 0 ==> self.selected_source < self.branch_names.len() && self.selected_target
            < self.branch_names.len()
    }

    /// The form as text and numbers.
    pub closed spec fn view(&self) -> FormView {
        FormView {
            visible: self.visible,
            branches: string_views(self.branch_names@),
            source: self.selected_source as nat,
            target: self.selected_target as nat,
            title: self.title@,
        }
    }

    /// A hidden form with no branches.
    pub fn new() -> (f: Self)
        ensures
            !f.view().visible,
            f.view().branches.len() == 0,
            f.view().source == 0,
            f.view().target == 0,
            f.view().title.len() == 0,
    {
        let f = CreatePrForm {
            visible: false,
            branch_names: Vec::new(),
            selected_source: 0,
            selected_target: 0,
            title: String::new(),
        };
        proof {
            assert(string_views(f.branch_names@) =~= Seq::<Seq<char>>::empty());
        }
        f
    }

    /// Whether the form is shown.
    pub fn is_visible(&self) -> (b: bool)
        ensures
            b == self.view().visible,
    {
        self.visible
    }

    /// Show a hidden form, hide a shown one.
    pub fn toggle_visible(&mut self)
        ensures
            final(self).view() == (FormView { visible: !old(self).view().visible, ..old(self).view() }),
    {
        proof {
            use_type_invariant(&*self);
        }
        self.visible = !self.visible;
    }

    /// Show or hide the form.
    pub fn set_visible(&mut self, visible: bool)
        ensures
            final(self).view() == (FormView { visible, ..old(self).view() }),
    {
        proof {
            use_type_invariant(&*self);
        }
        self.visible = visible;
    }

    /// Offer these branches: with none, nothing else changes; otherwise the
    /// source becomes the current branch (or the first), the target `main`,
    /// `master` or the first branch other than the source, and the title the
    /// source's name.
    pub fn set_branches(&mut self, names: Vec<String>, current_branch: Option<&str>)
        ensures
            final(self).view().branches == string_views(names@),
            final(self).view().visible == old(self).view().visible,
            names@.len() == 0 ==> final(self).view().source == old(self).view().source && final(self).view().target
                == old(self).view().target && final(self).view().title == old(self).view().title,
            names@.len() > 0 ==> ({
                let v = string_views(names@);
                let cur = match current_branch {
                    Some(c) => Some(c@),
                    None => None,
                };
                let s = default_source(v, cur);
                &&& final(self).view().source == s
                &&& final(self).view().target == default_target(v, s)
                &&& final(self).view().title == v[s as int]
            }),
    {
        let n = names.len();
        if n == 0 {
            let visible = self.visible;
            let selected_source = self.selected_source;
            let selected_target = self.selected_target;
            let title = clone_string(&self.title);
            *self = CreatePrForm { visible, branch_names: names, selected_source, selected_target, title };
            return;
        }
        let ghost v = string_views(names@);
        proof {
            lemma_position_of(v, "main"@);
            lemma_position_of(v, "master"@);
        }
        let mut source: usize = 0;
        if let Some(current) = current_branch {
            proof {
                lemma_position_of(v, current@);
            }
            if let Some(idx) = find_name(&names, current) {
                source = idx;
            }
        }
        let mut target: usize = match find_name(&names, "main") {
            Some(i) => i,
            None => match find_name(&names, "master") {
                Some(i) => i,
                None => 0,
            },
        };
        if source == target && n > 1 {
            target = if source == 0 {
                1
            } else {
                0
            };
        }
        let title = clone_string(&names[source]);
        proof {
            assert(names@[source as int]@ == v[source as int]);
        }
        let visible = self.visible;
        *self = CreatePrForm { visible, branch_names: names, selected_source: source, selected_target: target, title };
    }

    /// The picked source branch's name, or `(none)`.
    pub fn source_name(&self) -> (s: &str)
        ensures
            s@ == name_at(self.view().branches, self.view().source),
    {
        if self.selected_source < self.branch_names.len() {
            self.branch_names[self.selected_source].as_str()
        } else {
            "(none)"
        }
    }

    /// The picked target branch's name, or `(none)`.
    pub fn target_name(&self) -> (s: &str)
        ensures
            s@ == name_at(self.view().branches, self.view().target),
    {
        if self.selected_target < self.branch_names.len() {
            self.branch_names[self.selected_target].as_str()
        } else {
            "(none)"
        }
    }

    /// Pick the next source branch, wrapping around.
    pub fn cycle_source(&mut self)
        ensures
            old(self).view().branches.len() == 0 ==> final(self).view() == old(self).view(),
            old(self).view().branches.len() > 0 ==> final(self).view() == (FormView {
                source: ((old(self).view().source + 1) % old(self).view().branches.len()) as nat,
                ..old(self).view()
            }),
    {
        proof {
            use_type_invariant(&*self);
        }
        let n = self.branch_names.len();
        if n > 0 {
            self.selected_source = (self.selected_source + 1) % n;
        }
    }

    /// Pick the next target branch, wrapping around.
    pub fn cycle_target(&mut self)
        ensures
            old(self).view().branches.len() == 0 ==> final(self).view() == old(self).view(),
            old(self).view().branches.len() > 0 ==> final(self).view() == (FormView {
                target: ((old(self).view().target + 1) % old(self).view().branches.len()) as nat,
                ..old(self).view()
            }),
    {
        proof {
            use_type_invariant(&*self);
        }
        let n = self.branch_names.len();
        if n > 0 {
            self.selected_target = (self.selected_target + 1) % n;
        }
    }

    /// Set the title.
    pub fn set_title(&mut self, title: String)
        ensures
            final(self).view() == (FormView { title: title@, ..old(self).view() }),
    {
        proof {
            use_type_invariant(&*self);
        }
        self.title = title;
    }

    /// The request the form submits: none unless both picks are branches
    /// and differ; the title is the source's name when left empty.
    pub fn submit(&self) -> (e: Option<CreatePrFormEvent>)
        ensures
            ({
                let v = self.view();
                match e {
                    None => !(v.source < v.branches.len() && v.target < v.branches.len() && v.branches[v.source as int]
                        != v.branches[v.target as int]),
                    Some(CreatePrFormEvent::Submit { title, source_branch, target_branch }) => {
                        &&& v.source < v.branches.len() && v.target < v.branches.len()
                        &&& source_branch@ == v.branches[v.source as int]
                        &&& target_branch@ == v.branches[v.target as int]
                        &&& source_branch@ != target_branch@
                        &&& title@ == if v.title.len() == 0 {
                            source_branch@
                        } else {
                            v.title
                        }
                    },
                }
            }),
    {
        if self.selected_source >= self.branch_names.len() || self.selected_target >= self.branch_names.len() {
            return None;
        }
        let source = clone_string(&self.branch_names[self.selected_source]);
        let target = clone_string(&self.branch_names[self.selected_target]);
        proof {
            assert(self.branch_names@[self.selected_source as int]@ == self.view().branches[self.selected_source as int]);
            assert(self.branch_names@[self.selected_target as int]@ == self.view().branches[self.selected_target as int]);
        }
        if same_text(source.as_str(), target.as_str()) {
            return None;
        }
        let title = if crate::text::chars_of(self.title.as_str()).len() == 0 {
            clone_string(&source)
        } else {
            clone_string(&self.title)
        };
        Some(CreatePrFormEvent::Submit { title, source_branch: source, target_branch: target })
    }
}

/// How Git classifies one side of a tracked file's change.
#[derive(Debug, Clone, Copy, PartialEq, Eq, Structural)]
pub enum StatusCode {
    Modified,
    TypeChanged,
    Added,
    Deleted,
    Renamed,
    Copied,
    Unmodified,
}

/// A file's status in the working copy.
#[derive(Debug, Clone, Copy, PartialEq, Eq, Structural)]
pub enum FileStatus {
    Untracked,
    Ignored,
    Unmerged,
    Versioned { index_status: StatusCode, worktree_status: StatusCode },
}

/// The letter of a status code.
pub open spec fn code_letter(c: StatusCode) -> char {
    match c {
        StatusCode::Modified => 'M',
        StatusCode::Added => 'A',
        StatusCode::Deleted => 'D',
        StatusCode::Renamed => 'R',
        StatusCode::Copied => 'C',
        StatusCode::TypeChanged => 'T',
        StatusCode::Unmodified => ' ',
    }
}

/// The letter a staging list shows for a file: `?` untracked, `!` ignored,
/// `U` unmerged, else the letter of the staged side (in the staged list) or
/// of the working-tree side.
pub open spec fn status_letter(status: FileStatus, is_staged: bool) -> char {
    match status {
        FileStatus::Untracked => '?',
        FileStatus::Ignored => '!',
        FileStatus::Unmerged => 'U',
        FileStatus::Versioned { index_status, worktree_status } => code_letter(
            if is_staged {
                index_status
            } else {
                worktree_status
            },
        ),
    }
}

/// The letter a staging list shows for a file.
pub fn status_char(status: FileStatus, is_staged: bool) -> (c: char)
    ensures
        c == status_letter(status, is_staged),
{
    match status {
        FileStatus::Untracked => '?',
        FileStatus::Ignored => '!',
        FileStatus::Unmerged => 'U',
        FileStatus::Versioned { index_status, worktree_status } => {
            let code = if is_staged {
                index_status
            } else {
                worktree_status
            };
            match code {
                StatusCode::Modified => 'M',
                StatusCode::Added => 'A',
                StatusCode::Deleted => 'D',
                StatusCode::Renamed => 'R',
                StatusCode::Copied => 'C',
                StatusCode::TypeChanged => 'T',
                StatusCode::Unmodified => ' ',
            }
        },
    }
}

/// A line of a patch as Git prints it: its origin and its raw bytes.
#[derive(Debug)]
pub struct PatchLine {
    pub origin: char,
    pub content: Vec<u8>,
}

/// What a patch line adds to the unified diff: its text (empty when it is
/// not UTF-8), after the origin for added, removed and context lines;
/// file and hunk headers (`F`, `H`) as they are.
pub open spec fn unified_line(l: PatchLine) -> Seq<char> {
    let text = if valid_utf8(l.content@) {
        decode_utf8(l.content@)
    } else {
        Seq::empty()
    };
    if l.origin == '+' || l.origin == '-' || l.origin == ' ' {
        seq![l.origin] + text
    } else {
        text
    }
}

/// The unified diff: the lines' contributions one after another.
pub open spec fn unified_text(lines: Seq<PatchLine>) -> Seq<char>
    decreases lines.len(),
{
    if lines.len() == 0 {
        Seq::empty()
    } else {
        unified_text(lines.drop_last()) + unified_line(lines.last())
    }
}

/// The unified diff text of a patch.
pub fn unified_diff(lines: &Vec<PatchLine>) -> (out: String)
    ensures
        out@ == unified_text(lines@),
{
    let n = lines.len();
    let mut out = String::new();
    let mut i: usize = 0;
    while i < n
        invariant
            n == lines@.len(),
            i <= n,
            out@ == unified_text(lines@.take(i as int)),
        decreases n - i,
    {
        let l = &lines[i];
        proof {
            assert(lines@.take(i as int + 1).drop_last() =~= lines@.take(i as int));
            assert(lines@.take(i as int + 1).last() == lines@[i as int]);
        }
        if l.origin == '+' || l.origin == '-' || l.origin == ' ' {
            push_char(&mut out, l.origin);
        }
        if is_utf8(l.content.as_slice()) {
            match string_from_utf8(copy_bytes(l.content.as_slice())) {
                Some(t) => push_str(&mut out, t.as_str()),
                None => {},
            }
        }
        proof {
            assert(out@ =~= unified_text(lines@.take(i as int)) + unified_line(lines@[i as int]));
        }
        i = i + 1;
    }
    proof {
        assert(lines@.take(n as int) =~= lines@);
    }
    out
}


/// Each kind of change to one side of a file has its own letter, and only
/// an unmodified side is blank; a staging row shows the letter of the side
/// its list is about: the index side in the staged list, the working-tree
/// side in the unstaged one. Untracked, ignored and unmerged files show `?`,
/// `!` and `U` in either list.
pub proof fn law_staging_letters_tell_sides_apart(a: StatusCode, b: StatusCode, index: StatusCode, worktree: StatusCode)
    ensures
        a != b ==> code_letter(a) != code_letter(b),
        (code_letter(a) == ' ') <==> a == StatusCode::Unmodified,
        status_letter(FileStatus::Versioned { index_status: index, worktree_status: worktree }, true) == code_letter(
            index,
        ),
        status_letter(FileStatus::Versioned { index_status: index, worktree_status: worktree }, false) == code_letter(
            worktree,
        ),
        forall|staged: bool| status_letter(FileStatus::Untracked, staged) == '?',
        forall|staged: bool| status_letter(FileStatus::Ignored, staged) == '!',
        forall|staged: bool| status_letter(FileStatus::Unmerged, staged) == 'U',
{
}

} // verus!
