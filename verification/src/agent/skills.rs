//! Skills: named prompt templates, built in or read from markdown files with
//! a front-matter header, and the slash commands that trigger them.
use vstd::prelude::*;

use crate::text::{
    CharClass, chars_equal, chars_of, copy_range, in_class_exec, is_whitespace, strip_chars,
    strip_start, string_from_str, text_le, text_le_exec, lemma_text_le_total_transitive,
};

verus! {

/// A skill: its name, what it is for, the slash command that triggers it,
/// the tools it may use and the prompt it runs.
#[derive(Debug)]
pub struct Skill {
    pub name: String,
    pub description: String,
    pub trigger: Option<String>,
    pub allowed_tools: Vec<String>,
    pub prompt_template: String,
}

/// What a skill holds, as character sequences.
pub struct SkillView {
    pub name: Seq<char>,
    pub description: Seq<char>,
    pub trigger: Option<Seq<char>>,
    pub allowed_tools: Seq<Seq<char>>,
    pub prompt_template: Seq<char>,
}

/// The views of a list of strings.
pub open spec fn texts(v: Seq<String>) -> Seq<Seq<char>> {
    v.map_values(|s: String| s@)
}

impl View for Skill {
    type V = SkillView;

    open spec fn view(&self) -> SkillView {
        SkillView {
            name: self.name@,
            description: self.description@,
            trigger: match &self.trigger {
                Some(t) => Some(t@),
                None => None,
            },
            allowed_tools: texts(self.allowed_tools@),
            prompt_template: self.prompt_template@,
        }
    }
}

/// The views of a list of skills.
pub open spec fn skill_views(v: Seq<Skill>) -> Seq<SkillView> {
    v.map_values(|s: Skill| s@)
}

} // verus!

verus! {

/// The index of the first skill with the given name.
pub open spec fn index_named(v: Seq<SkillView>, name: Seq<char>) -> Option<int> {
    if exists|i: int| 0 <= i < v.len() && v[i].name == name {
        Some(choose|i: int| 0 <= i < v.len() && v[i].name == name && forall|j: int| 0 <= j < i ==> v[j].name != name)
    } else {
        None
    }
}

/// The index of the first skill triggered by `trigger`.
pub open spec fn index_triggered(v: Seq<SkillView>, trigger: Seq<char>) -> Option<int> {
    if exists|i: int| 0 <= i < v.len() && v[i].trigger == Some(trigger) {
        Some(choose|i: int| 0 <= i < v.len() && v[i].trigger == Some(trigger) && forall|j: int|
            0 <= j < i ==> v[j].trigger != Some(trigger))
    } else {
        None
    }
}

/// The first whitespace-separated word of a text, as
/// `str::split_whitespace().next()` gives it.
pub open spec fn first_word(s: Seq<char>) -> Option<Seq<char>> {
    let t = strip_start(s, CharClass::Whitespace);
    if t.len() == 0 {
        None
    } else if exists|i: int| 0 <= i < t.len() && is_whitespace(t[i]) {
        let i = choose|i: int| 0 <= i < t.len() && is_whitespace(t[i]) && forall|j: int| 0 <= j < i ==> !is_whitespace(t[j]);
        Some(t.subrange(0, i))
    } else {
        Some(t)
    }
}

/// Whether no name occurs twice.
pub open spec fn names_unique(v: Seq<SkillView>) -> bool {
    forall|i: int, j: int| 0 <= i < j < v.len() ==> v[i].name != v[j].name
}

/// Whether skills are in order of their names.
pub open spec fn sorted_by_name(v: Seq<SkillView>) -> bool {
    forall|i: int, j: int| 0 <= i < j < v.len() ==> text_le(v[i].name, v[j].name)
}

/// The views of a list of skill references.
pub open spec fn ref_views(v: Seq<&Skill>) -> Seq<SkillView> {
    v.map_values(|s: &Skill| s@)
}

/// A skill's view from its parts.
pub open spec fn skill_view(
    name: Seq<char>,
    description: Seq<char>,
    trigger: Seq<char>,
    allowed_tools: Seq<Seq<char>>,
    prompt_template: Seq<char>,
) -> SkillView {
    SkillView { name, description, trigger: Some(trigger), allowed_tools, prompt_template }
}

/// The built-in skills, in order.
pub open spec fn builtin_skill_set() -> Seq<SkillView> {
    seq![
        skill_view(
            "explain-commit"@,
            "Explain what a commit does"@,
            "/explain"@,
            seq!["git_log"@, "git_diff"@, "read_file"@],
            "Explain the most recent commit in this repository. Use git_log to find it, then git_diff to see the changes, and explain what was done and why."@,
        ),
        skill_view(
            "review-changes"@,
            "Review current staged/unstaged changes"@,
            "/review"@,
            seq!["git_status"@, "git_diff"@, "read_file"@],
            "Review the current changes in this repository. Check git_status, then review the diffs. Look for bugs, style issues, and potential improvements."@,
        ),
        skill_view(
            "generate-commit-message"@,
            "Generate a commit message for staged changes"@,
            "/commit-msg"@,
            seq!["git_status"@, "git_diff"@],
            "Generate a concise, conventional commit message for the currently staged changes. Use git_diff with staged=true to see what's staged."@,
        ),
        skill_view(
            "find-related"@,
            "Find files related to a topic"@,
            "/find"@,
            seq!["search_code"@, "list_files"@, "read_file"@],
            "Find all files related to the user's query. Use search_code and list_files to locate relevant code."@,
        ),
    ]
}

/// The built-in skills and the ones loaded from files, each kept by name.
pub struct SkillLoader {
    skills: Vec<Skill>,
    builtin: Vec<Skill>,
}

impl SkillLoader {
    /// The loaded skills.
    pub closed spec fn loaded(&self) -> Seq<SkillView> {
        skill_views(self.skills@)
    }

    /// The built-in skills.
    pub closed spec fn builtins(&self) -> Seq<SkillView> {
        skill_views(self.builtin@)
    }

    /// No name is kept twice in either set.
    pub open spec fn wf(&self) -> bool {
        names_unique(self.loaded()) && names_unique(self.builtins())
    }

    /// A loader holding the built-in skills and nothing loaded.
    pub fn new() -> (l: Self)
        ensures
            l.wf(),
            l.loaded().len() == 0,
            l.builtins() == builtin_skill_set(),
            l.builtins().len() == 4,
            l.builtins()[0].name == "explain-commit"@,
            l.builtins()[0].trigger == Some("/explain"@),
            l.builtins()[1].name == "review-changes"@,
            l.builtins()[1].trigger == Some("/review"@),
            l.builtins()[2].name == "generate-commit-message"@,
            l.builtins()[2].trigger == Some("/commit-msg"@),
            l.builtins()[3].name == "find-related"@,
            l.builtins()[3].trigger == Some("/find"@),
    {
        let mut l = SkillLoader { skills: Vec::new(), builtin: Vec::new() };
        proof {
            assert(l.loaded() =~= Seq::<SkillView>::empty());
        }
        l.register_builtins();
        l
    }

    /// Install the built-in skills: explaining a commit, reviewing changes,
    /// writing a commit message and finding related files. Loaded skills are
    /// kept.
    pub fn register_builtins(&mut self)
        ensures
            final(self).builtins() == builtin_skill_set(),
            final(self).loaded() == old(self).loaded(),
            names_unique(final(self).builtins()),
    {
        let s0 = make_skill(
            "explain-commit",
            "Explain what a commit does",
            "/explain",
            "git_log",
            "git_diff",
            Some("read_file"),
            "Explain the most recent commit in this repository. Use git_log to find it, then git_diff to see the changes, and explain what was done and why.",
        );
        let s1 = make_skill(
            "review-changes",
            "Review current staged/unstaged changes",
            "/review",
            "git_status",
            "git_diff",
            Some("read_file"),
            "Review the current changes in this repository. Check git_status, then review the diffs. Look for bugs, style issues, and potential improvements.",
        );
        let s2 = make_skill(
            "generate-commit-message",
            "Generate a commit message for staged changes",
            "/commit-msg",
            "git_status",
            "git_diff",
            None,
            "Generate a concise, conventional commit message for the currently staged changes. Use git_diff with staged=true to see what's staged.",
        );
        let s3 = make_skill(
            "find-related",
            "Find files related to a topic",
            "/find",
            "search_code",
            "list_files",
            Some("read_file"),
            "Find all files related to the user's query. Use search_code and list_files to locate relevant code.",
        );
        let ghost views = seq![s0@, s1@, s2@, s3@];
        let mut builtin: Vec<Skill> = Vec::new();
        builtin.push(s0);
        builtin.push(s1);
        builtin.push(s2);
        builtin.push(s3);
        proof {
            assert(skill_views(builtin@) =~= views);
            assert(seq!["git_log"@, "git_diff"@] + seq!["read_file"@] =~= seq!["git_log"@, "git_diff"@, "read_file"@]);
            assert(seq!["git_status"@, "git_diff"@] + seq!["read_file"@] =~= seq!["git_status"@, "git_diff"@, "read_file"@]);
            assert(seq!["git_status"@, "git_diff"@] + Seq::<Seq<char>>::empty() =~= seq!["git_status"@, "git_diff"@]);
            assert(seq!["search_code"@, "list_files"@] + seq!["read_file"@] =~= seq!["search_code"@, "list_files"@, "read_file"@]);
            assert(views =~= builtin_skill_set());
        }
        self.builtin = builtin;
        proof {
            assert(self.builtins() =~= builtin_skill_set());
            reveal_strlit("explain-commit");
            reveal_strlit("review-changes");
            reveal_strlit("generate-commit-message");
            reveal_strlit("find-related");
            let v = self.builtins();
            assert("explain-commit"@[0] == 'e');
            assert("review-changes"@[0] == 'r');
            assert(v[0].name[0] != v[1].name[0]);
            assert(v[0].name != v[1].name);
            assert("generate-commit-message"@.len() == 23);
            assert("find-related"@.len() == 12);
            assert(v[0].name != v[2].name);
            assert(v[0].name != v[3].name);
            assert(v[1].name != v[2].name);
            assert(v[1].name != v[3].name);
            assert(v[2].name != v[3].name);
        }
    }

    /// Add a skill read from a file, replacing a loaded skill of the same
    /// name.
    pub fn add_skill(&mut self, skill: Skill)
        requires
            old(self).wf(),
        ensures
            final(self).wf(),
            final(self).builtins() == old(self).builtins(),
            index_named(final(self).loaded(), skill@.name) is Some,
            final(self).loaded()[index_named(final(self).loaded(), skill@.name)->0] == skill@,
            forall|n: Seq<char>| n != skill@.name ==> #[trigger] index_named(final(self).loaded(), n) is Some
                == index_named(old(self).loaded(), n) is Some,
            forall|n: Seq<char>|
                n != skill@.name && index_named(old(self).loaded(), n) is Some ==> final(self).loaded()[#[trigger] index_named(
                    final(self).loaded(),
                    n,
                )->0] == old(self).loaded()[index_named(old(self).loaded(), n)->0],
    {
        let ghost old_v = self.loaded();
        let ghost sv = skill@;
        match find_named(self.skills.as_slice(), skill.name.as_str()) {
            Some(i) => {
                self.skills.set(i, skill);
                proof {
                    assert(self.loaded() =~= old_v.update(i as int, sv));
                    lemma_index_named_unique(self.loaded(), i as int);
                    assert forall|n: Seq<char>| n != sv.name implies #[trigger] index_named(self.loaded(), n) is Some
                        == index_named(old_v, n) is Some by {
                        if index_named(old_v, n) is Some {
                            let k = lemma_index_named_some(old_v, n);
                            assert(self.loaded()[k].name == n);
                        }
                        if index_named(self.loaded(), n) is Some {
                            let k = lemma_index_named_some(self.loaded(), n);
                            assert(old_v[k].name == n);
                        }
                    }
                    assert forall|n: Seq<char>|
                        n != sv.name && index_named(old_v, n) is Some implies self.loaded()[#[trigger] index_named(
                            self.loaded(),
                            n,
                        )->0] == old_v[index_named(old_v, n)->0] by {
                        let k = lemma_index_named_some(old_v, n);
                        lemma_index_named_unique(old_v, k);
                        assert(self.loaded()[k].name == n);
                        lemma_index_named_unique(self.loaded(), k);
                    }
                }
            },
            None => {
                self.skills.push(skill);
                proof {
                    assert(self.loaded() =~= old_v.push(sv));
                    assert(names_unique(self.loaded()));
                    lemma_index_named_unique(self.loaded(), old_v.len() as int);
                    assert forall|n: Seq<char>| n != sv.name implies #[trigger] index_named(self.loaded(), n) is Some
                        == index_named(old_v, n) is Some by {
                        if index_named(old_v, n) is Some {
                            let k = lemma_index_named_some(old_v, n);
                            assert(self.loaded()[k].name == n);
                        }
                        if index_named(self.loaded(), n) is Some {
                            let k = lemma_index_named_some(self.loaded(), n);
                            assert(old_v[k].name == n);
                        }
                    }
                    assert forall|n: Seq<char>|
                        n != sv.name && index_named(old_v, n) is Some implies self.loaded()[#[trigger] index_named(
                            self.loaded(),
                            n,
                        )->0] == old_v[index_named(old_v, n)->0] by {
                        let k = lemma_index_named_some(old_v, n);
                        lemma_index_named_unique(old_v, k);
                        assert(self.loaded()[k].name == n);
                        lemma_index_named_unique(self.loaded(), k);
                    }
                }
            },
        }
    }

    /// The skill with the given name: a loaded one if there is one, else a
    /// built-in one.
    pub fn get(&self, name: &str) -> (r: Option<&Skill>)
        ensures
            match index_named(self.loaded(), name@) {
                Some(i) => r is Some && r->0@ == self.loaded()[i],
                None => match index_named(self.builtins(), name@) {
                    Some(i) => r is Some && r->0@ == self.builtins()[i],
                    None => r is None,
                },
            },
    {
        match find_named(self.skills.as_slice(), name) {
            Some(i) => Some(&self.skills[i]),
            None => match find_named(self.builtin.as_slice(), name) {
                Some(i) => Some(&self.builtin[i]),
                None => None,
            },
        }
    }

    /// The skill a slash command names: the first word of the input must
    /// equal a skill's trigger; built-in skills are searched first.
    #[verifier::rlimit(60)]
    pub fn resolve_slash_command(&self, input: &str) -> (r: Option<&Skill>)
        ensures
            match first_word(input@) {
                None => r is None,
                Some(w) => match index_triggered(self.builtins(), w) {
                    Some(i) => r is Some && r->0@ == self.builtins()[i],
                    None => match index_triggered(self.loaded(), w) {
                        Some(i) => r is Some && r->0@ == self.loaded()[i],
                        None => r is None,
                    },
                },
            },
    {
        let text = chars_of(input);
        match first_word_exec(text.as_slice()) {
            None => None,
            Some(w) => match find_triggered(self.builtin.as_slice(), w.as_slice()) {
                Some(i) => Some(&self.builtin[i]),
                None => match find_triggered(self.skills.as_slice(), w.as_slice()) {
                    Some(i) => Some(&self.skills[i]),
                    None => None,
                },
            },
        }
    }

    /// Every skill, built-in and loaded, in order of name.
    pub fn list_all(&self) -> (all: Vec<&Skill>)
        ensures
            ref_views(all@).to_multiset() == (self.builtins() + self.loaded()).to_multiset(),
            sorted_by_name(ref_views(all@)),
    {
        let mut all: Vec<&Skill> = Vec::new();
        let ghost src = self.builtins() + self.loaded();
        let nb = self.builtin.len();
        let mut i: usize = 0;
        proof {
            assert(ref_views(all@) =~= self.builtins().take(0));
        }
        while i < nb
            invariant
                nb == self.builtin@.len(),
                i <= nb,
                ref_views(all@).to_multiset() == self.builtins().take(i as int).to_multiset(),
                sorted_by_name(ref_views(all@)),
            decreases nb - i,
        {
            let ghost before = ref_views(all@);
            insert_sorted(&mut all, &self.builtin[i]);
            proof {
                assert(self.builtins().take(i + 1) =~= self.builtins().take(i as int).push(self.builtin@[i as int]@));
                vstd::seq_lib::lemma_multiset_commutative(self.builtins().take(i as int), seq![self.builtin@[i as int]@]);
                crate::agent::skills::lemma_push_multiset(self.builtins().take(i as int), self.builtin@[i as int]@);
            }
            i = i + 1;
        }
        proof {
            assert(self.builtins().take(nb as int) =~= self.builtins());
        }
        let ns = self.skills.len();
        let mut j: usize = 0;
        while j < ns
            invariant
                ns == self.skills@.len(),
                j <= ns,
                ref_views(all@).to_multiset() == (self.builtins() + self.loaded().take(j as int)).to_multiset(),
                sorted_by_name(ref_views(all@)),
            decreases ns - j,
        {
            insert_sorted(&mut all, &self.skills[j]);
            proof {
                assert(self.builtins() + self.loaded().take(j + 1) =~= (self.builtins() + self.loaded().take(
                    j as int,
                )).push(self.skills@[j as int]@));
                lemma_push_multiset(self.builtins() + self.loaded().take(j as int), self.skills@[j as int]@);
            }
            j = j + 1;
        }
        proof {
            assert(self.loaded().take(ns as int) =~= self.loaded());
        }
        all
    }
}

proof fn lemma_push_multiset(s: Seq<SkillView>, x: SkillView)
    ensures
        s.push(x).to_multiset() == s.to_multiset().insert(x),
{
    broadcast use vstd::seq_lib::group_to_multiset_ensures;
}

proof fn lemma_index_named_some(v: Seq<SkillView>, n: Seq<char>) -> (k: int)
    requires
        index_named(v, n) is Some,
    ensures
        0 <= k < v.len(),
        v[k].name == n,
        index_named(v, n) == Some(k),
{
    lemma_index_named_props(v, n);
    index_named(v, n)->0
}

proof fn lemma_least_named(v: Seq<SkillView>, n: Seq<char>, w: int)
    requires
        0 <= w < v.len(),
        v[w].name == n,
    ensures
        exists|i: int| 0 <= i < v.len() && #[trigger] v[i].name == n && forall|j: int| 0 <= j < i ==> #[trigger] v[j].name != n,
    decreases w,
{
    if exists|j: int| 0 <= j < w && #[trigger] v[j].name == n {
        let j = choose|j: int| 0 <= j < w && #[trigger] v[j].name == n;
        lemma_least_named(v, n, j);
    } else {
        assert(forall|j: int| 0 <= j < w ==> #[trigger] v[j].name != n);
    }
}

proof fn lemma_least_triggered(v: Seq<SkillView>, t: Seq<char>, w: int)
    requires
        0 <= w < v.len(),
        v[w].trigger == Some(t),
    ensures
        exists|i: int| 0 <= i < v.len() && #[trigger] v[i].trigger == Some(t) && forall|j: int| 0 <= j < i ==> #[trigger] v[j].trigger != Some(t),
    decreases w,
{
    if exists|j: int| 0 <= j < w && #[trigger] v[j].trigger == Some(t) {
        let j = choose|j: int| 0 <= j < w && #[trigger] v[j].trigger == Some(t);
        lemma_least_triggered(v, t, j);
    } else {
        assert(forall|j: int| 0 <= j < w ==> #[trigger] v[j].trigger != Some(t));
    }
}

/// What `index_named` finds: the first skill of that name.
pub proof fn lemma_index_named_props(v: Seq<SkillView>, n: Seq<char>)
    ensures
        index_named(v, n) is Some <==> exists|i: int| 0 <= i < v.len() && v[i].name == n,
        index_named(v, n) matches Some(k) ==> 0 <= k < v.len() && v[k].name == n && forall|j: int|
            0 <= j < k ==> v[j].name != n,
{
    if exists|i: int| 0 <= i < v.len() && v[i].name == n {
        let w = choose|i: int| 0 <= i < v.len() && v[i].name == n;
        lemma_least_named(v, n, w);
    }
}

/// What `index_triggered` finds: the first skill with that trigger.
pub proof fn lemma_index_triggered_props(v: Seq<SkillView>, t: Seq<char>)
    ensures
        index_triggered(v, t) is Some <==> exists|i: int| 0 <= i < v.len() && v[i].trigger == Some(t),
        index_triggered(v, t) matches Some(k) ==> 0 <= k < v.len() && v[k].trigger == Some(t) && forall|j: int|
            0 <= j < k ==> v[j].trigger != Some(t),
{
    if exists|i: int| 0 <= i < v.len() && v[i].trigger == Some(t) {
        let w = choose|i: int| 0 <= i < v.len() && v[i].trigger == Some(t);
        lemma_least_triggered(v, t, w);
    }
}

proof fn lemma_index_named_unique(v: Seq<SkillView>, k: int)
    requires
        names_unique(v),
        0 <= k < v.len(),
    ensures
        index_named(v, v[k].name) == Some(k),
{
    lemma_index_named_props(v, v[k].name);
    let c = index_named(v, v[k].name)->0;
    if c != k {
        assert(v[c].name == v[k].name);
    }
}

/// A skill with the given fields and two or three tools.
fn make_skill(
    name: &str,
    description: &str,
    trigger: &str,
    tool_a: &str,
    tool_b: &str,
    tool_c: Option<&str>,
    prompt: &str,
) -> (s: Skill)
    ensures
        s@ == skill_view(
            name@,
            description@,
            trigger@,
            seq![tool_a@, tool_b@] + match tool_c {
                Some(t) => seq![t@],
                None => Seq::empty(),
            },
            prompt@,
        ),
{
    let mut tools: Vec<String> = Vec::new();
    tools.push(string_from_str(tool_a));
    tools.push(string_from_str(tool_b));
    match tool_c {
        Some(t) => tools.push(string_from_str(t)),
        None => {},
    }
    proof {
        assert(texts(tools@) =~= seq![tool_a@, tool_b@] + match tool_c {
            Some(t) => seq![t@],
            None => Seq::<Seq<char>>::empty(),
        });
    }
    Skill {
        name: string_from_str(name),
        description: string_from_str(description),
        trigger: Some(string_from_str(trigger)),
        allowed_tools: tools,
        prompt_template: string_from_str(prompt),
    }
}

/// The index of the first skill with the given name.
fn find_named(v: &[Skill], name: &str) -> (r: Option<usize>)
    ensures
        match r {
            Some(i) => i < v@.len() && index_named(skill_views(v@), name@) == Some(i as int),
            None => index_named(skill_views(v@), name@) is None,
        },
{
    let ghost sv = skill_views(v@);
    let n = v.len();
    let mut i: usize = 0;
    while i < n
        invariant
            n == v@.len(),
            i <= n,
            sv == skill_views(v@),
            forall|j: int| 0 <= j < i ==> sv[j].name != name@,
        decreases n - i,
    {
        if crate::text::same_text(v[i].name.as_str(), name) {
            proof {
                lemma_index_named_props(sv, name@);
                assert(sv[i as int].name == name@);
                let c = index_named(sv, name@)->0;
                if c < i {
                } else if c > i {
                }
            }
            return Some(i);
        }
        i = i + 1;
    }
    proof {
        lemma_index_named_props(sv, name@);
    }
    None
}

/// Whether a skill's trigger equals the word.
fn triggered_by(s: &Skill, w: &[char]) -> (b: bool)
    ensures
        b == (s@.trigger == Some(w@)),
{
    match &s.trigger {
        Some(t) => {
            let tc = chars_of(t.as_str());
            chars_equal(tc.as_slice(), w)
        },
        None => false,
    }
}

/// The index of the first skill triggered by the word.
fn find_triggered(v: &[Skill], w: &[char]) -> (r: Option<usize>)
    ensures
        match r {
            Some(i) => i < v@.len() && index_triggered(skill_views(v@), w@) == Some(i as int),
            None => index_triggered(skill_views(v@), w@) is None,
        },
{
    let ghost sv = skill_views(v@);
    let n = v.len();
    let mut i: usize = 0;
    while i < n
        invariant
            n == v@.len(),
            i <= n,
            sv == skill_views(v@),
            forall|j: int| 0 <= j < i ==> sv[j].trigger != Some(w@),
        decreases n - i,
    {
        if triggered_by(&v[i], w) {
            proof {
                lemma_index_triggered_props(sv, w@);
                assert(sv[i as int].trigger == Some(w@));
                let c = index_triggered(sv, w@)->0;
                if c < i {
                } else if c > i {
                }
            }
            return Some(i);
        }
        i = i + 1;
    }
    proof {
        lemma_index_triggered_props(sv, w@);
    }
    None
}

/// The first whitespace-separated word.
fn first_word_exec(s: &[char]) -> (r: Option<Vec<char>>)
    ensures
        match (r, first_word(s@)) {
            (Some(a), Some(b)) => a@ == b,
            (None, None) => true,
            _ => false,
        },
{
    let t = strip_chars(s, CharClass::Whitespace, true, false);
    let n = t.len();
    if n == 0 {
        return None;
    }
    let mut i: usize = 0;
    while i < n && !in_class_exec(t[i], CharClass::Whitespace)
        invariant
            n == t@.len(),
            i <= n,
            forall|j: int| 0 <= j < i ==> !is_whitespace(#[trigger] t@[j]),
        decreases n - i,
    {
        i = i + 1;
    }
    proof {
        if i < n {
            let c = choose|k: int| 0 <= k < t@.len() && is_whitespace(t@[k]) && forall|j: int|
                0 <= j < k ==> !is_whitespace(t@[j]);
            if c < i {
            } else if c > i {
            }
        } else {
            assert(t@.subrange(0, n as int) =~= t@);
        }
    }
    Some(copy_range(t.as_slice(), 0, i))
}

/// Where a skill named `key` goes: after every skill whose name comes no
/// later than it.
fn insert_position(all: &Vec<&Skill>, key: &[char]) -> (p: usize)
    ensures
        p <= all@.len(),
        forall|j: int| 0 <= j < p ==> text_le(#[trigger] ref_views(all@)[j].name, key@),
        p < all@.len() ==> !text_le(ref_views(all@)[p as int].name, key@),
{
    let ghost v = ref_views(all@);
    let n = all.len();
    let mut p: usize = 0;
    while p < n
        invariant
            n == all@.len(),
            v == ref_views(all@),
            p <= n,
            forall|j: int| 0 <= j < p ==> text_le(#[trigger] v[j].name, key@),
        decreases n - p,
    {
        let other = chars_of(all[p].name.as_str());
        if !text_le_exec(other.as_slice(), key) {
            return p;
        }
        p = p + 1;
    }
    p
}

proof fn lemma_insert_multiset(s: Seq<SkillView>, p: int, x: SkillView)
    requires
        0 <= p <= s.len(),
    ensures
        s.insert(p, x).to_multiset() == s.to_multiset().insert(x),
{
    broadcast use vstd::seq_lib::group_to_multiset_ensures;
    let t = s.insert(p, x);
    assert(t.remove(p) =~= s);
    assert(t[p] == x);
    assert(t.to_multiset().count(x) > 0);
    assert(t.to_multiset() =~= t.to_multiset().remove(x).insert(x));
}

/// Insert a skill after every skill whose name comes no later than its own,
/// keeping the list sorted.
fn insert_sorted<'a>(all: &mut Vec<&'a Skill>, s: &'a Skill)
    requires
        sorted_by_name(ref_views(old(all)@)),
    ensures
        sorted_by_name(ref_views(final(all)@)),
        ref_views(final(all)@).to_multiset() == ref_views(old(all)@).to_multiset().insert(s@),
{
    let key = chars_of(s.name.as_str());
    let ghost v = ref_views(all@);
    let p = insert_position(all, key.as_slice());
    all.insert(p, s);
    proof {
        let w = ref_views(all@);
        assert(w =~= v.insert(p as int, s@));
        lemma_insert_multiset(v, p as int, s@);
        assert forall|i: int, j: int| 0 <= i < j < w.len() implies text_le(w[i].name, w[j].name) by {
            if j < p {
            } else if j == p {
            } else if i < p {
                assert(w[j] == v[j - 1]);
                assert(text_le(v[i].name, v[j - 1].name));
            } else if i == p {
                assert(w[j] == v[j - 1]);
                lemma_text_le_total_transitive(v[p as int].name, s@.name, s@.name);
                lemma_text_le_total_transitive(s@.name, v[p as int].name, v[j - 1].name);
                if j - 1 > p {
                    assert(text_le(v[p as int].name, v[j - 1].name));
                }
            } else {
                assert(w[i] == v[i - 1]);
                assert(w[j] == v[j - 1]);
            }
        }
    }
}

} // verus!
