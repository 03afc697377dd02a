//! The tools the assistant may call: which exist, how risky each is, which
//! repositories are off limits, which paths are sensitive, and how output is
//! cut down before it goes back to the model.
use vstd::prelude::*;
use vstd::utf8::{decode_utf8, encode_utf8, is_char_boundary};

use crate::agent::error::AgentError;
use crate::agent::git_tools::{
    builtin_preview, preview_text, CreateCommitTool, GitDiffTool, GitLogTool, GitStatusTool, ListFilesTool, ReadFileTool, SearchCodeTool,
    StageFilesTool,
};
use crate::agent::types::{RiskLevel, ToolCall, ToolDefinition};
use crate::paths::{path_prefix, path_starts_with};
use crate::text::{
    chars_of, contains_exec, contains_text, push_str, same_text, string_from_str, utf8_len,
};

verus! {

/// The most bytes of tool output handed back to the model.
pub const OUTPUT_TRUNCATION_LIMIT: usize = 50000;

/// The lower-case form of a text, as `str::to_lowercase` gives it (full
/// Unicode case mapping).
pub uninterp spec fn lowercase(s: Seq<char>) -> Seq<char>;

/// `str::to_lowercase`: the result is named `lowercase`, a function of the
/// text alone.
#[verifier::external_body]
fn to_lowercase(s: &str) -> (r: String)
    ensures
        r@ == lowercase(s@),
{
    s.to_lowercase()
}

/// The fragments whose presence marks a path as sensitive.
pub open spec fn sensitive_patterns() -> Seq<Seq<char>> {
    seq![
        ".env"@,
        ".env.local"@,
        ".env.production"@,
        "credentials.json"@,
        "id_rsa"@,
        "id_ed25519"@,
        ".ssh/config"@,
        ".netrc"@,
        ".npmrc"@,
        "token"@,
        "secret"@,
    ]
}

/// Whether a (lower-cased) text contains one of the sensitive fragments.
pub open spec fn mentions_sensitive(s: Seq<char>) -> bool {
    exists|i: int| 0 <= i < sensitive_patterns().len() && contains_text(s, #[trigger] sensitive_patterns()[i])
}

/// Whether an already lower-cased text contains one of the sensitive
/// fragments.
pub fn mentions_sensitive_pattern(lower: &str) -> (b: bool)
    ensures
        b == mentions_sensitive(lower@),
{
    let mut patterns: Vec<&str> = Vec::new();
    patterns.push(".env");
    patterns.push(".env.local");
    patterns.push(".env.production");
    patterns.push("credentials.json");
    patterns.push("id_rsa");
    patterns.push("id_ed25519");
    patterns.push(".ssh/config");
    patterns.push(".netrc");
    patterns.push(".npmrc");
    patterns.push("token");
    patterns.push("secret");
    let ghost pv = patterns@.map_values(|p: &str| p@);
    proof {
        assert(pv =~= sensitive_patterns());
    }
    let text = chars_of(lower);
    let n = patterns.len();
    let mut i: usize = 0;
    while i < n
        invariant
            n == patterns@.len(),
            i <= n,
            pv == patterns@.map_values(|p: &str| p@),
            pv == sensitive_patterns(),
            text@ == lower@,
            forall|j: int| 0 <= j < i ==> !contains_text(lower@, #[trigger] sensitive_patterns()[j]),
        decreases n - i,
    {
        let p = chars_of(patterns[i]);
        if contains_exec(text.as_slice(), p.as_slice()) {
            proof {
                assert(pv[i as int] == patterns@[i as int]@);
                assert(contains_text(lower@, sensitive_patterns()[i as int]));
            }
            return true;
        }
        proof {
            assert(pv[i as int] == patterns@[i as int]@);
        }
        i = i + 1;
    }
    false
}

/// Whether a path must not be read or staged: its lower-case form contains
/// one of the sensitive fragments.
pub fn is_sensitive_path(path: &str) -> (b: bool)
    ensures
        b == mentions_sensitive(lowercase(path@)),
{
    let lower = to_lowercase(path);
    mentions_sensitive_pattern(lower.as_str())
}

/// A registered tool: its definition and how risky calling it is.
pub struct ToolEntry {
    pub definition: ToolDefinition,
    pub risk: RiskLevel,
}

/// What a registered tool holds.
pub struct ToolView {
    pub name: Seq<char>,
    pub description: Seq<char>,
    pub input_schema: Seq<char>,
    pub risk: RiskLevel,
}

impl View for ToolEntry {
    type V = ToolView;

    open spec fn view(&self) -> ToolView {
        ToolView {
            name: self.definition.name@,
            description: self.definition.description@,
            input_schema: self.definition.input_schema@,
            risk: self.risk,
        }
    }
}

/// The index of the tool with the given name, if one is registered.
pub open spec fn tool_index(v: Seq<ToolView>, name: Seq<char>) -> Option<int> {
    if exists|i: int| 0 <= i < v.len() && v[i].name == name {
        Some(choose|i: int| 0 <= i < v.len() && v[i].name == name)
    } else {
        None
    }
}

/// The tools by name, and the repositories no tool may touch.
pub struct ToolExecutor {
    tools: Vec<ToolEntry>,
    excluded_repos: Vec<String>,
}

/// The message given when a call targets an excluded repository.
pub open spec fn excluded_message() -> Seq<char> {
    "Repository is excluded from tool operations"@
}

/// The note appended to output that was cut short.
pub open spec fn truncation_note() -> Seq<char> {
    "\n... (output truncated)"@
}

impl ToolExecutor {
    /// The registered tools.
    pub closed spec fn tools(&self) -> Seq<ToolView> {
        self.tools@.map_values(|t: ToolEntry| t@)
    }

    /// The excluded repository paths.
    pub closed spec fn excluded(&self) -> Seq<Seq<char>> {
        self.excluded_repos@.map_values(|s: String| s@)
    }

    /// No two registered tools share a name.
    pub open spec fn wf(&self) -> bool {
        forall|i: int, j: int| 0 <= i < j < self.tools().len() ==> self.tools()[i].name != self.tools()[j].name
    }

    /// An executor with the built-in tools and no excluded repository.
    pub fn new() -> (e: Self)
        ensures
            e.wf(),
            e.excluded().len() == 0,
            e.tools().len() == 8,
            e.tools()[0].name == "read_file"@ && e.tools()[0].risk == RiskLevel::ReadOnly,
            e.tools()[1].name == "list_files"@ && e.tools()[1].risk == RiskLevel::ReadOnly,
            e.tools()[2].name == "git_status"@ && e.tools()[2].risk == RiskLevel::ReadOnly,
            e.tools()[3].name == "git_diff"@ && e.tools()[3].risk == RiskLevel::ReadOnly,
            e.tools()[4].name == "git_log"@ && e.tools()[4].risk == RiskLevel::ReadOnly,
            e.tools()[5].name == "search_code"@ && e.tools()[5].risk == RiskLevel::ReadOnly,
            e.tools()[6].name == "stage_files"@ && e.tools()[6].risk == RiskLevel::WriteLocal,
            e.tools()[7].name == "create_commit"@ && e.tools()[7].risk == RiskLevel::WriteLocal,
    {
        let mut e = ToolExecutor { tools: Vec::new(), excluded_repos: Vec::new() };
        let builtins = builtin_tools();
        let n = builtins.len();
        let ghost bv = builtins@.map_values(|t: ToolEntry| t@);
        let mut rest = builtins;
        let mut taken: Vec<ToolEntry> = Vec::new();
        while rest.len() > 0
            invariant
                taken@.len() + rest@.len() == n,
                bv.len() == n,
                forall|i: int| 0 <= i < taken@.len() ==> (#[trigger] taken@[i])@ == bv[n - 1 - i],
                forall|i: int| 0 <= i < rest@.len() ==> (#[trigger] rest@[i])@ == bv[i],
            decreases rest@.len(),
        {
            let t = rest.pop().unwrap();
            taken.push(t);
        }
        while taken.len() > 0
            invariant
                taken@.len() + e.tools@.len() == n,
                bv.len() == n,
                forall|i: int| 0 <= i < taken@.len() ==> (#[trigger] taken@[i])@ == bv[n - 1 - i],
                forall|i: int| 0 <= i < e.tools@.len() ==> (#[trigger] e.tools@[i])@ == bv[i],
                e.excluded_repos@.len() == 0,
            decreases taken@.len(),
        {
            let t = taken.pop().unwrap();
            e.tools.push(t);
        }
        proof {
            reveal_strlit("read_file");
            reveal_strlit("list_files");
            reveal_strlit("git_status");
            reveal_strlit("git_diff");
            reveal_strlit("git_log");
            reveal_strlit("search_code");
            reveal_strlit("stage_files");
            reveal_strlit("create_commit");
            assert(e.excluded() =~= seq![]);
            assert(e.tools() =~= bv);
            assert forall|i: int, j: int| 0 <= i < j < e.tools().len() implies e.tools()[i].name
                != e.tools()[j].name by {
                if e.tools()[i].name == e.tools()[j].name {
                    assert(e.tools()[i].name.len() == e.tools()[j].name.len());
                    assert(e.tools()[i].name[0] == e.tools()[j].name[0]);
                    assert(e.tools()[i].name[4] == e.tools()[j].name[4]);
                }
            }
        }
        e
    }

    /// Register a tool, replacing any registered tool of the same name.
    pub fn register(&mut self, entry: ToolEntry)
        requires
            old(self).wf(),
        ensures
            final(self).wf(),
            final(self).excluded() == old(self).excluded(),
            (tool_index(final(self).tools(), entry@.name) matches Some(k) && final(self).tools()[k] == entry@),
            forall|n: Seq<char>| n != entry@.name ==> #[trigger] tool_index(final(self).tools(), n) is Some
                == tool_index(old(self).tools(), n) is Some,
            forall|n: Seq<char>|
                n != entry@.name && tool_index(old(self).tools(), n) is Some ==> final(self).tools()[#[trigger] tool_index(
                    final(self).tools(),
                    n,
                )->0] == old(self).tools()[tool_index(old(self).tools(), n)->0],
    {
        let ghost old_v = self.tools();
        let ghost ev = entry@;
        let ghost mut pos: int = 0;
        match self.find(entry.definition.name.as_str()) {
            Some(i) => {
                self.tools.set(i, entry);
                proof {
                    assert(self.tools() =~= old_v.update(i as int, ev));
                    pos = i as int;
                }
            },
            None => {
                self.tools.push(entry);
                proof {
                    assert(self.tools() =~= old_v.push(ev));
                    pos = old_v.len() as int;
                }
            },
        }
        proof {
            let nv = self.tools();
            assert(nv[pos] == ev);
            assert forall|a: int, b: int| 0 <= a < b < nv.len() implies nv[a].name != nv[b].name by {
                if a < old_v.len() && b < old_v.len() && nv[a] != old_v[a] {
                } else if a < old_v.len() && b < old_v.len() && nv[b] != old_v[b] {
                }
            }
            lemma_tool_index_props(nv, ev.name);
            let kk = tool_index(nv, ev.name)->0;
            if kk != pos {
                assert(nv[kk].name == nv[pos].name);
            }
            assert forall|n: Seq<char>| n != ev.name implies #[trigger] tool_index(nv, n) is Some == tool_index(
                old_v,
                n,
            ) is Some by {
                lemma_tool_index_props(nv, n);
                lemma_tool_index_props(old_v, n);
                if tool_index(old_v, n) is Some {
                    let k = tool_index(old_v, n)->0;
                    assert(nv[k].name == n);
                }
                if tool_index(nv, n) is Some {
                    let k = tool_index(nv, n)->0;
                    assert(old_v[k].name == n);
                }
            }
            assert forall|n: Seq<char>|
                n != ev.name && tool_index(old_v, n) is Some implies nv[#[trigger] tool_index(nv, n)->0]
                == old_v[tool_index(old_v, n)->0] by {
                lemma_tool_index_props(nv, n);
                lemma_tool_index_props(old_v, n);
                let k = tool_index(old_v, n)->0;
                assert(nv[k].name == n);
                let k2 = tool_index(nv, n)->0;
                if k2 != k {
                    assert(nv[k2].name == nv[k].name);
                }
            }
        }
    }

    /// The index of the tool with the given name.
    fn find(&self, name: &str) -> (r: Option<usize>)
        requires
            self.wf(),
        ensures
            match r {
                Some(i) => i < self.tools().len() && tool_index(self.tools(), name@) == Some(i as int),
                None => tool_index(self.tools(), name@) is None,
            },
    {
        let n = self.tools.len();
        let mut i: usize = 0;
        while i < n
            invariant
                self.wf(),
                n == self.tools@.len(),
                i <= n,
                forall|j: int| 0 <= j < i ==> self.tools()[j].name != name@,
            decreases n - i,
        {
            if same_text(self.tools[i].definition.name.as_str(), name) {
                proof {
                    lemma_tool_index_props(self.tools(), name@);
                    let k = tool_index(self.tools(), name@)->0;
                    if k != i {
                        assert(self.tools()[k].name == self.tools()[i as int].name);
                    }
                }
                return Some(i);
            }
            i = i + 1;
        }
        proof {
            lemma_tool_index_props(self.tools(), name@);
        }
        None
    }

    /// The definitions of the registered tools.
    pub fn definitions(&self) -> (defs: Vec<ToolDefinition>)
        ensures
            defs@.len() == self.tools().len(),
            forall|i: int|
                0 <= i < defs@.len() ==> (#[trigger] defs@[i]).name@ == self.tools()[i].name
                    && defs@[i].description@ == self.tools()[i].description && defs@[i].input_schema@
                    == self.tools()[i].input_schema,
    {
        let n = self.tools.len();
        let mut defs: Vec<ToolDefinition> = Vec::new();
        let mut i: usize = 0;
        while i < n
            invariant
                n == self.tools@.len(),
                i <= n,
                defs@.len() == i,
                forall|j: int|
                    0 <= j < i ==> (#[trigger] defs@[j]).name@ == self.tools()[j].name
                        && defs@[j].description@ == self.tools()[j].description
                        && defs@[j].input_schema@ == self.tools()[j].input_schema,
            decreases n - i,
        {
            let d = &self.tools[i].definition;
            defs.push(
                ToolDefinition {
                    name: crate::text::clone_string(&d.name),
                    description: crate::text::clone_string(&d.description),
                    input_schema: crate::text::clone_string(&d.input_schema),
                },
            );
            i = i + 1;
        }
        defs
    }

    /// Put a repository (and everything under it) off limits.
    pub fn exclude_repo(&mut self, path: String)
        ensures
            final(self).excluded() == old(self).excluded().push(path@),
            final(self).tools() == old(self).tools(),
    {
        let ghost p = path@;
        self.excluded_repos.push(path);
        proof {
            assert(self.excluded() =~= old(self).excluded().push(p));
        }
    }

    /// Whether a path lies in an excluded repository, comparing whole path
    /// components.
    pub fn is_repo_excluded(&self, path: &str) -> (b: bool)
        ensures
            b == exists|i: int| 0 <= i < self.excluded().len() && path_prefix(path@, #[trigger] self.excluded()[i]),
    {
        let n = self.excluded_repos.len();
        let mut i: usize = 0;
        while i < n
            invariant
                n == self.excluded_repos@.len(),
                i <= n,
                forall|j: int| 0 <= j < i ==> !path_prefix(path@, #[trigger] self.excluded()[j]),
            decreases n - i,
        {
            if path_starts_with(path, self.excluded_repos[i].as_str()) {
                proof {
                    assert(self.excluded()[i as int] == self.excluded_repos@[i as int]@);
                }
                return true;
            }
            proof {
                assert(self.excluded()[i as int] == self.excluded_repos@[i as int]@);
            }
            i = i + 1;
        }
        false
    }

    /// How risky calling the named tool is, if it is registered.
    pub fn risk_level(&self, tool_name: &str) -> (r: Option<RiskLevel>)
        requires
            self.wf(),
        ensures
            match tool_index(self.tools(), tool_name@) {
                Some(k) => r == Some(self.tools()[k].risk),
                None => r is None,
            },
    {
        match self.find(tool_name) {
            Some(i) => Some(self.tools[i].risk),
            None => None,
        }
    }

    /// How a call is previewed to the user: the built-in tool's preview of
    /// its arguments; `None` when the tool is not registered or has no
    /// built-in preview.
    pub fn preview(&self, call: &ToolCall) -> (p: Option<String>)
        requires
            self.wf(),
        ensures
            tool_index(self.tools(), call.name@) is None ==> p is None,
            tool_index(self.tools(), call.name@) is Some ==> match p {
                Some(s) => preview_text(call.name@, call.arguments@) == Some(s@),
                None => preview_text(call.name@, call.arguments@) is None,
            },
    {
        match self.find(call.name.as_str()) {
            Some(_) => builtin_preview(call.name.as_str(), call.arguments.as_str()),
            None => None,
        }
    }

    /// Whether a call may run: the tool must be registered and the
    /// repository must not be excluded.
    pub fn check_call(&self, tool_name: &str, repo_path: &str) -> (r: Result<(), AgentError>)
        requires
            self.wf(),
        ensures
            tool_index(self.tools(), tool_name@) is None ==> (r matches Err(AgentError::ToolNotFound(n)) && n@
                == tool_name@),
            tool_index(self.tools(), tool_name@) is Some ==> (r is Ok <==> !exists|i: int|
                0 <= i < self.excluded().len() && path_prefix(repo_path@, #[trigger] self.excluded()[i])),
            tool_index(self.tools(), tool_name@) is Some && r is Err ==> (r matches Err(
                AgentError::ToolExecution(m),
            ) && m@ == excluded_message()),
    {
        match self.find(tool_name) {
            None => Err(AgentError::ToolNotFound(string_from_str(tool_name))),
            Some(_) => {
                if self.is_repo_excluded(repo_path) {
                    Err(AgentError::ToolExecution(string_from_str("Repository is excluded from tool operations")))
                } else {
                    Ok(())
                }
            },
        }
    }

    /// Tool output as handed back to the model: output longer than
    /// [`OUTPUT_TRUNCATION_LIMIT`] bytes is cut to that many bytes and
    /// followed by a note.
    pub fn finish_output(output: String) -> (r: String)
        requires
            utf8_len(output@) > OUTPUT_TRUNCATION_LIMIT ==> is_char_boundary(
                encode_utf8(output@),
                OUTPUT_TRUNCATION_LIMIT as int,
            ),
        ensures
            utf8_len(output@) <= OUTPUT_TRUNCATION_LIMIT ==> r@ == output@,
            utf8_len(output@) > OUTPUT_TRUNCATION_LIMIT ==> r@ == decode_utf8(
                encode_utf8(output@).take(OUTPUT_TRUNCATION_LIMIT as int),
            ) + truncation_note(),
    {
        let mut out = output;
        if out.as_str().len() > OUTPUT_TRUNCATION_LIMIT {
            truncate_bytes(&mut out, OUTPUT_TRUNCATION_LIMIT);
            push_str(&mut out, "\n... (output truncated)");
        }
        out
    }
}

/// `String::truncate`: keeps the first `n` bytes. It panics unless `n` is
/// a character boundary, which the requirement rules out.
#[verifier::external_body]
pub(crate) fn truncate_bytes(s: &mut String, n: usize)
    requires
        n < utf8_len(old(s)@) ==> is_char_boundary(encode_utf8(old(s)@), n as int),
    ensures
        n < utf8_len(old(s)@) ==> final(s)@ == decode_utf8(encode_utf8(old(s)@).take(n as int)),
        n >= utf8_len(old(s)@) ==> final(s)@ == old(s)@,
{
    s.truncate(n)
}

proof fn lemma_tool_index_props(v: Seq<ToolView>, n: Seq<char>)
    ensures
        tool_index(v, n) is Some <==> exists|i: int| 0 <= i < v.len() && v[i].name == n,
        tool_index(v, n) matches Some(k) ==> 0 <= k < v.len() && v[k].name == n,
{
}

/// The built-in tools, in registration order.
fn builtin_tools() -> (v: Vec<ToolEntry>)
    ensures
        v@.len() == 8,
        v@[0]@.name == "read_file"@ && v@[0]@.risk == RiskLevel::ReadOnly,
        v@[1]@.name == "list_files"@ && v@[1]@.risk == RiskLevel::ReadOnly,
        v@[2]@.name == "git_status"@ && v@[2]@.risk == RiskLevel::ReadOnly,
        v@[3]@.name == "git_diff"@ && v@[3]@.risk == RiskLevel::ReadOnly,
        v@[4]@.name == "git_log"@ && v@[4]@.risk == RiskLevel::ReadOnly,
        v@[5]@.name == "search_code"@ && v@[5]@.risk == RiskLevel::ReadOnly,
        v@[6]@.name == "stage_files"@ && v@[6]@.risk == RiskLevel::WriteLocal,
        v@[7]@.name == "create_commit"@ && v@[7]@.risk == RiskLevel::WriteLocal,
{
    let mut v: Vec<ToolEntry> = Vec::new();
    v.push(ToolEntry { definition: ReadFileTool.definition(), risk: ReadFileTool.risk_level() });
    v.push(ToolEntry { definition: ListFilesTool.definition(), risk: ListFilesTool.risk_level() });
    v.push(ToolEntry { definition: GitStatusTool.definition(), risk: GitStatusTool.risk_level() });
    v.push(ToolEntry { definition: GitDiffTool.definition(), risk: GitDiffTool.risk_level() });
    v.push(ToolEntry { definition: GitLogTool.definition(), risk: GitLogTool.risk_level() });
    v.push(ToolEntry { definition: SearchCodeTool.definition(), risk: SearchCodeTool.risk_level() });
    v.push(ToolEntry { definition: StageFilesTool.definition(), risk: StageFilesTool.risk_level() });
    v.push(ToolEntry { definition: CreateCommitTool.definition(), risk: CreateCommitTool.risk_level() });
    v
}

/// Which status bits git reports for a path.
#[derive(Debug, Clone, Copy, PartialEq, Eq, Structural)]
pub struct StatusFlags {
    pub index_new: bool,
    pub index_modified: bool,
    pub index_deleted: bool,
    pub index_renamed: bool,
    pub wt_new: bool,
    pub wt_modified: bool,
    pub wt_deleted: bool,
}

/// The staged-side letter of a status.
pub open spec fn index_letter(s: StatusFlags) -> char {
    if s.index_new {
        'A'
    } else if s.index_modified {
        'M'
    } else if s.index_deleted {
        'D'
    } else if s.index_renamed {
        'R'
    } else {
        ' '
    }
}

/// The working-tree letter of a status.
pub open spec fn worktree_letter(s: StatusFlags) -> char {
    if s.wt_new {
        '?'
    } else if s.wt_modified {
        'M'
    } else if s.wt_deleted {
        'D'
    } else {
        ' '
    }
}

/// The two-letter status column: the staged letter, then the working-tree
/// letter.
pub fn format_status(status: StatusFlags) -> (s: String)
    ensures
        s@ == seq![index_letter(status), worktree_letter(status)],
{
    let a = if status.index_new {
        'A'
    } else if status.index_modified {
        'M'
    } else if status.index_deleted {
        'D'
    } else if status.index_renamed {
        'R'
    } else {
        ' '
    };
    let b = if status.wt_new {
        '?'
    } else if status.wt_modified {
        'M'
    } else if status.wt_deleted {
        'D'
    } else {
        ' '
    };
    let mut cs: Vec<char> = Vec::new();
    cs.push(a);
    cs.push(b);
    proof {
        assert(cs@ =~= seq![a, b]);
    }
    crate::text::string_from_chars(cs.as_slice())
}

} // verus!

verus! {

/// The two-letter status column reports every change it is told of: the
/// working-tree letter is blank exactly when the working tree has no change;
/// a file new to the working tree shows `?`, else a modified one `M`, else a
/// deleted one `D`, three different letters. The staged letter likewise is
/// blank exactly when nothing is staged, and new, modified, deleted and
/// renamed in the index show `A`, `M`, `D` and `R` in that order of
/// precedence.
pub proof fn law_status_letters_report_every_change(s: StatusFlags)
    ensures
        (worktree_letter(s) == ' ') <==> !(s.wt_new || s.wt_modified || s.wt_deleted),
        s.wt_new ==> worktree_letter(s) == '?',
        !s.wt_new && s.wt_modified ==> worktree_letter(s) == 'M',
        !s.wt_new && !s.wt_modified && s.wt_deleted ==> worktree_letter(s) == 'D',
        (index_letter(s) == ' ') <==> !(s.index_new || s.index_modified || s.index_deleted || s.index_renamed),
        s.index_new ==> index_letter(s) == 'A',
        !s.index_new && s.index_modified ==> index_letter(s) == 'M',
        !s.index_new && !s.index_modified && s.index_deleted ==> index_letter(s) == 'D',
        !s.index_new && !s.index_modified && !s.index_deleted && s.index_renamed ==> index_letter(s) == 'R',
{
}

/// Files that differ in their working-tree change show different
/// working-tree letters, once the change that takes precedence (new, then
/// modified, then deleted) differs.
pub proof fn law_worktree_letters_tell_changes_apart(a: StatusFlags, b: StatusFlags)
    requires
        (a.wt_new, !a.wt_new && a.wt_modified, !a.wt_new && !a.wt_modified && a.wt_deleted) != (
            b.wt_new,
            !b.wt_new && b.wt_modified,
            !b.wt_new && !b.wt_modified && b.wt_deleted,
        ),
    ensures
        worktree_letter(a) != worktree_letter(b),
{
}

} // verus!
