//! The built-in tools: what each is called and declares, how risky it is,
//! how a call is previewed to the user, and how its findings are written
//! up for the model.
use vstd::prelude::*;
use vstd::utf8::{decode_utf8, valid_utf8};

use crate::agent::error::AgentError;
use crate::agent::json::{
    array_items, bool_field, json_array_items, json_bool_field, json_string_field, json_u64_field, string_field,
    u64_field,
};
use crate::agent::tools::{index_letter, is_sensitive_path, lowercase, mentions_sensitive, worktree_letter, StatusFlags};
use crate::agent::types::{RiskLevel, ToolDefinition};
use crate::pr::identity::{lemma_sorted_unique, sort_texts, sorted_arrangement, sorted_texts};
use crate::pr::types::{is_utf8, string_from_utf8};
use crate::text::{
    chars_of, contains_exec, contains_text, decimal, joined, push_char, push_decimal, push_str, split_chars,
    split_on, string_from_chars, string_from_str, string_views, trim, trim_chars,
};

verus! {

/// A tool definition from its parts.
fn definition_of(name: &str, description: &str, schema: &str) -> (d: ToolDefinition)
    ensures
        d.name@ == name@,
        d.description@ == description@,
        d.input_schema@ == schema@,
{
    ToolDefinition {
        name: string_from_str(name),
        description: string_from_str(description),
        input_schema: string_from_str(schema),
    }
}

/// Reads one file of the repository.
pub struct ReadFileTool;

/// Lists one directory of the repository.
pub struct ListFilesTool;

/// Shows the working tree status.
pub struct GitStatusTool;

/// Shows staged or unstaged changes.
pub struct GitDiffTool;

/// Shows recent commits.
pub struct GitLogTool;

/// Searches the repository's files for a text.
pub struct SearchCodeTool;

/// Stages files for the next commit.
pub struct StageFilesTool;

/// Commits what is staged.
pub struct CreateCommitTool;

/// The text of an optional string, or `default` when there is none.
pub open spec fn or_default(o: Option<Seq<char>>, default: Seq<char>) -> Seq<char> {
    match o {
        Some(s) => s,
        None => default,
    }
}

fn push_or(out: &mut String, o: Option<String>, default: &str)
    ensures
        final(out)@ == old(out)@ + or_default(
            match o {
                Some(s) => Some(s@),
                None => None,
            },
            default@,
        ),
{
    match o {
        Some(s) => push_str(out, s.as_str()),
        None => push_str(out, default),
    }
}

impl ReadFileTool {
    pub fn definition(&self) -> (d: ToolDefinition)
        ensures
            d.name@ == "read_file"@,
            d.description@ == "Read the contents of a file"@,
    {
        definition_of(
            "read_file",
            "Read the contents of a file",
            "{\"properties\":{\"path\":{\"description\":\"Relative path to the file\",\"type\":\"string\"}},\"required\":[\"path\"],\"type\":\"object\"}",
        )
    }

    pub fn risk_level(&self) -> (r: RiskLevel)
        ensures
            r == RiskLevel::ReadOnly,
    {
        RiskLevel::ReadOnly
    }

    /// `Read file: <path>`, with `?` for a missing path.
    pub fn preview(&self, arguments: &str) -> (p: String)
        ensures
            p@ == "Read file: "@ + or_default(json_string_field(arguments@, "path"@), "?"@),
    {
        let mut p = string_from_str("Read file: ");
        push_or(&mut p, string_field(arguments, "path"), "?");
        p
    }
}

impl ListFilesTool {
    pub fn definition(&self) -> (d: ToolDefinition)
        ensures
            d.name@ == "list_files"@,
            d.description@ == "List files in a directory"@,
    {
        definition_of(
            "list_files",
            "List files in a directory",
            "{\"properties\":{\"path\":{\"description\":\"Relative directory path\",\"type\":\"string\"}},\"type\":\"object\"}",
        )
    }

    pub fn risk_level(&self) -> (r: RiskLevel)
        ensures
            r == RiskLevel::ReadOnly,
    {
        RiskLevel::ReadOnly
    }

    /// `List files in: <path>`, with `.` for a missing path.
    pub fn preview(&self, arguments: &str) -> (p: String)
        ensures
            p@ == "List files in: "@ + or_default(json_string_field(arguments@, "path"@), "."@),
    {
        let mut p = string_from_str("List files in: ");
        push_or(&mut p, string_field(arguments, "path"), ".");
        p
    }
}

impl GitStatusTool {
    pub fn definition(&self) -> (d: ToolDefinition)
        ensures
            d.name@ == "git_status"@,
            d.description@ == "Show the working tree status of the git repository"@,
    {
        definition_of(
            "git_status",
            "Show the working tree status of the git repository",
            "{\"properties\":{},\"type\":\"object\"}",
        )
    }

    pub fn risk_level(&self) -> (r: RiskLevel)
        ensures
            r == RiskLevel::ReadOnly,
    {
        RiskLevel::ReadOnly
    }

    pub fn preview(&self, arguments: &str) -> (p: String)
        ensures
            p@ == "Show git status"@,
    {
        string_from_str("Show git status")
    }
}

impl GitDiffTool {
    pub fn definition(&self) -> (d: ToolDefinition)
        ensures
            d.name@ == "git_diff"@,
            d.description@ == "Show changes in the working directory or between commits"@,
    {
        definition_of(
            "git_diff",
            "Show changes in the working directory or between commits",
            "{\"properties\":{\"staged\":{\"description\":\"Show staged changes only\",\"type\":\"boolean\"}},\"type\":\"object\"}",
        )
    }

    pub fn risk_level(&self) -> (r: RiskLevel)
        ensures
            r == RiskLevel::ReadOnly,
    {
        RiskLevel::ReadOnly
    }

    /// Which diff a call shows: staged changes only when `staged` is true.
    pub fn preview(&self, arguments: &str) -> (p: String)
        ensures
            p@ == if json_bool_field(arguments@, "staged"@) == Some(true) {
                "Show staged diff"@
            } else {
                "Show working directory diff"@
            },
    {
        match bool_field(arguments, "staged") {
            Some(true) => string_from_str("Show staged diff"),
            _ => string_from_str("Show working directory diff"),
        }
    }
}

/// How many commits a log call shows: its `count`, else ten.
pub open spec fn log_count(arguments: Seq<char>) -> u64 {
    match json_u64_field(arguments, "count"@) {
        Some(n) => n,
        None => 10,
    }
}

impl GitLogTool {
    pub fn definition(&self) -> (d: ToolDefinition)
        ensures
            d.name@ == "git_log"@,
            d.description@ == "Show recent commit history"@,
    {
        definition_of(
            "git_log",
            "Show recent commit history",
            "{\"properties\":{\"count\":{\"description\":\"Number of commits to show (default 10)\",\"type\":\"integer\"}},\"type\":\"object\"}",
        )
    }

    pub fn risk_level(&self) -> (r: RiskLevel)
        ensures
            r == RiskLevel::ReadOnly,
    {
        RiskLevel::ReadOnly
    }

    /// How many commits the call asks for.
    pub fn count(&self, arguments: &str) -> (n: u64)
        ensures
            n == log_count(arguments@),
    {
        match u64_field(arguments, "count") {
            Some(n) => n,
            None => 10,
        }
    }

    /// `Show last <count> commits`.
    pub fn preview(&self, arguments: &str) -> (p: String)
        ensures
            p@ == "Show last "@ + decimal(log_count(arguments@) as nat) + " commits"@,
    {
        let n = self.count(arguments);
        let mut p = string_from_str("Show last ");
        push_decimal(&mut p, n);
        push_str(&mut p, " commits");
        p
    }
}

impl SearchCodeTool {
    pub fn definition(&self) -> (d: ToolDefinition)
        ensures
            d.name@ == "search_code"@,
            d.description@ == "Search for a pattern in repository files"@,
    {
        definition_of(
            "search_code",
            "Search for a pattern in repository files",
            "{\"properties\":{\"path\":{\"description\":\"Optional path filter\",\"type\":\"string\"},\"pattern\":{\"description\":\"Text pattern to search for\",\"type\":\"string\"}},\"required\":[\"pattern\"],\"type\":\"object\"}",
        )
    }

    pub fn risk_level(&self) -> (r: RiskLevel)
        ensures
            r == RiskLevel::ReadOnly,
    {
        RiskLevel::ReadOnly
    }

    /// `Search for: <pattern>`, with `?` for a missing pattern.
    pub fn preview(&self, arguments: &str) -> (p: String)
        ensures
            p@ == "Search for: "@ + or_default(json_string_field(arguments@, "pattern"@), "?"@),
    {
        let mut p = string_from_str("Search for: ");
        push_or(&mut p, string_field(arguments, "pattern"), "?");
        p
    }
}

/// The string items of an array, in order, others skipped.
pub open spec fn string_items(items: Seq<Option<Seq<char>>>) -> Seq<Seq<char>>
    decreases items.len(),
{
    if items.len() == 0 {
        Seq::empty()
    } else {
        let rest = string_items(items.drop_last());
        match items.last() {
            Some(s) => rest.push(s),
            None => rest,
        }
    }
}

/// The paths a stage call names, for its preview.
pub open spec fn stage_preview_paths(arguments: Seq<char>) -> Seq<Seq<char>> {
    match json_array_items(arguments, "paths"@) {
        Some(items) => string_items(items),
        None => Seq::empty(),
    }
}

impl StageFilesTool {
    pub fn definition(&self) -> (d: ToolDefinition)
        ensures
            d.name@ == "stage_files"@,
            d.description@ == "Stage files for commit"@,
    {
        definition_of(
            "stage_files",
            "Stage files for commit",
            "{\"properties\":{\"paths\":{\"description\":\"Paths to stage\",\"items\":{\"type\":\"string\"},\"type\":\"array\"}},\"required\":[\"paths\"],\"type\":\"object\"}",
        )
    }

    pub fn risk_level(&self) -> (r: RiskLevel)
        ensures
            r == RiskLevel::WriteLocal,
    {
        RiskLevel::WriteLocal
    }

    /// `Stage: <paths>`, the named paths joined by `, `.
    pub fn preview(&self, arguments: &str) -> (p: String)
        ensures
            p@ == "Stage: "@ + joined(stage_preview_paths(arguments@), ", "@),
    {
        let mut names: Vec<String> = Vec::new();
        match array_items(arguments, "paths") {
            Some(items) => {
                let ghost v = json_array_items(arguments@, "paths"@)->0;
                let n = items.len();
                let mut i: usize = 0;
                while i < n
                    invariant
                        n == items@.len(),
                        n == v.len(),
                        i <= n,
                        forall|j: int|
                            0 <= j < v.len() ==> match #[trigger] items@[j] {
                                Some(s) => v[j] == Some(s@),
                                None => v[j] is None,
                            },
                        string_views(names@) == string_items(v.take(i as int)),
                    decreases n - i,
                {
                    proof {
                        assert(v.take(i as int + 1).drop_last() =~= v.take(i as int));
                        assert(v.take(i as int + 1).last() == v[i as int]);
                    }
                    match &items[i] {
                        Some(s) => {
                            let ghost prev = names@;
                            names.push(crate::text::clone_string(s));
                            proof {
                                assert(string_views(names@) =~= string_views(prev).push(s@));
                            }
                        },
                        None => {},
                    }
                    i = i + 1;
                }
                proof {
                    assert(v.take(n as int) =~= v);
                }
            },
            None => {
                proof {
                    assert(string_views(names@) =~= Seq::<Seq<char>>::empty());
                }
            },
        }
        let mut p = string_from_str("Stage: ");
        let list = crate::text::join_with(names.as_slice(), ", ");
        proof {
            assert(names@.map_values(|e: String| e@) == string_views(names@));
        }
        push_str(&mut p, list.as_str());
        p
    }
}

impl CreateCommitTool {
    pub fn definition(&self) -> (d: ToolDefinition)
        ensures
            d.name@ == "create_commit"@,
            d.description@ == "Create a git commit with staged changes"@,
    {
        definition_of(
            "create_commit",
            "Create a git commit with staged changes",
            "{\"properties\":{\"message\":{\"description\":\"Commit message\",\"type\":\"string\"}},\"required\":[\"message\"],\"type\":\"object\"}",
        )
    }

    pub fn risk_level(&self) -> (r: RiskLevel)
        ensures
            r == RiskLevel::WriteLocal,
    {
        RiskLevel::WriteLocal
    }

    /// `Create commit: <message>`, with `?` for a missing message.
    pub fn preview(&self, arguments: &str) -> (p: String)
        ensures
            p@ == "Create commit: "@ + or_default(json_string_field(arguments@, "message"@), "?"@),
    {
        let mut p = string_from_str("Create commit: ");
        push_or(&mut p, string_field(arguments, "message"), "?");
        p
    }
}

/// The preview of a call to a built-in tool; `None` for any other name.
pub open spec fn preview_text(name: Seq<char>, arguments: Seq<char>) -> Option<Seq<char>> {
    if name == "read_file"@ {
        Some("Read file: "@ + or_default(json_string_field(arguments, "path"@), "?"@))
    } else if name == "list_files"@ {
        Some("List files in: "@ + or_default(json_string_field(arguments, "path"@), "."@))
    } else if name == "git_status"@ {
        Some("Show git status"@)
    } else if name == "git_diff"@ {
        Some(
            if json_bool_field(arguments, "staged"@) == Some(true) {
                "Show staged diff"@
            } else {
                "Show working directory diff"@
            },
        )
    } else if name == "git_log"@ {
        Some("Show last "@ + decimal(log_count(arguments) as nat) + " commits"@)
    } else if name == "search_code"@ {
        Some("Search for: "@ + or_default(json_string_field(arguments, "pattern"@), "?"@))
    } else if name == "stage_files"@ {
        Some("Stage: "@ + joined(stage_preview_paths(arguments), ", "@))
    } else if name == "create_commit"@ {
        Some("Create commit: "@ + or_default(json_string_field(arguments, "message"@), "?"@))
    } else {
        None
    }
}

/// The preview of a call to a built-in tool; `None` for any other name.
pub fn builtin_preview(name: &str, arguments: &str) -> (p: Option<String>)
    ensures
        match p {
            Some(s) => preview_text(name@, arguments@) == Some(s@),
            None => preview_text(name@, arguments@) is None,
        },
{
    proof {
        reveal_strlit("read_file");
        reveal_strlit("list_files");
        reveal_strlit("git_status");
        reveal_strlit("git_diff");
        reveal_strlit("git_log");
        reveal_strlit("search_code");
        reveal_strlit("stage_files");
        reveal_strlit("create_commit");
    }
    if crate::text::same_text(name, "read_file") {
        Some(ReadFileTool.preview(arguments))
    } else if crate::text::same_text(name, "list_files") {
        Some(ListFilesTool.preview(arguments))
    } else if crate::text::same_text(name, "git_status") {
        Some(GitStatusTool.preview(arguments))
    } else if crate::text::same_text(name, "git_diff") {
        Some(GitDiffTool.preview(arguments))
    } else if crate::text::same_text(name, "git_log") {
        Some(GitLogTool.preview(arguments))
    } else if crate::text::same_text(name, "search_code") {
        Some(SearchCodeTool.preview(arguments))
    } else if crate::text::same_text(name, "stage_files") {
        Some(StageFilesTool.preview(arguments))
    } else if crate::text::same_text(name, "create_commit") {
        Some(CreateCommitTool.preview(arguments))
    } else {
        None
    }
}

// ----- writing up what a tool found -----

/// One directory entry as listed: `d ` for a directory, `f ` otherwise,
/// then its name.
pub open spec fn listed_entry(name: Seq<char>, is_dir: bool) -> Seq<char> {
    (if is_dir {
        "d "@
    } else {
        "f "@
    }) + name
}

/// A directory entry: its name and whether it is a directory.
#[derive(Debug)]
pub struct DirEntryInfo {
    pub name: String,
    pub is_dir: bool,
}

/// The listing of a directory: one line per entry, sorted.
pub fn list_files_output(entries: Vec<DirEntryInfo>) -> (out: String)
    ensures
        out@ == joined(
            sorted_arrangement(entries@.map_values(|e: DirEntryInfo| listed_entry(e.name@, e.is_dir))),
            "\n"@,
        ),
{
    let ghost given = entries@.map_values(|e: DirEntryInfo| listed_entry(e.name@, e.is_dir));
    let n = entries.len();
    let mut lines: Vec<String> = Vec::new();
    let mut i: usize = 0;
    while i < n
        invariant
            n == entries@.len(),
            i <= n,
            given == entries@.map_values(|e: DirEntryInfo| listed_entry(e.name@, e.is_dir)),
            string_views(lines@) == given.take(i as int),
        decreases n - i,
    {
        let e = &entries[i];
        let mut line = if e.is_dir {
            string_from_str("d ")
        } else {
            string_from_str("f ")
        };
        push_str(&mut line, e.name.as_str());
        let ghost prev = lines@;
        lines.push(line);
        proof {
            assert(line@ == listed_entry(e.name@, e.is_dir));
            assert(given[i as int] == listed_entry(entries@[i as int].name@, entries@[i as int].is_dir));
            assert(string_views(lines@) =~= string_views(prev).push(line@));
            assert(given.take(i as int + 1) =~= given.take(i as int).push(given[i as int]));
            assert(string_views(lines@) =~= given.take(i as int + 1));
        }
        i = i + 1;
    }
    proof {
        assert(given.take(n as int) =~= given);
    }
    let sorted = sort_texts(lines);
    proof {
        let c = sorted_arrangement(given);
        assert(sorted_texts(c) && c.to_multiset() == given.to_multiset());
        lemma_sorted_unique(string_views(sorted@), c);
        assert(sorted@.map_values(|e: String| e@) == string_views(sorted@));
    }
    crate::text::join_with(sorted.as_slice(), "\n")
}

/// One status line: the two-letter status column, a space, the path (`?`
/// when it is not valid UTF-8).
pub open spec fn status_line(status: StatusFlags, path: Option<Seq<char>>) -> Seq<char> {
    seq![index_letter(status), worktree_letter(status), ' '] + or_default(path, "?"@)
}

/// A status entry: its flags and its path, when that is valid UTF-8.
#[derive(Debug)]
pub struct StatusEntry {
    pub status: StatusFlags,
    pub path: Option<String>,
}

/// The text of an optional string.
pub open spec fn opt_text(o: Option<String>) -> Option<Seq<char>> {
    match o {
        Some(s) => Some(s@),
        None => None,
    }
}

/// The status report: `Working tree clean` when nothing changed, else one
/// line per entry.
pub fn git_status_output(entries: &Vec<StatusEntry>) -> (out: String)
    ensures
        out@ == if entries@.len() == 0 {
            "Working tree clean"@
        } else {
            joined(entries@.map_values(|e: StatusEntry| status_line(e.status, opt_text(e.path))), "\n"@)
        },
{
    if entries.len() == 0 {
        return string_from_str("Working tree clean");
    }
    let ghost given = entries@.map_values(|e: StatusEntry| status_line(e.status, opt_text(e.path)));
    let n = entries.len();
    let mut lines: Vec<String> = Vec::new();
    let mut i: usize = 0;
    while i < n
        invariant
            n == entries@.len(),
            i <= n,
            given == entries@.map_values(|e: StatusEntry| status_line(e.status, opt_text(e.path))),
            string_views(lines@) == given.take(i as int),
        decreases n - i,
    {
        let e = &entries[i];
        let mut line = crate::agent::tools::format_status(e.status);
        push_char(&mut line, ' ');
        match &e.path {
            Some(p) => push_str(&mut line, p.as_str()),
            None => push_str(&mut line, "?"),
        }
        let ghost prev = lines@;
        lines.push(line);
        proof {
            reveal_strlit("?");
            assert(line@ =~= status_line(e.status, opt_text(e.path)));
            assert(given[i as int] == status_line(entries@[i as int].status, opt_text(entries@[i as int].path)));
            assert(string_views(lines@) =~= string_views(prev).push(line@));
            assert(given.take(i as int + 1) =~= given.take(i as int).push(given[i as int]));
            assert(string_views(lines@) =~= given.take(i as int + 1));
        }
        i = i + 1;
    }
    proof {
        assert(given.take(n as int) =~= given);
        assert(lines@.map_values(|e: String| e@) == string_views(lines@));
    }
    crate::text::join_with(lines.as_slice(), "\n")
}

/// The prefix a diff line is printed with: its origin for added, removed
/// and context lines, nothing for the rest.
pub open spec fn origin_prefix(origin: char) -> Seq<char> {
    if origin == '+' || origin == '-' || origin == ' ' {
        seq![origin]
    } else {
        Seq::empty()
    }
}

/// A printed diff line: its origin and its raw bytes.
#[derive(Debug)]
pub struct DiffLine {
    pub origin: char,
    pub content: Vec<u8>,
}

/// What a diff line adds to the printed patch: its prefix and text, or
/// nothing when its bytes are not UTF-8.
pub open spec fn printed_line(l: DiffLine) -> Seq<char> {
    if valid_utf8(l.content@) {
        origin_prefix(l.origin) + decode_utf8(l.content@)
    } else {
        Seq::empty()
    }
}

/// The printed lines one after another.
pub open spec fn printed_patch(lines: Seq<DiffLine>) -> Seq<char>
    decreases lines.len(),
{
    if lines.len() == 0 {
        Seq::empty()
    } else {
        printed_patch(lines.drop_last()) + printed_line(lines.last())
    }
}

/// The diff report: the printed patch, or `No changes` when it is empty.
pub fn git_diff_output(lines: &Vec<DiffLine>) -> (out: String)
    ensures
        out@ == if printed_patch(lines@).len() == 0 {
            "No changes"@
        } else {
            printed_patch(lines@)
        },
{
    let n = lines.len();
    let mut out = String::new();
    let mut i: usize = 0;
    while i < n
        invariant
            n == lines@.len(),
            i <= n,
            out@ == printed_patch(lines@.take(i as int)),
        decreases n - i,
    {
        let l = &lines[i];
        proof {
            assert(lines@.take(i as int + 1).drop_last() =~= lines@.take(i as int));
            assert(lines@.take(i as int + 1).last() == lines@[i as int]);
        }
        if is_utf8(l.content.as_slice()) {
            let text = string_from_utf8(crate::text::copy_bytes(l.content.as_slice()));
            match text {
                Some(t) => {
                    if l.origin == '+' || l.origin == '-' || l.origin == ' ' {
                        push_char(&mut out, l.origin);
                    }
                    push_str(&mut out, t.as_str());
                    proof {
                        assert(out@ =~= printed_patch(lines@.take(i as int)) + printed_line(lines@[i as int]));
                    }
                },
                None => {},
            }
        }
        i = i + 1;
    }
    proof {
        assert(lines@.take(n as int) =~= lines@);
    }
    let shown = chars_of(out.as_str());
    if shown.len() == 0 {
        string_from_str("No changes")
    } else {
        out
    }
}

/// The first line of a text, as `str::lines` gives it: up to the first
/// line feed, without a carriage return just before it; empty for an empty
/// text.
pub open spec fn first_line(s: Seq<char>) -> Seq<char> {
    let parts = split_on(s, '\n');
    if parts.len() > 1 {
        strip_cr(parts[0])
    } else {
        parts[0]
    }
}

/// A line without the carriage return that ends it, if any.
pub open spec fn strip_cr(l: Seq<char>) -> Seq<char> {
    if l.len() > 0 && l.last() == '\r' {
        l.drop_last()
    } else {
        l
    }
}

/// One log line: the commit's abbreviated id (seven characters), its
/// author, and the first line of its message.
pub open spec fn log_line(oid: Seq<char>, author: Seq<char>, message: Seq<char>) -> Seq<char> {
    oid.take(7) + " "@ + author + ": "@ + first_line(message)
}

/// One log line for a commit; the id is the forty-digit hexadecimal text
/// Git prints.
pub fn git_log_line(oid: &str, author: &str, message: &str) -> (line: String)
    requires
        oid@.len() >= 7,
    ensures
        line@ == log_line(oid@, author@, message@),
{
    let id = chars_of(oid);
    let short = crate::text::copy_range(id.as_slice(), 0, 7);
    let mut line = string_from_chars(short.as_slice());
    push_str(&mut line, " ");
    push_str(&mut line, author);
    push_str(&mut line, ": ");
    let msg = chars_of(message);
    let parts = split_chars(msg.as_slice(), '\n');
    proof {
        crate::text::lemma_split_on_nonempty(msg@, '\n');
        assert(parts@.map_values(|v: Vec<char>| v@)[0] == parts@[0]@);
    }
    let first = &parts[0];
    if parts.len() > 1 && first.len() > 0 && first[first.len() - 1] == '\r' {
        let cut = crate::text::copy_range(first.as_slice(), 0, first.len() - 1);
        let t = string_from_chars(cut.as_slice());
        push_str(&mut line, t.as_str());
        proof {
            assert(cut@ =~= first@.drop_last());
        }
    } else {
        let t = string_from_chars(first.as_slice());
        push_str(&mut line, t.as_str());
    }
    proof {
        assert(id@.take(7) =~= oid@.take(7));
    }
    line
}

/// Whether a directory entry is skipped by a code search: hidden entries,
/// `target` and `node_modules`.
pub open spec fn search_skips(name: Seq<char>) -> bool {
    (name.len() > 0 && name[0] == '.') || name == "target"@ || name == "node_modules"@
}

/// Whether a code search skips the entry of this name.
pub fn skip_search_entry(name: &str) -> (b: bool)
    ensures
        b == search_skips(name@),
{
    let cs = chars_of(name);
    (cs.len() > 0 && cs[0] == '.') || crate::text::same_text(name, "target") || crate::text::same_text(
        name,
        "node_modules",
    )
}

/// The lines of a text, as `str::lines` gives them: split at line feeds,
/// a carriage return before a line feed dropped, and no empty last line.
pub open spec fn text_lines(s: Seq<char>) -> Seq<Seq<char>> {
    let parts = split_on(s, '\n');
    let n = if parts.last().len() == 0 {
        parts.len() - 1
    } else {
        parts.len() as int
    };
    Seq::new(n as nat, |i: int| if i < parts.len() - 1 { strip_cr(parts[i]) } else { parts[i] })
}

/// The characters of each row.
pub open spec fn char_rows(v: Seq<Vec<char>>) -> Seq<Seq<char>> {
    v.map_values(|x: Vec<char>| x@)
}

/// The lines of a text, as `str::lines` gives them.
pub fn split_lines(text: &str) -> (out: Vec<Vec<char>>)
    ensures
        char_rows(out@) == text_lines(text@),
{
    let cs = chars_of(text);
    let parts = split_chars(cs.as_slice(), '\n');
    let ghost pv = parts@.map_values(|v: Vec<char>| v@);
    proof {
        crate::text::lemma_split_on_nonempty(text@, '\n');
    }
    let np = parts.len();
    proof {
        assert(parts@[np - 1]@ == pv.last());
    }
    let n = if parts[np - 1].len() == 0 {
        np - 1
    } else {
        np
    };
    let ghost lines = text_lines(text@);
    assert(n == lines.len());
    let mut out: Vec<Vec<char>> = Vec::new();
    let mut i: usize = 0;
    while i < n
        invariant
            n == lines.len(),
            n <= np,
            np == pv.len(),
            pv == parts@.map_values(|v: Vec<char>| v@),
            pv == split_on(text@, '\n'),
            lines == text_lines(text@),
            i <= n,
            char_rows(out@) == lines.take(i as int),
        decreases n - i,
    {
        proof {
            assert(parts@[i as int]@ == pv[i as int]);
        }
        let part = &parts[i];
        let line: Vec<char> = if i + 1 < np && part.len() > 0 && part[part.len() - 1] == '\r' {
            let cut = crate::text::copy_range(part.as_slice(), 0, part.len() - 1);
            proof {
                assert(cut@ =~= pv[i as int].drop_last());
            }
            cut
        } else {
            crate::text::copy_range(part.as_slice(), 0, part.len())
        };
        proof {
            assert(line@ =~= lines[i as int]);
        }
        let ghost prev = out@;
        let ghost lv = line@;
        out.push(line);
        proof {
            assert(char_rows(prev).len() == prev.len());
            assert(prev.len() == i);
            assert(out@.len() == i + 1);
            assert(out@[i as int]@ == lv);
            assert forall|j: int| 0 <= j < i + 1 implies #[trigger] char_rows(out@)[j] == lines.take(
                i as int + 1,
            )[j] by {
                if j < i {
                    assert(out@[j] == prev[j]);
                    assert(char_rows(prev)[j] == lines.take(i as int)[j]);
                }
            }
            assert(char_rows(out@) =~= lines.take(i as int + 1));
        }
        i = i + 1;
    }
    proof {
        assert(lines.take(n as int) =~= lines);
    }
    out
}

/// One search hit: the file's path, the line's number (from one), and the
/// line with surrounding whitespace trimmed.
pub open spec fn search_hit(rel_path: Seq<char>, lineno: nat, line: Seq<char>) -> Seq<char> {
    rel_path + ":"@ + decimal(lineno) + ": "@ + trim(line)
}

/// The hits of a file, in line order, before any limit.
pub open spec fn file_hits(rel_path: Seq<char>, lines: Seq<Seq<char>>, pattern: Seq<char>) -> Seq<Seq<char>>
    decreases lines.len(),
{
    if lines.len() == 0 {
        Seq::empty()
    } else {
        let rest = file_hits(rel_path, lines.drop_last(), pattern);
        if contains_text(lines.last(), pattern) {
            rest.push(search_hit(rel_path, lines.len() as nat, lines.last()))
        } else {
            rest
        }
    }
}

/// How many of a file's hits are kept when `found` results exist and at
/// most `max` are wanted: the search stops right after the result that
/// reaches the limit, so at least one hit is kept if there is one.
pub open spec fn hits_kept(hits: nat, found: nat, max: nat) -> nat {
    let room: int = if found >= max { 1 } else { max - found };
    if hits < room {
        hits
    } else {
        room as nat
    }
}

proof fn lemma_file_hits_prefix(rel_path: Seq<char>, lines: Seq<Seq<char>>, pattern: Seq<char>, k: int)
    requires
        0 <= k <= lines.len(),
    ensures
        file_hits(rel_path, lines.take(k), pattern).len() <= file_hits(rel_path, lines, pattern).len(),
        file_hits(rel_path, lines, pattern).take(file_hits(rel_path, lines.take(k), pattern).len() as int)
            == file_hits(rel_path, lines.take(k), pattern),
    decreases lines.len() - k,
{
    if k == lines.len() {
        assert(lines.take(k) =~= lines);
        assert(file_hits(rel_path, lines, pattern).take(file_hits(rel_path, lines, pattern).len() as int)
            =~= file_hits(rel_path, lines, pattern));
    } else {
        lemma_file_hits_prefix(rel_path, lines, pattern, k + 1);
        let a = file_hits(rel_path, lines.take(k), pattern);
        let b = file_hits(rel_path, lines.take(k + 1), pattern);
        let all = file_hits(rel_path, lines, pattern);
        assert(lines.take(k + 1).drop_last() =~= lines.take(k));
        assert(b == a || b == a.push(search_hit(rel_path, (k + 1) as nat, lines[k])));
        assert(all.take(a.len() as int) =~= b.take(a.len() as int));
        assert(b.take(a.len() as int) =~= a);
    }
}

/// Add the hits of one file to the search results, stopping right after
/// the result that brings them to `max_results`.
pub fn search_file(rel_path: &str, content: &str, pattern: &str, results: &mut Vec<String>, max_results: usize)
    ensures
        ({
            let hits = file_hits(rel_path@, text_lines(content@), pattern@);
            string_views(final(results)@) == string_views(old(results)@) + hits.take(
                hits_kept(hits.len(), old(results)@.len(), max_results as nat) as int,
            )
        }),
{
    let ghost lines = text_lines(content@);
    let ghost hits = file_hits(rel_path@, lines, pattern@);
    let ghost start = string_views(results@);
    let ghost start_len = results@.len();
    let cs = chars_of(content);
    let parts = split_chars(cs.as_slice(), '\n');
    let ghost pv = parts@.map_values(|v: Vec<char>| v@);
    proof {
        crate::text::lemma_split_on_nonempty(content@, '\n');
    }
    let np = parts.len();
    let last_empty = parts[np - 1].len() == 0;
    proof {
        assert(parts@[np - 1]@ == pv.last());
    }
    let n = if last_empty {
        np - 1
    } else {
        np
    };
    assert(n == lines.len());
    let pat = chars_of(pattern);
    let mut i: usize = 0;
    while i < n
        invariant
            n == lines.len(),
            n <= np,
            np == pv.len(),
            pv == parts@.map_values(|v: Vec<char>| v@),
            pv == split_on(content@, '\n'),
            lines == text_lines(content@),
            hits == file_hits(rel_path@, lines, pattern@),
            pat@ == pattern@,
            start_len == start.len(),
            start == string_views(old(results)@),
            start_len == old(results)@.len(),
            i <= n,
            string_views(results@) == start + file_hits(rel_path@, lines.take(i as int), pattern@),
            file_hits(rel_path@, lines.take(i as int), pattern@).len() == 0 || start_len
                + file_hits(rel_path@, lines.take(i as int), pattern@).len() < max_results,
        decreases n - i,
    {
        let ghost before = file_hits(rel_path@, lines.take(i as int), pattern@);
        proof {
            assert(lines.take(i as int + 1).drop_last() =~= lines.take(i as int));
            assert(lines.take(i as int + 1).last() == lines[i as int]);
            assert(parts@[i as int]@ == pv[i as int]);
        }
        let part = &parts[i];
        let line: Vec<char> = if i + 1 < np && part.len() > 0 && part[part.len() - 1] == '\r' {
            let cut = crate::text::copy_range(part.as_slice(), 0, part.len() - 1);
            proof {
                assert(cut@ =~= pv[i as int].drop_last());
            }
            cut
        } else {
            crate::text::copy_range(part.as_slice(), 0, part.len())
        };
        proof {
            assert(line@ =~= lines[i as int]);
        }
        if contains_exec(line.as_slice(), pat.as_slice()) {
            let mut hit = string_from_str(rel_path);
            push_str(&mut hit, ":");
            push_decimal(&mut hit, (i + 1) as u64);
            push_str(&mut hit, ": ");
            let t = trim_chars(line.as_slice());
            let ts = string_from_chars(t.as_slice());
            push_str(&mut hit, ts.as_str());
            let ghost prev = results@;
            results.push(hit);
            proof {
                let after = file_hits(rel_path@, lines.take(i as int + 1), pattern@);
                assert(after == before.push(search_hit(rel_path@, (i + 1) as nat, lines[i as int])));
                assert(string_views(results@) =~= string_views(prev).push(hit@));
                assert(hit@ =~= search_hit(rel_path@, (i + 1) as nat, lines[i as int]));
            }
            if results.len() >= max_results {
                proof {
                    let after = file_hits(rel_path@, lines.take(i as int + 1), pattern@);
                    lemma_file_hits_prefix(rel_path@, lines, pattern@, i as int + 1);
                    assert(after.len() == hits_kept(hits.len(), start_len, max_results as nat));
                }
                return;
            }
        }
        i = i + 1;
    }
    proof {
        assert(lines.take(n as int) =~= lines);
        assert(hits.take(hits.len() as int) =~= hits);
    }
}

/// Why a read-file call is refused before anything is read: no `path`
/// argument, or a sensitive path.
pub fn read_file_refusal(path: Option<&str>) -> (r: Result<(), AgentError>)
    ensures
        match path {
            None => r matches Err(AgentError::ToolExecution(m)) && m@ == "Missing 'path' argument"@,
            Some(p) => if mentions_sensitive(lowercase(p@)) {
                r matches Err(AgentError::ToolExecution(m)) && m@ == "Cannot read sensitive files"@
            } else {
                r is Ok
            },
        },
{
    match path {
        None => Err(AgentError::ToolExecution(string_from_str("Missing 'path' argument"))),
        Some(p) => if is_sensitive_path(p) {
            Err(AgentError::ToolExecution(string_from_str("Cannot read sensitive files")))
        } else {
            Ok(())
        },
    }
}

/// Why staging a path is refused: it is sensitive.
pub fn stage_refusal(path: &str) -> (r: Option<AgentError>)
    ensures
        r is Some <==> mentions_sensitive(lowercase(path@)),
        r matches Some(e) ==> (e matches AgentError::ToolExecution(m) && m@ == "Cannot stage sensitive file: "@
            + path@),
{
    if is_sensitive_path(path) {
        let mut m = string_from_str("Cannot stage sensitive file: ");
        push_str(&mut m, path);
        Some(AgentError::ToolExecution(m))
    } else {
        None
    }
}

/// The report of a stage call: `Staged <n> file(s)`.
pub fn staged_message(count: usize) -> (m: String)
    ensures
        m@ == "Staged "@ + decimal(count as nat) + " file(s)"@,
{
    let mut m = string_from_str("Staged ");
    push_decimal(&mut m, count as u64);
    push_str(&mut m, " file(s)");
    m
}

/// The report of a commit call: `Created commit` and the first seven
/// characters of the new commit's id.
pub fn commit_created_message(oid: &str) -> (m: String)
    requires
        oid@.len() >= 7,
    ensures
        m@ == "Created commit "@ + oid@.take(7),
{
    let id = chars_of(oid);
    let short = crate::text::copy_range(id.as_slice(), 0, 7);
    let mut m = string_from_str("Created commit ");
    let t = string_from_chars(short.as_slice());
    push_str(&mut m, t.as_str());
    proof {
        assert(short@ =~= oid@.take(7));
    }
    m
}

/// The report of a search: its hits one per line, or a note that the
/// pattern was not found.
pub fn search_output(pattern: &str, results: &Vec<String>) -> (out: String)
    ensures
        out@ == if results@.len() == 0 {
            "No matches found for '"@ + pattern@ + "'"@
        } else {
            joined(string_views(results@), "\n"@)
        },
{
    if results.len() == 0 {
        let mut m = string_from_str("No matches found for '");
        push_str(&mut m, pattern);
        push_str(&mut m, "'");
        m
    } else {
        proof {
            assert(results@.map_values(|e: String| e@) == string_views(results@));
        }
        crate::text::join_with(results.as_slice(), "\n")
    }
}


/// A tool call's text argument `key`, if it has one.
pub fn text_argument(arguments: &str, key: &str) -> (r: Option<String>)
    ensures
        match r {
            Some(s) => json_string_field(arguments@, key@) == Some(s@),
            None => json_string_field(arguments@, key@) is None,
        },
{
    string_field(arguments, key)
}

/// A required text argument: the value, or a tool failure with `missing`
/// as its message.
pub fn required_argument(arguments: &str, key: &str, missing: &str) -> (r: Result<String, AgentError>)
    ensures
        match json_string_field(arguments@, key@) {
            Some(v) => r matches Ok(s) && s@ == v,
            None => r matches Err(AgentError::ToolExecution(m)) && m@ == missing@,
        },
{
    match string_field(arguments, key) {
        Some(s) => Ok(s),
        None => Err(AgentError::ToolExecution(string_from_str(missing))),
    }
}

/// The directory a listing or a search starts from: the `path` argument,
/// else the repository itself (`.`).
pub fn path_or_current(arguments: &str) -> (p: String)
    ensures
        p@ == match json_string_field(arguments@, "path"@) {
            Some(v) => v,
            None => "."@,
        },
{
    match string_field(arguments, "path") {
        Some(s) => s,
        None => string_from_str("."),
    }
}

/// Whether a diff call asks for the staged changes (`staged` is `true`).
pub fn staged_argument(arguments: &str) -> (b: bool)
    ensures
        b == (json_bool_field(arguments@, "staged"@) == Some(true)),
{
    match bool_field(arguments, "staged") {
        Some(b) => b,
        None => false,
    }
}

} // verus!
