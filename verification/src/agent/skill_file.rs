//! Reading a skill from a markdown file: an optional front-matter header of
//! `key: value` lines between two `---` fences, then the prompt.
use vstd::prelude::*;

use crate::agent::skills::{Skill, SkillView, texts};
use crate::text::{
    CharClass, chars_of, copy_range, find_exec, find_first, occurs_at, split_chars, split_on,
    starts_with, starts_with_exec, strip_both, strip_chars, strip_end, strip_start,
    string_from_chars, trim, trim_chars, trim_matching,
};

verus! {

/// The fence that opens and closes a skill file's header.
pub open spec fn fence() -> Seq<char> {
    seq!['-', '-', '-']
}

/// The header and the body of a skill file: when the text starts with a
/// fence and a second fence follows, the header is what lies between them
/// and the body what follows the second, both trimmed; otherwise there is no
/// header and the body is the whole text.
pub open spec fn split_front_matter(content: Seq<char>) -> (Option<Seq<char>>, Seq<char>) {
    if starts_with(content, fence()) {
        let rest = content.subrange(3, content.len() as int);
        match find_first(rest, fence()) {
            Some(end) => (
                Some(trim(rest.subrange(0, end))),
                trim(rest.subrange(end + 3, rest.len() as int)),
            ),
            None => (None, content),
        }
    } else {
        (None, content)
    }
}

/// A header field's value: trimmed, then stripped of surrounding quotes.
pub open spec fn field_value(v: Seq<char>) -> Seq<char> {
    strip_both(trim(v), CharClass::Exactly('"'))
}

/// The non-empty entries of a list.
pub open spec fn non_empty(ps: Seq<Seq<char>>) -> Seq<Seq<char>>
    decreases ps.len(),
{
    if ps.len() == 0 {
        seq![]
    } else if ps.last().len() == 0 {
        non_empty(ps.drop_last())
    } else {
        non_empty(ps.drop_last()).push(ps.last())
    }
}

/// A `tools:` value: the brackets dropped, split at commas, each entry
/// trimmed and unquoted, empty entries left out.
pub open spec fn tool_list(v: Seq<char>) -> Seq<Seq<char>> {
    let inner = strip_end(strip_start(trim(v), CharClass::Exactly('[')), CharClass::Exactly(']'));
    non_empty(split_on(inner, ',').map_values(|p: Seq<char>| field_value(p)))
}

/// The header fields gathered so far.
pub struct HeaderFields {
    pub name: Seq<char>,
    pub description: Seq<char>,
    pub trigger: Option<Seq<char>>,
    pub tools: Seq<Seq<char>>,
}

pub open spec fn key_name() -> Seq<char> {
    seq!['n', 'a', 'm', 'e', ':']
}

pub open spec fn key_description() -> Seq<char> {
    seq!['d', 'e', 's', 'c', 'r', 'i', 'p', 't', 'i', 'o', 'n', ':']
}

pub open spec fn key_trigger() -> Seq<char> {
    seq!['t', 'r', 'i', 'g', 'g', 'e', 'r', ':']
}

pub open spec fn key_tools() -> Seq<char> {
    seq!['t', 'o', 'o', 'l', 's', ':']
}

/// One header line applied to the fields: a trimmed line that starts with a
/// known key sets that field from the rest of the line; any other line is
/// ignored.
pub open spec fn apply_line(f: HeaderFields, raw: Seq<char>) -> HeaderFields {
    let line = trim(raw);
    if starts_with(line, key_name()) {
        HeaderFields { name: field_value(line.subrange(5, line.len() as int)), ..f }
    } else if starts_with(line, key_description()) {
        HeaderFields { description: field_value(line.subrange(12, line.len() as int)), ..f }
    } else if starts_with(line, key_trigger()) {
        HeaderFields { trigger: Some(field_value(line.subrange(8, line.len() as int))), ..f }
    } else if starts_with(line, key_tools()) {
        HeaderFields { tools: tool_list(line.subrange(6, line.len() as int)), ..f }
    } else {
        f
    }
}

/// The header lines applied in order.
pub open spec fn apply_lines(f: HeaderFields, lines: Seq<Seq<char>>) -> HeaderFields
    decreases lines.len(),
{
    if lines.len() == 0 {
        f
    } else {
        apply_line(apply_lines(f, lines.drop_last()), lines.last())
    }
}

/// The skill a file describes. Its name defaults to the file's stem (or
/// "unknown"), its description to empty, its trigger to none and its tools
/// to none; header lines override them; the body is the prompt. Header lines
/// are split at newlines; a carriage return before a newline, and the empty
/// piece after a final newline, change nothing because every line is trimmed
/// and an empty line sets no field.
pub open spec fn parsed_skill(stem: Seq<char>, content: Seq<char>) -> SkillView {
    let (header, body) = split_front_matter(content);
    let init = HeaderFields { name: stem, description: seq![], trigger: None, tools: seq![] };
    let f = match header {
        Some(h) => apply_lines(init, split_on(h, '\n')),
        None => init,
    };
    SkillView {
        name: f.name,
        description: f.description,
        trigger: f.trigger,
        allowed_tools: f.tools,
        prompt_template: body,
    }
}

/// The name a file's skill falls back to when the file has no usable stem.
pub open spec fn unknown_name() -> Seq<char> {
    seq!['u', 'n', 'k', 'n', 'o', 'w', 'n']
}

/// Exec copy of the characters of a literal.
fn lit(s: &str) -> (v: Vec<char>)
    ensures
        v@ == s@,
{
    chars_of(s)
}

/// Header field value of a line's remainder.
fn field_value_exec(v: &[char]) -> (r: Vec<char>)
    ensures
        r@ == field_value(v@),
{
    let t = trim_chars(v);
    trim_matching(t.as_slice(), '"')
}

/// The entries of a `tools:` value.
fn tool_list_exec(v: &[char]) -> (r: Vec<String>)
    ensures
        texts(r@) == tool_list(v@),
{
    let t = trim_chars(v);
    let a = strip_chars(t.as_slice(), CharClass::Exactly('['), true, false);
    let inner = strip_chars(a.as_slice(), CharClass::Exactly(']'), false, true);
    let pieces = split_chars(inner.as_slice(), ',');
    let ghost pv = pieces@.map_values(|v: Vec<char>| v@);
    let ghost mapped = pv.map_values(|p: Seq<char>| field_value(p));
    let mut out: Vec<String> = Vec::new();
    let n = pieces.len();
    let mut i: usize = 0;
    while i < n
        invariant
            n == pieces@.len(),
            i <= n,
            pv == pieces@.map_values(|v: Vec<char>| v@),
            mapped == pv.map_values(|p: Seq<char>| field_value(p)),
            texts(out@) == non_empty(mapped.take(i as int)),
        decreases n - i,
    {
        let f = field_value_exec(pieces[i].as_slice());
        proof {
            assert(mapped.take(i + 1).drop_last() =~= mapped.take(i as int));
            assert(mapped.take(i + 1).last() == f@);
        }
        if f.len() > 0 {
            let ghost before = texts(out@);
            out.push(string_from_chars(f.as_slice()));
            proof {
                assert(texts(out@) =~= before.push(f@));
            }
        }
        i = i + 1;
    }
    proof {
        assert(mapped.take(n as int) =~= mapped);
    }
    out
}

/// The header and body of a skill file.
#[verifier::rlimit(40)]
fn split_front_matter_exec(content: &[char]) -> (r: (Option<Vec<char>>, Vec<char>))
    ensures
        ({
            let (h, b) = split_front_matter(content@);
            &&& b == r.1@
            &&& match (h, r.0) {
                (Some(x), Some(y)) => x == y@,
                (None, None) => true,
                _ => false,
            }
        }),
{
    let dashes = lit("---");
    proof {
        reveal_strlit("---");
        assert(dashes@ =~= fence());
    }
    if starts_with_exec(content, dashes.as_slice()) {
        let n = content.len();
        let rest = copy_range(content, 3, n);
        match find_exec(rest.as_slice(), dashes.as_slice()) {
            Some(end) => {
                proof {
                    lemma_find_first_occurs(rest@, fence(), end as int);
                }
                let head = copy_range(rest.as_slice(), 0, end);
                let tail = copy_range(rest.as_slice(), end + 3, rest.len());
                (Some(trim_chars(head.as_slice())), trim_chars(tail.as_slice()))
            },
            None => (None, copy_range(content, 0, n)),
        }
    } else {
        proof {
            assert(content@.subrange(0, content@.len() as int) =~= content@);
        }
        (None, copy_range(content, 0, content.len()))
    }
}

proof fn lemma_find_first_occurs(s: Seq<char>, p: Seq<char>, i: int)
    requires
        find_first(s, p) == Some(i),
    ensures
        occurs_at(s, p, i),
{
    if exists|k: int| occurs_at(s, p, k) {
        let c = choose|k: int| occurs_at(s, p, k) && forall|j: int| 0 <= j < k ==> !occurs_at(s, p, j);
        let w = choose|k: int| occurs_at(s, p, k);
        crate::text::lemma_first_occurrence_exists(s, p, w);
    }
}

/// Header fields while a header is read.
struct FieldsExec {
    name: Vec<char>,
    description: Vec<char>,
    trigger: Option<Vec<char>>,
    tools: Vec<String>,
}

impl FieldsExec {
    spec fn fields(&self) -> HeaderFields {
        HeaderFields {
            name: self.name@,
            description: self.description@,
            trigger: match &self.trigger {
                Some(t) => Some(t@),
                None => None,
            },
            tools: texts(self.tools@),
        }
    }
}

/// One header line applied to the fields.
fn apply_line_exec(f: FieldsExec, raw: &[char]) -> (r: FieldsExec)
    ensures
        r.fields() == apply_line(f.fields(), raw@),
{
    let k_name = lit("name:");
    let k_description = lit("description:");
    let k_trigger = lit("trigger:");
    let k_tools = lit("tools:");
    proof {
        reveal_strlit("name:");
        reveal_strlit("description:");
        reveal_strlit("trigger:");
        reveal_strlit("tools:");
        assert(k_name@ =~= key_name());
        assert(k_description@ =~= key_description());
        assert(k_trigger@ =~= key_trigger());
        assert(k_tools@ =~= key_tools());
    }
    let line = trim_chars(raw);
    let len = line.len();
    if starts_with_exec(line.as_slice(), k_name.as_slice()) {
        let v = copy_range(line.as_slice(), 5, len);
        FieldsExec { name: field_value_exec(v.as_slice()), ..f }
    } else if starts_with_exec(line.as_slice(), k_description.as_slice()) {
        let v = copy_range(line.as_slice(), 12, len);
        FieldsExec { description: field_value_exec(v.as_slice()), ..f }
    } else if starts_with_exec(line.as_slice(), k_trigger.as_slice()) {
        let v = copy_range(line.as_slice(), 8, len);
        FieldsExec { trigger: Some(field_value_exec(v.as_slice())), ..f }
    } else if starts_with_exec(line.as_slice(), k_tools.as_slice()) {
        let v = copy_range(line.as_slice(), 6, len);
        FieldsExec { tools: tool_list_exec(v.as_slice()), ..f }
    } else {
        f
    }
}

/// The fields after the header's lines.
fn apply_header(f: FieldsExec, header: &[char]) -> (r: FieldsExec)
    ensures
        r.fields() == apply_lines(f.fields(), split_on(header@, '\n')),
{
    let lines = split_chars(header, '\n');
    let ghost lv = lines@.map_values(|v: Vec<char>| v@);
    let ghost init = f.fields();
    let n = lines.len();
    let mut cur = f;
    let mut i: usize = 0;
    while i < n
        invariant
            n == lines@.len(),
            i <= n,
            lv == lines@.map_values(|v: Vec<char>| v@),
            cur.fields() == apply_lines(init, lv.take(i as int)),
        decreases n - i,
    {
        proof {
            assert(lv.take(i + 1).drop_last() =~= lv.take(i as int));
            assert(lv.take(i + 1).last() == lines@[i as int]@);
        }
        cur = apply_line_exec(cur, lines[i].as_slice());
        i = i + 1;
    }
    proof {
        assert(lv.take(n as int) =~= lv);
    }
    cur
}

/// The skill a markdown file describes, from the file's stem (if it has a
/// usable one) and its text.
#[verifier::rlimit(100)]
pub fn parse_skill_file(file_stem: Option<&str>, content: &str) -> (skill: Skill)
    ensures
        skill@ == parsed_skill(
            match file_stem {
                Some(s) => s@,
                None => unknown_name(),
            },
            content@,
        ),
{
    let text = chars_of(content);
    let (header, body) = split_front_matter_exec(text.as_slice());
    let name: Vec<char> = match file_stem {
        Some(s) => chars_of(s),
        None => {
            let u = lit("unknown");
            proof {
                reveal_strlit("unknown");
                assert(u@ =~= unknown_name());
            }
            u
        },
    };
    let start = FieldsExec { name, description: Vec::new(), trigger: None, tools: Vec::new() };
    proof {
        assert(texts(start.tools@) =~= seq![]);
    }
    let f = match header {
        Some(h) => apply_header(start, h.as_slice()),
        None => start,
    };
    let trigger_text = match f.trigger {
        Some(t) => Some(string_from_chars(t.as_slice())),
        None => None,
    };
    Skill {
        name: string_from_chars(f.name.as_slice()),
        description: string_from_chars(f.description.as_slice()),
        trigger: trigger_text,
        allowed_tools: f.tools,
        prompt_template: string_from_chars(body.as_slice()),
    }
}

} // verus!

verus! {

/// Whether a header line sets the name: trimmed, it starts with `name:`.
pub open spec fn is_name_line(raw: Seq<char>) -> bool {
    starts_with(trim(raw), key_name())
}

proof fn lemma_name_after_lines(f: HeaderFields, lines: Seq<Seq<char>>)
    ensures
        (forall|i: int| 0 <= i < lines.len() ==> !is_name_line(#[trigger] lines[i])) ==> apply_lines(f, lines).name
            == f.name,
        forall|i: int|
            0 <= i < lines.len() && is_name_line(#[trigger] lines[i]) && (forall|j: int|
                i < j < lines.len() ==> !is_name_line(#[trigger] lines[j])) ==> apply_lines(f, lines).name
                == field_value(trim(lines[i]).subrange(5, trim(lines[i]).len() as int)),
    decreases lines.len(),
{
    if lines.len() > 0 {
        let p = lines.drop_last();
        lemma_name_after_lines(f, p);
        let last = lines.len() - 1;
        assert forall|i: int|
            0 <= i < lines.len() && is_name_line(#[trigger] lines[i]) && (forall|j: int|
                i < j < lines.len() ==> !is_name_line(#[trigger] lines[j])) implies apply_lines(f, lines).name
            == field_value(trim(lines[i]).subrange(5, trim(lines[i]).len() as int)) by {
            if i < last {
                assert(!is_name_line(lines[last]));
                assert(p[i] == lines[i]);
                assert forall|j: int| i < j < p.len() implies !is_name_line(#[trigger] p[j]) by {
                    assert(p[j] == lines[j]);
                }
            }
        }
        if forall|i: int| 0 <= i < lines.len() ==> !is_name_line(#[trigger] lines[i]) {
            assert(!is_name_line(lines[last]));
            assert forall|i: int| 0 <= i < p.len() implies !is_name_line(#[trigger] p[i]) by {
                assert(p[i] == lines[i]);
            }
        }
    }
}

/// A skill's name comes from its front matter when the header has a
/// `name:` line: the last such line's value, trimmed and unquoted, whatever
/// the file's stem. The stem is the name only when there is no header or
/// the header has no name line.
pub proof fn law_front_matter_name_overrides_stem(stem: Seq<char>, content: Seq<char>)
    ensures
        match split_front_matter(content).0 {
            None => parsed_skill(stem, content).name == stem,
            Some(h) => {
                let lines = split_on(h, '\n');
                &&& (forall|i: int| 0 <= i < lines.len() ==> !is_name_line(#[trigger] lines[i]))
                    ==> parsed_skill(stem, content).name == stem
                &&& forall|i: int|
                    0 <= i < lines.len() && is_name_line(#[trigger] lines[i]) && (forall|j: int|
                        i < j < lines.len() ==> !is_name_line(#[trigger] lines[j])) ==> parsed_skill(stem, content).name
                        == field_value(trim(lines[i]).subrange(5, trim(lines[i]).len() as int))
            },
        },
{
    match split_front_matter(content).0 {
        None => {},
        Some(h) => {
            let init = HeaderFields { name: stem, description: seq![], trigger: None, tools: seq![] };
            lemma_name_after_lines(init, split_on(h, '\n'));
        },
    }
}

} // verus!
