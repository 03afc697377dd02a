//! Talking to the model provider: how a failed HTTP response is reported,
//! how a server-sent event stream is cut into events, and which stream
//! chunks each event yields.
use vstd::prelude::*;

use crate::agent::error::AgentError;
use crate::agent::git_tools::{char_rows, split_lines, text_lines};
use crate::agent::types::{StreamChunk, Usage};
use crate::text::{
    clone_string, copy_range, decimal, push_decimal, push_str, same_text, starts_with, starts_with_exec,
    string_from_chars, string_from_str, trim, trim_chars,
};

verus! {

/// The name this provider goes by.
pub fn provider_name() -> (s: &'static str)
    ensures
        s@ == "anthropic"@,
{
    "anthropic"
}

/// The reason phrase the HTTP standard gives a status code, if it gives one.
pub uninterp spec fn canonical_reason(code: u16) -> Option<Seq<char>>;

/// `reqwest::StatusCode::from_u16(code)` then `canonical_reason`: the
/// result is named `canonical_reason`, a function of the code alone.
#[verifier::external_body]
fn status_reason(code: u16) -> (r: Option<String>)
    ensures
        match r {
            Some(s) => canonical_reason(code) == Some(s@),
            None => canonical_reason(code) is None,
        },
{
    reqwest::StatusCode::from_u16(code).ok()?.canonical_reason().map(str::to_string)
}

/// How a status is printed: its code, a space and its reason phrase.
pub open spec fn status_text(code: u16) -> Seq<char> {
    decimal(code as nat) + " "@ + match canonical_reason(code) {
        Some(r) => r,
        None => "<unknown status code>"@,
    }
}

/// What an HTTP response with this status and body means: nothing for a
/// success (2xx); a rate limit (retry after a minute) for 429; a bad key for
/// 401; otherwise the status and body as a provider error.
pub fn response_failure(code: u16, body: &str) -> (r: Option<AgentError>)
    ensures
        200 <= code < 300 ==> r is None,
        code == 429 ==> (r matches Some(AgentError::RateLimited { retry_after_secs }) && retry_after_secs == 60),
        code == 401 ==> (r matches Some(AgentError::Provider(m)) && m@ == "Invalid API key"@),
        !(200 <= code < 300) && code != 429 && code != 401 ==> (r matches Some(AgentError::Provider(m)) && m@
            == "HTTP "@ + status_text(code) + ": "@ + body@),
{
    if 200 <= code && code < 300 {
        return None;
    }
    if code == 429 {
        return Some(AgentError::RateLimited { retry_after_secs: 60 });
    }
    if code == 401 {
        return Some(AgentError::Provider(string_from_str("Invalid API key")));
    }
    let mut m = string_from_str("HTTP ");
    push_decimal(&mut m, code as u64);
    push_str(&mut m, " ");
    match status_reason(code) {
        Some(r) => push_str(&mut m, r.as_str()),
        None => push_str(&mut m, "<unknown status code>"),
    }
    push_str(&mut m, ": ");
    push_str(&mut m, body);
    Some(AgentError::Provider(m))
}

/// One item of an event stream: the end marker, or the data of an event.
#[derive(Debug)]
pub enum SseItem {
    Done,
    Data(String),
}

/// The items of an event stream, from its lines: each line is trimmed;
/// empty lines and comments (`:`) are skipped, as are lines that are not
/// `data: ` lines; `data: [DONE]` ends the stream. `None` stands for the end.
pub open spec fn sse_items(lines: Seq<Seq<char>>) -> Seq<Option<Seq<char>>>
    decreases lines.len(),
{
    if lines.len() == 0 {
        Seq::empty()
    } else {
        let t = trim(lines[0]);
        let rest = sse_items(lines.drop_first());
        if t.len() == 0 || t[0] == ':' {
            rest
        } else if starts_with(t, "data: "@) {
            let d = t.skip(6);
            if d == "[DONE]"@ {
                seq![None]
            } else {
                seq![Some(d)] + rest
            }
        } else {
            rest
        }
    }
}

/// An item as text.
pub open spec fn item_view(i: SseItem) -> Option<Seq<char>> {
    match i {
        SseItem::Done => None,
        SseItem::Data(d) => Some(d@),
    }
}

/// The items of an event stream's text, in order, ending at the end marker.
pub fn sse_lines(text: &str) -> (items: Vec<SseItem>)
    ensures
        items@.map_values(|i: SseItem| item_view(i)) == sse_items(text_lines(text@)),
{
    let lines = split_lines(text);
    let ghost lv = char_rows(lines@);
    let n = lines.len();
    let mut items: Vec<SseItem> = Vec::new();
    let mut i: usize = 0;
    let prefix = string_from_str("data: ");
    let prefix_chars = crate::text::chars_of(prefix.as_str());
    proof {
        reveal_strlit("data: ");
        reveal_strlit("[DONE]");
        assert(lv == text_lines(text@));
        assert(lv.subrange(0, n as int) =~= lv);
        assert(items@.map_values(|x: SseItem| item_view(x)) + sse_items(lv) =~= sse_items(lv));
    }
    while i < n
        invariant
            n == lines@.len(),
            lv == char_rows(lines@),
            lv == text_lines(text@),
            prefix_chars@ == "data: "@,
            i <= n,
            items@.map_values(|x: SseItem| item_view(x)) + sse_items(lv.subrange(i as int, n as int)) == sse_items(lv),
        decreases n - i,
    {
        let ghost cur = lv.subrange(i as int, n as int);
        proof {
            reveal_strlit("data: ");
            reveal_strlit("[DONE]");
            assert(cur[0] == lv[i as int]);
            assert(lines@[i as int]@ == lv[i as int]);
            assert(cur.drop_first() =~= lv.subrange(i as int + 1, n as int));
        }
        let t = trim_chars(lines[i].as_slice());
        let ghost prev = items@.map_values(|x: SseItem| item_view(x));
        if t.len() == 0 || t[0] == ':' {
        } else if starts_with_exec(t.as_slice(), prefix_chars.as_slice()) {
            let d = copy_range(t.as_slice(), 6, t.len());
            proof {
                assert(d@ =~= t@.skip(6));
            }
            let ds = string_from_chars(d.as_slice());
            if same_text(ds.as_str(), "[DONE]") {
                items.push(SseItem::Done);
                proof {
                    assert(items@.map_values(|x: SseItem| item_view(x)) =~= prev.push(None));
                    assert(sse_items(cur) == seq![None::<Seq<char>>]);
                    assert(prev + sse_items(cur) == sse_items(lv));
                    assert(prev.push(None) =~= prev + seq![None::<Seq<char>>]);
                }
                return items;
            }
            let ghost dv = ds@;
            items.push(SseItem::Data(ds));
            proof {
                assert(items@.map_values(|x: SseItem| item_view(x)) =~= prev.push(Some(dv)));
                assert(sse_items(cur) == seq![Some(dv)] + sse_items(lv.subrange(i as int + 1, n as int)));
                assert(prev.push(Some(dv)) + sse_items(lv.subrange(i as int + 1, n as int)) =~= prev + (seq![Some(dv)]
                    + sse_items(lv.subrange(i as int + 1, n as int))));
            }
        }
        i = i + 1;
    }
    proof {
        assert(lv.subrange(n as int, n as int) =~= Seq::<Seq<char>>::empty());
        assert(items@.map_values(|x: SseItem| item_view(x)) + Seq::<Option<Seq<char>>>::empty() =~= items@.map_values(
            |x: SseItem| item_view(x),
        ));
    }
    items
}

/// A content delta of an event.
#[derive(Debug)]
pub struct SseDelta {
    pub delta_type: String,
    pub text: Option<String>,
    pub partial_json: Option<String>,
}

/// A content block opened by an event.
#[derive(Debug)]
pub struct ContentBlock {
    pub block_type: String,
    pub id: Option<String>,
    pub name: Option<String>,
    pub text: Option<String>,
}

/// Token counts carried by an event.
#[derive(Debug)]
pub struct SseUsage {
    pub input_tokens: u32,
    pub output_tokens: u32,
}

/// The error carried by an event.
#[derive(Debug)]
pub struct SseError {
    pub message: String,
}

/// One decoded event of the stream.
#[derive(Debug)]
pub struct SseEvent {
    pub event_type: String,
    pub delta: Option<SseDelta>,
    pub content_block: Option<ContentBlock>,
    pub usage: Option<SseUsage>,
    pub error: Option<SseError>,
    pub index: Option<u32>,
}

/// A stream chunk as text and numbers.
pub enum ChunkView {
    TextDelta(Seq<char>),
    ToolCallStart { id: Seq<char>, name: Seq<char> },
    ToolCallDelta(Seq<char>),
    ToolCallEnd,
    Usage(Usage),
    Done,
    Error(Seq<char>),
}

impl View for StreamChunk {
    type V = ChunkView;

    open spec fn view(&self) -> ChunkView {
        match self {
            StreamChunk::TextDelta(t) => ChunkView::TextDelta(t@),
            StreamChunk::ToolCallStart { id, name } => ChunkView::ToolCallStart { id: id@, name: name@ },
            StreamChunk::ToolCallDelta(j) => ChunkView::ToolCallDelta(j@),
            StreamChunk::ToolCallEnd => ChunkView::ToolCallEnd,
            StreamChunk::Usage(u) => ChunkView::Usage(*u),
            StreamChunk::Done => ChunkView::Done,
            StreamChunk::Error(e) => ChunkView::Error(e@),
        }
    }
}

/// The text of an optional string, empty when there is none.
pub open spec fn or_empty(o: Option<String>) -> Seq<char> {
    match o {
        Some(s) => s@,
        None => Seq::empty(),
    }
}

/// The chunks a content block opening yields: a tool call start for a
/// tool-use block, its text for a text block with non-empty text.
pub open spec fn block_chunks(b: ContentBlock) -> Seq<ChunkView> {
    (if b.block_type@ == "tool_use"@ {
        seq![ChunkView::ToolCallStart { id: or_empty(b.id), name: or_empty(b.name) }]
    } else {
        Seq::empty()
    }) + (if b.block_type@ == "text"@ && (b.text matches Some(t) && t@.len() > 0) {
        seq![ChunkView::TextDelta(b.text->0@)]
    } else {
        Seq::empty()
    })
}

/// The chunks a content delta yields: its text, then its partial JSON.
pub open spec fn delta_chunks(d: SseDelta) -> Seq<ChunkView> {
    (match d.text {
        Some(t) => seq![ChunkView::TextDelta(t@)],
        None => Seq::empty(),
    }) + (match d.partial_json {
        Some(j) => seq![ChunkView::ToolCallDelta(j@)],
        None => Seq::empty(),
    })
}

/// The chunk a usage report yields.
pub open spec fn usage_chunks(u: Option<SseUsage>) -> Seq<ChunkView> {
    match u {
        Some(u) => seq![ChunkView::Usage(Usage { input_tokens: u.input_tokens, output_tokens: u.output_tokens })],
        None => Seq::empty(),
    }
}

/// The chunks an event yields, by its type.
pub open spec fn event_chunks_spec(e: SseEvent) -> Seq<ChunkView> {
    let ty = e.event_type@;
    if ty == "content_block_start"@ {
        match e.content_block {
            Some(b) => block_chunks(b),
            None => Seq::empty(),
        }
    } else if ty == "content_block_delta"@ {
        match e.delta {
            Some(d) => delta_chunks(d),
            None => Seq::empty(),
        }
    } else if ty == "content_block_stop"@ {
        seq![ChunkView::ToolCallEnd]
    } else if ty == "message_delta"@ || ty == "message_start"@ {
        usage_chunks(e.usage)
    } else if ty == "message_stop"@ {
        seq![ChunkView::Done]
    } else if ty == "error"@ {
        match e.error {
            Some(err) => seq![ChunkView::Error(err.message@)],
            None => Seq::empty(),
        }
    } else {
        Seq::empty()
    }
}

fn copy_or_empty(o: &Option<String>) -> (s: String)
    ensures
        s@ == or_empty(*o),
{
    match o {
        Some(s) => clone_string(s),
        None => String::new(),
    }
}

/// The stream chunks one event yields, in order.
pub fn event_chunks(e: &SseEvent) -> (chunks: Vec<StreamChunk>)
    ensures
        chunks@.map_values(|c: StreamChunk| c@) == event_chunks_spec(*e),
{
    let mut out: Vec<StreamChunk> = Vec::new();
    let ty = e.event_type.as_str();
    if same_text(ty, "content_block_start") {
        if let Some(b) = &e.content_block {
            if same_text(b.block_type.as_str(), "tool_use") {
                out.push(StreamChunk::ToolCallStart { id: copy_or_empty(&b.id), name: copy_or_empty(&b.name) });
            }
            if same_text(b.block_type.as_str(), "text") {
                if let Some(t) = &b.text {
                    if crate::text::chars_of(t.as_str()).len() > 0 {
                        out.push(StreamChunk::TextDelta(clone_string(t)));
                    }
                }
            }
        }
    } else if same_text(ty, "content_block_delta") {
        if let Some(d) = &e.delta {
            if let Some(t) = &d.text {
                out.push(StreamChunk::TextDelta(clone_string(t)));
            }
            if let Some(j) = &d.partial_json {
                out.push(StreamChunk::ToolCallDelta(clone_string(j)));
            }
        }
    } else if same_text(ty, "content_block_stop") {
        out.push(StreamChunk::ToolCallEnd);
    } else if same_text(ty, "message_delta") || same_text(ty, "message_start") {
        if let Some(u) = &e.usage {
            out.push(StreamChunk::Usage(Usage { input_tokens: u.input_tokens, output_tokens: u.output_tokens }));
        }
    } else if same_text(ty, "message_stop") {
        out.push(StreamChunk::Done);
    } else if same_text(ty, "error") {
        if let Some(err) = &e.error {
            out.push(StreamChunk::Error(clone_string(&err.message)));
        }
    }
    proof {
        assert(out@.map_values(|c: StreamChunk| c@) =~= event_chunks_spec(*e));
    }
    out
}

} // verus!

verus! {

/// A content delta's chunks carry exactly what the delta holds: its text
/// only as text deltas, its partial JSON (when present) as exactly one
/// tool-call delta carrying it, and nothing else.
pub proof fn law_delta_text_and_arguments_stay_apart(e: SseEvent)
    requires
        e.event_type@ == "content_block_delta"@,
        e.delta is Some,
    ensures
        ({
            let d = e.delta->0;
            let cs = event_chunks_spec(e);
            &&& forall|i: int|
                0 <= i < cs.len() ==> (#[trigger] cs[i] is TextDelta || cs[i] is ToolCallDelta)
            &&& forall|i: int|
                0 <= i < cs.len() && #[trigger] cs[i] is TextDelta ==> (d.text matches Some(t) && cs[i]
                    == ChunkView::TextDelta(t@))
            &&& forall|i: int|
                0 <= i < cs.len() && #[trigger] cs[i] is ToolCallDelta ==> (d.partial_json matches Some(j) && cs[i]
                    == ChunkView::ToolCallDelta(j@))
            &&& forall|i: int, k: int|
                0 <= i < k < cs.len() && #[trigger] cs[i] is ToolCallDelta ==> !(#[trigger] cs[k] is ToolCallDelta)
            &&& (d.partial_json matches Some(j) ==> exists|i: int|
                0 <= i < cs.len() && #[trigger] cs[i] == ChunkView::ToolCallDelta(j@))
            &&& (d.text matches Some(t) ==> exists|i: int| 0 <= i < cs.len() && #[trigger] cs[i] == ChunkView::TextDelta(t@))
        }),
{
    reveal_strlit("content_block_delta");
    reveal_strlit("content_block_start");
    assert(e.event_type@ != "content_block_start"@) by {
        assert(e.event_type@[14] != "content_block_start"@[14]);
    }
    let d = e.delta->0;
    let cs = event_chunks_spec(e);
    assert(cs == delta_chunks(d));
    match d.text {
        Some(t) => {
            assert(cs[0] == ChunkView::TextDelta(t@));
        },
        None => {},
    }
    match d.partial_json {
        Some(j) => {
            assert(cs[cs.len() - 1] == ChunkView::ToolCallDelta(j@));
        },
        None => {},
    }
}


/// Opening a content block starts a tool call exactly when the block is a
/// tool use, carrying the block's id and name, and shows text only for a
/// text block with non-empty text; it yields at most one chunk.
pub proof fn law_block_start_chunks(e: SseEvent)
    requires
        e.event_type@ == "content_block_start"@,
        e.content_block is Some,
    ensures
        ({
            let b = e.content_block->0;
            let cs = event_chunks_spec(e);
            &&& cs.len() <= 1
            &&& (exists|i: int| 0 <= i < cs.len() && #[trigger] cs[i] is ToolCallStart) <==> b.block_type@
                == "tool_use"@
            &&& forall|i: int|
                0 <= i < cs.len() && #[trigger] cs[i] is ToolCallStart ==> cs[i] == ChunkView::ToolCallStart {
                    id: or_empty(b.id),
                    name: or_empty(b.name),
                }
            &&& forall|i: int|
                0 <= i < cs.len() && #[trigger] cs[i] is TextDelta ==> (b.block_type@ == "text"@ && (b.text matches Some(
                    t,
                ) && t@.len() > 0 && cs[i] == ChunkView::TextDelta(t@)))
        }),
{
    reveal_strlit("tool_use");
    reveal_strlit("text");
    let b = e.content_block->0;
    let cs = event_chunks_spec(e);
    assert(cs == block_chunks(b));
    if b.block_type@ == "tool_use"@ {
        assert(b.block_type@.len() != "text"@.len());
        assert(b.block_type@ != "text"@);
        assert(cs[0] is ToolCallStart);
    }
}

} // verus!
