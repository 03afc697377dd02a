//! Messages exchanged with a language model and the events of a turn.
use vstd::prelude::*;

use crate::text::{clone_string, string_from_str};

verus! {

/// Who wrote a message.
#[derive(Debug, Clone, Copy, PartialEq, Eq, Structural)]
pub enum Role {
    User,
    Assistant,
    System,
}

/// One block of a message. A tool call's input is kept as its JSON text.
#[derive(Debug, Clone)]
pub enum MessageContent {
    Text { text: String },
    ToolUse { id: String, name: String, input: String },
    ToolResult { tool_use_id: String, content: String, is_error: bool },
}

/// What a content block holds, as character sequences.
pub enum ContentView {
    Text { text: Seq<char> },
    ToolUse { id: Seq<char>, name: Seq<char>, input: Seq<char> },
    ToolResult { tool_use_id: Seq<char>, content: Seq<char>, is_error: bool },
}

impl View for MessageContent {
    type V = ContentView;

    open spec fn view(&self) -> ContentView {
        match self {
            MessageContent::Text { text } => ContentView::Text { text: text@ },
            MessageContent::ToolUse { id, name, input } => ContentView::ToolUse {
                id: id@,
                name: name@,
                input: input@,
            },
            MessageContent::ToolResult { tool_use_id, content, is_error } => ContentView::ToolResult {
                tool_use_id: tool_use_id@,
                content: content@,
                is_error: *is_error,
            },
        }
    }
}

impl MessageContent {
    /// An equal copy.
    pub fn duplicate(&self) -> (c: Self)
        ensures
            c@ == self@,
    {
        match self {
            MessageContent::Text { text } => MessageContent::Text { text: clone_string(text) },
            MessageContent::ToolUse { id, name, input } => MessageContent::ToolUse {
                id: clone_string(id),
                name: clone_string(name),
                input: clone_string(input),
            },
            MessageContent::ToolResult { tool_use_id, content, is_error } => MessageContent::ToolResult {
                tool_use_id: clone_string(tool_use_id),
                content: clone_string(content),
                is_error: *is_error,
            },
        }
    }
}

/// A message: its author and its content blocks.
#[derive(Debug, Clone)]
pub struct Message {
    pub role: Role,
    pub content: Vec<MessageContent>,
}

/// What a message holds.
pub struct MessageView {
    pub role: Role,
    pub content: Seq<ContentView>,
}

/// The views of a sequence of content blocks.
pub open spec fn content_views(cs: Seq<MessageContent>) -> Seq<ContentView> {
    cs.map_values(|c: MessageContent| c@)
}

/// The views of a sequence of messages.
pub open spec fn message_views(ms: Seq<Message>) -> Seq<MessageView> {
    ms.map_values(|m: Message| m@)
}

impl View for Message {
    type V = MessageView;

    open spec fn view(&self) -> MessageView {
        MessageView { role: self.role, content: content_views(self.content@) }
    }
}

/// The text of the first text block, if any.
pub open spec fn first_text(cs: Seq<ContentView>) -> Option<Seq<char>>
    decreases cs.len(),
{
    if cs.len() == 0 {
        None
    } else {
        match cs[0] {
            ContentView::Text { text } => Some(text),
            _ => first_text(cs.drop_first()),
        }
    }
}

impl Message {
    /// A user message holding one text block.
    pub fn user(text: &str) -> (m: Self)
        ensures
            m@.role == Role::User,
            m@.content == seq![ContentView::Text { text: text@ }],
    {
        let mut content: Vec<MessageContent> = Vec::new();
        content.push(MessageContent::Text { text: string_from_str(text) });
        let m = Message { role: Role::User, content };
        proof {
            assert(m@.content =~= seq![ContentView::Text { text: text@ }]);
        }
        m
    }

    /// An assistant message holding one text block.
    pub fn assistant(text: &str) -> (m: Self)
        ensures
            m@.role == Role::Assistant,
            m@.content == seq![ContentView::Text { text: text@ }],
    {
        let mut content: Vec<MessageContent> = Vec::new();
        content.push(MessageContent::Text { text: string_from_str(text) });
        let m = Message { role: Role::Assistant, content };
        proof {
            assert(m@.content =~= seq![ContentView::Text { text: text@ }]);
        }
        m
    }

    /// A user message reporting the result of a tool call.
    pub fn tool_result(tool_use_id: &str, content: &str, is_error: bool) -> (m: Self)
        ensures
            m@.role == Role::User,
            m@.content == seq![
                ContentView::ToolResult { tool_use_id: tool_use_id@, content: content@, is_error },
            ],
    {
        let mut blocks: Vec<MessageContent> = Vec::new();
        blocks.push(
            MessageContent::ToolResult {
                tool_use_id: string_from_str(tool_use_id),
                content: string_from_str(content),
                is_error,
            },
        );
        let m = Message { role: Role::User, content: blocks };
        proof {
            assert(m@.content =~= seq![
                ContentView::ToolResult { tool_use_id: tool_use_id@, content: content@, is_error },
            ]);
        }
        m
    }

    /// The text of the first text block.
    pub fn text_content(&self) -> (t: Option<&str>)
        ensures
            match (t, first_text(self@.content)) {
                (Some(s), Some(v)) => s@ == v,
                (None, None) => true,
                _ => false,
            },
    {
        let n = self.content.len();
        let mut i: usize = 0;
        proof {
            assert(self@.content.subrange(0, n as int) =~= self@.content);
        }
        while i < n
            invariant
                n == self.content@.len(),
                i <= n,
                first_text(self@.content) == first_text(self@.content.subrange(i as int, n as int)),
            decreases n - i,
        {
            proof {
                assert(self@.content.subrange(i as int, n as int).drop_first() =~= self@.content.subrange(
                    i + 1,
                    n as int,
                ));
                assert(self@.content.subrange(i as int, n as int)[0] == self.content@[i as int]@);
            }
            match &self.content[i] {
                MessageContent::Text { text } => {
                    return Some(text.as_str());
                },
                _ => {},
            }
            i = i + 1;
        }
        None
    }

    /// An equal copy.
    pub fn duplicate(&self) -> (m: Self)
        ensures
            m@ == self@,
    {
        let n = self.content.len();
        let mut content: Vec<MessageContent> = Vec::new();
        let mut i: usize = 0;
        while i < n
            invariant
                n == self.content@.len(),
                i <= n,
                content@.len() == i,
                forall|j: int| 0 <= j < i ==> (#[trigger] content@[j])@ == self.content@[j]@,
            decreases n - i,
        {
            content.push(self.content[i].duplicate());
            i = i + 1;
        }
        proof {
            assert(content_views(content@) =~= content_views(self.content@));
        }
        Message { role: self.role, content }
    }
}

/// A tool a model may call: its name, description and JSON input schema
/// (kept as JSON text).
#[derive(Debug, Clone)]
pub struct ToolDefinition {
    pub name: String,
    pub description: String,
    pub input_schema: String,
}

/// A tool call requested by a model; its arguments are kept as JSON text.
#[derive(Debug, Clone)]
pub struct ToolCall {
    pub id: String,
    pub name: String,
    pub arguments: String,
}

/// Token counts reported by a provider.
#[derive(Debug, Clone, Copy, PartialEq, Eq, Structural)]
pub struct Usage {
    pub input_tokens: u32,
    pub output_tokens: u32,
}

/// One piece of a streamed completion.
#[derive(Debug, Clone)]
pub enum StreamChunk {
    TextDelta(String),
    ToolCallStart { id: String, name: String },
    ToolCallDelta(String),
    ToolCallEnd,
    Usage(Usage),
    Done,
    Error(String),
}

/// How much damage a tool call can do, from least to most.
#[derive(Debug, Clone, Copy, PartialEq, Eq, Structural, PartialOrd, Ord)]
pub enum RiskLevel {
    ReadOnly,
    WriteLocal,
    WriteRemote,
    Network,
    Destructive,
}

/// The position of a risk level in the order from least to most risky.
pub open spec fn risk_rank(r: RiskLevel) -> int {
    match r {
        RiskLevel::ReadOnly => 0,
        RiskLevel::WriteLocal => 1,
        RiskLevel::WriteRemote => 2,
        RiskLevel::Network => 3,
        RiskLevel::Destructive => 4,
    }
}

impl RiskLevel {
    /// The position of this level in the order from least to most risky.
    pub fn rank(&self) -> (r: u8)
        ensures
            r == risk_rank(*self),
    {
        match self {
            RiskLevel::ReadOnly => 0,
            RiskLevel::WriteLocal => 1,
            RiskLevel::WriteRemote => 2,
            RiskLevel::Network => 3,
            RiskLevel::Destructive => 4,
        }
    }

    /// Whether `self` is strictly less risky than `other`.
    pub fn less_than(&self, other: &RiskLevel) -> (b: bool)
        ensures
            b == (risk_rank(*self) < risk_rank(*other)),
    {
        self.rank() < other.rank()
    }

    /// Every level from writing locally upwards needs the user's consent.
    pub fn requires_confirmation(&self) -> (b: bool)
        ensures
            b == (risk_rank(*self) >= risk_rank(RiskLevel::WriteLocal)),
    {
        self.rank() >= 1
    }

    /// A short human-readable name.
    pub fn label(&self) -> (s: &'static str)
        ensures
            s@ == risk_label(*self)@,
    {
        match self {
            RiskLevel::ReadOnly => "Read-only",
            RiskLevel::WriteLocal => "Write (local)",
            RiskLevel::WriteRemote => "Write (remote)",
            RiskLevel::Network => "Network",
            RiskLevel::Destructive => "Destructive",
        }
    }
}

/// The label of each risk level.
pub open spec fn risk_label(r: RiskLevel) -> &'static str {
    match r {
        RiskLevel::ReadOnly => "Read-only",
        RiskLevel::WriteLocal => "Write (local)",
        RiskLevel::WriteRemote => "Write (remote)",
        RiskLevel::Network => "Network",
        RiskLevel::Destructive => "Destructive",
    }
}

/// The risk order is a strict total order: irreflexive, transitive and
/// total, and a level needs confirmation exactly when it is not read-only.
pub proof fn law_risk_order(a: RiskLevel, b: RiskLevel, c: RiskLevel)
    ensures
        !(risk_rank(a) < risk_rank(a)),
        risk_rank(a) < risk_rank(b) && risk_rank(b) < risk_rank(c) ==> risk_rank(a) < risk_rank(c),
        a != b ==> (risk_rank(a) < risk_rank(b) || risk_rank(b) < risk_rank(a)),
        (risk_rank(a) >= risk_rank(RiskLevel::WriteLocal)) <==> a != RiskLevel::ReadOnly,
{
}

/// What the assistant reports while it works on a turn.
#[derive(Debug, Clone)]
pub enum AgentEvent {
    TextDelta(String),
    ToolCallStarted { id: String, name: String, risk_level: RiskLevel },
    ToolCallCompleted { id: String, result: String, is_error: bool },
    ConfirmationNeeded { tool_name: String, risk_level: RiskLevel, preview: String },
    TurnComplete,
    Error(String),
}

} // verus!
