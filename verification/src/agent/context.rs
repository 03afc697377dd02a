//! How much conversation fits the model's context: token estimates, history
//! truncation and the map of repository files shown to the model.
use vstd::prelude::*;

use crate::agent::types::{ContentView, Message, MessageContent, MessageView, message_views};
use crate::agent::git_tools::{search_skips, skip_search_entry};
use crate::text::{join_lines, joined_lines, string_from_str, string_views, utf8_len};

verus! {

/// The total token budget split into tiers.
pub struct ContextBudget {
    pub total: usize,
    pub hot: usize,
    pub warm: usize,
    pub cold: usize,
}

/// The budget, the repository map once built, and the token rules.
pub struct ContextEngine {
    budget: ContextBudget,
    repo_map: Option<String>,
}

/// The rough token count of a text: a quarter of its UTF-8 length.
pub open spec fn estimate(s: Seq<char>) -> nat {
    utf8_len(s) as nat / 4
}

/// The tokens a content block is charged: those of its text, of a tool
/// result's output, or of a tool call's JSON input.
pub open spec fn content_tokens(c: ContentView) -> nat {
    match c {
        ContentView::Text { text } => estimate(text),
        ContentView::ToolUse { input, .. } => estimate(input),
        ContentView::ToolResult { content, .. } => estimate(content),
    }
}

/// The tokens of a sequence of content blocks.
pub open spec fn blocks_tokens(cs: Seq<ContentView>) -> nat
    decreases cs.len(),
{
    if cs.len() == 0 {
        0
    } else {
        blocks_tokens(cs.drop_last()) + content_tokens(cs.last())
    }
}

/// The tokens of a message.
pub open spec fn message_tokens(m: MessageView) -> nat {
    blocks_tokens(m.content)
}

/// The tokens of the messages from index `k` to the end.
pub open spec fn suffix_tokens(ms: Seq<MessageView>, k: int) -> nat
    decreases ms.len() - k,
{
    if k >= ms.len() || k < 0 {
        0
    } else {
        message_tokens(ms[k]) + suffix_tokens(ms, k + 1)
    }
}

proof fn lemma_blocks_tokens_prefix(cs: Seq<ContentView>, i: int)
    requires
        0 <= i <= cs.len(),
    ensures
        blocks_tokens(cs.take(i)) <= blocks_tokens(cs),
    decreases cs.len() - i,
{
    if i < cs.len() {
        lemma_blocks_tokens_prefix(cs, i + 1);
        assert(cs.take(i + 1).drop_last() =~= cs.take(i));
    } else {
        assert(cs.take(i) =~= cs);
    }
}

proof fn lemma_suffix_monotone(ms: Seq<MessageView>, j: int, k: int)
    requires
        0 <= j <= k,
    ensures
        suffix_tokens(ms, k) <= suffix_tokens(ms, j),
    decreases k - j,
{
    if j < k {
        lemma_suffix_monotone(ms, j + 1, k);
    }
}

impl ContextEngine {
    /// An engine with the given budget and no repository map yet.
    pub fn new(budget: ContextBudget) -> (e: Self)
        ensures
            e.budget_spec() == budget,
            e.repo_map_spec() is None,
    {
        ContextEngine { budget, repo_map: None }
    }

    /// The budget the engine was made with.
    pub closed spec fn budget_spec(&self) -> ContextBudget {
        self.budget
    }

    /// The repository map, once built.
    pub closed spec fn repo_map_spec(&self) -> Option<Seq<char>> {
        match &self.repo_map {
            Some(m) => Some(m@),
            None => None,
        }
    }

    /// Record the repository map: the listed file paths, one per line.
    pub fn build_repo_map(&mut self, entries: &[String])
        ensures
            final(self).repo_map_spec() == Some(joined_lines(entries@.map_values(|e: String| e@))),
            final(self).budget_spec() == old(self).budget_spec(),
    {
        self.repo_map = Some(join_lines(entries));
    }

    /// The repository map, once built.
    pub fn repo_map(&self) -> (m: Option<&str>)
        ensures
            match (m, self.repo_map_spec()) {
                (Some(s), Some(v)) => s@ == v,
                (None, None) => true,
                _ => false,
            },
    {
        match &self.repo_map {
            Some(m) => Some(m.as_str()),
            None => None,
        }
    }

    /// The rough token count of a text: its UTF-8 length divided by four.
    pub fn estimate_tokens(text: &str) -> (n: usize)
        ensures
            n == estimate(text@),
    {
        text.len() / 4
    }

    /// The budget the engine was made with.
    pub fn budget(&self) -> (b: &ContextBudget)
        ensures
            *b == self.budget_spec(),
    {
        &self.budget
    }

    /// The newest messages that fit `max_tokens`, oldest first: messages are
    /// taken from the end for as long as the running total stays within the
    /// budget, and the first one that would exceed it ends the walk.
    pub fn truncate_history(messages: &[Message], max_tokens: usize) -> (kept: Vec<Message>)
        requires
            suffix_tokens(message_views(messages@), 0) <= usize::MAX,
        ensures
            exists|k: int|
                {
                    &&& 0 <= k <= messages@.len()
                    &&& message_views(kept@) == message_views(messages@).subrange(k, messages@.len() as int)
                    &&& suffix_tokens(message_views(messages@), k) <= max_tokens
                    &&& (k == 0 || suffix_tokens(message_views(messages@), k - 1) > max_tokens)
                },
    {
        let k = keep_from(messages, max_tokens);
        let n = messages.len();
        let mut kept: Vec<Message> = Vec::new();
        let mut i: usize = k;
        while i < n
            invariant
                n == messages@.len(),
                k <= i <= n,
                kept@.len() == i - k,
                forall|j: int| 0 <= j < kept@.len() ==> (#[trigger] kept@[j])@ == messages@[k + j]@,
            decreases n - i,
        {
            kept.push(messages[i].duplicate());
            i = i + 1;
        }
        proof {
            assert(message_views(kept@) =~= message_views(messages@).subrange(k as int, n as int));
        }
        kept
    }
}

/// The tokens of one message.
fn tokens_of(m: &Message) -> (t: usize)
    requires
        message_tokens(m@) <= usize::MAX,
    ensures
        t == message_tokens(m@),
{
    let n = m.content.len();
    let mut total: usize = 0;
    let mut i: usize = 0;
    while i < n
        invariant
            n == m.content@.len(),
            i <= n,
            blocks_tokens(m@.content) <= usize::MAX,
            total == blocks_tokens(m@.content.take(i as int)),
        decreases n - i,
    {
        let t = match &m.content[i] {
            MessageContent::Text { text } => ContextEngine::estimate_tokens(text.as_str()),
            MessageContent::ToolUse { input, .. } => ContextEngine::estimate_tokens(input.as_str()),
            MessageContent::ToolResult { content, .. } => ContextEngine::estimate_tokens(content.as_str()),
        };
        proof {
            assert(m@.content.take(i + 1).drop_last() =~= m@.content.take(i as int));
            assert(m@.content.take(i + 1).last() == m.content@[i as int]@);
            lemma_blocks_tokens_prefix(m@.content, i + 1);
        }
        total = total + t;
        i = i + 1;
    }
    proof {
        assert(m@.content.take(n as int) =~= m@.content);
    }
    total
}

/// Where the kept suffix of the history starts.
fn keep_from(messages: &[Message], max_tokens: usize) -> (k: usize)
    requires
        suffix_tokens(message_views(messages@), 0) <= usize::MAX,
    ensures
        k <= messages@.len(),
        suffix_tokens(message_views(messages@), k as int) <= max_tokens,
        k == 0 || suffix_tokens(message_views(messages@), k - 1) > max_tokens,
{
    let ghost ms = message_views(messages@);
    let n = messages.len();
    let mut k: usize = n;
    let mut total: usize = 0;
    while k > 0
        invariant
            n == messages@.len(),
            ms == message_views(messages@),
            k <= n,
            total == suffix_tokens(ms, k as int),
            total <= max_tokens,
            suffix_tokens(ms, 0) <= usize::MAX,
        decreases k,
    {
        proof {
            lemma_suffix_monotone(ms, 0, k - 1);
            assert(ms[k - 1] == messages@[k - 1]@);
        }
        let t = tokens_of(&messages[k - 1]);
        if t > max_tokens - total {
            return k;
        }
        total = total + t;
        k = k - 1;
    }
    k
}

/// The most files the repository map lists.
pub const REPO_MAP_LIMIT: usize = 200;

/// What the walk that builds the repository map does with a directory entry.
#[derive(Debug, Clone, Copy, PartialEq, Eq, Structural)]
pub enum WalkStep {
    /// The map is full: the walk stops.
    Stop,
    /// A hidden entry, `target` or `node_modules`: neither it nor anything
    /// under it is listed.
    Skip,
    /// A directory: walk into it.
    Descend,
    /// A file: its path relative to the repository is listed.
    Record,
    /// Neither a directory nor a file: passed over.
    Ignore,
}

/// The step for an entry of this name and kind when `collected` of at most
/// `max` files are listed.
pub open spec fn walk_step(name: Seq<char>, is_dir: bool, is_file: bool, collected: nat, max: nat) -> WalkStep {
    if collected >= max {
        WalkStep::Stop
    } else if search_skips(name) {
        WalkStep::Skip
    } else if is_dir {
        WalkStep::Descend
    } else if is_file {
        WalkStep::Record
    } else {
        WalkStep::Ignore
    }
}

/// The files listed so far by a walk of the repository, never more than its
/// limit.
pub struct RepoMapWalk {
    paths: Vec<String>,
    max: usize,
}

impl RepoMapWalk {
    #[verifier::type_invariant]
    spec fn within_limit(self) -> bool {
        self.paths@.len() <= self.max
    }

    /// The paths listed so far, in the order they were found.
    pub closed spec fn collected(&self) -> Seq<Seq<char>> {
        string_views(self.paths@)
    }

    /// The most paths the walk lists.
    pub closed spec fn limit(&self) -> nat {
        self.max as nat
    }

    /// A walk that has listed nothing and lists at most `max` files.
    pub fn new(max: usize) -> (w: Self)
        ensures
            w.collected().len() == 0,
            w.limit() == max,
    {
        let w = RepoMapWalk { paths: Vec::new(), max };
        proof {
            assert(string_views(w.paths@) =~= Seq::<Seq<char>>::empty());
        }
        w
    }

    /// Whether the walk has listed as many files as it may.
    pub fn is_full(&self) -> (b: bool)
        ensures
            b == (self.collected().len() >= self.limit()),
            self.collected().len() <= self.limit(),
    {
        proof {
            use_type_invariant(self);
        }
        self.paths.len() >= self.max
    }

    /// Take in one directory entry: its file name, whether it is a directory
    /// or a file, and its path relative to the repository. A file is listed
    /// unless the map is full or the entry is skipped.
    pub fn visit(&mut self, name: &str, is_dir: bool, is_file: bool, rel_path: &str) -> (step: WalkStep)
        ensures
            step == walk_step(name@, is_dir, is_file, old(self).collected().len(), old(self).limit()),
            step == WalkStep::Record ==> final(self).collected() == old(self).collected().push(rel_path@),
            step != WalkStep::Record ==> final(self).collected() == old(self).collected(),
            final(self).limit() == old(self).limit(),
            final(self).collected().len() <= final(self).limit(),
    {
        proof {
            use_type_invariant(&*self);
        }
        if self.paths.len() >= self.max {
            return WalkStep::Stop;
        }
        if skip_search_entry(name) {
            return WalkStep::Skip;
        }
        if is_dir {
            return WalkStep::Descend;
        }
        if !is_file {
            return WalkStep::Ignore;
        }
        let p = string_from_str(rel_path);
        let ghost before = self.paths@;
        let mut listed: Vec<String> = Vec::new();
        std::mem::swap(&mut listed, &mut self.paths);
        listed.push(p);
        self.paths = listed;
        proof {
            assert(string_views(self.paths@) =~= string_views(before).push(rel_path@));
        }
        WalkStep::Record
    }

    /// The paths listed so far.
    pub fn paths(&self) -> (v: &[String])
        ensures
            string_views(v@) == self.collected(),
    {
        self.paths.as_slice()
    }
}

} // verus!
