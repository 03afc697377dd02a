//! Saved conversations: what a stored conversation and a stored message
//! hold, and the history of the current conversation.
use vstd::prelude::*;

use crate::agent::types::{message_views, Message, MessageView};

verus! {

/// A saved conversation. Timestamps are RFC 3339 text, as stored.
#[derive(Debug)]
pub struct Conversation {
    pub id: i64,
    pub repo_path: Option<String>,
    pub title: String,
    pub created_at: String,
    pub updated_at: String,
}

/// A saved message: its role and its content blocks as JSON text.
#[derive(Debug)]
pub struct StoredMessage {
    pub id: i64,
    pub conversation_id: i64,
    pub role: String,
    pub content_json: String,
    pub created_at: String,
}

/// The messages of the current conversation, oldest first.
pub struct ChatHistory {
    messages: Vec<Message>,
}

impl ChatHistory {
    /// The messages, oldest first.
    pub closed spec fn messages(&self) -> Seq<MessageView> {
        message_views(self.messages@)
    }

    /// An empty history.
    pub fn new() -> (h: Self)
        ensures
            h.messages().len() == 0,
    {
        let h = ChatHistory { messages: Vec::new() };
        proof {
            assert(message_views(h.messages@) =~= Seq::<MessageView>::empty());
        }
        h
    }

    /// Add a message at the end.
    pub fn push(&mut self, m: Message)
        ensures
            final(self).messages() == old(self).messages().push(m@),
    {
        let ghost mv = m@;
        let ghost prev = self.messages@;
        self.messages.push(m);
        proof {
            assert(message_views(self.messages@) =~= message_views(prev).push(mv));
        }
    }

    /// The messages, oldest first.
    pub fn history(&self) -> (v: &[Message])
        ensures
            message_views(v@) == self.messages(),
    {
        self.messages.as_slice()
    }

    /// Forget every message.
    pub fn clear_history(&mut self)
        ensures
            final(self).messages().len() == 0,
    {
        self.messages.clear();
        proof {
            assert(message_views(self.messages@) =~= Seq::<MessageView>::empty());
        }
    }
}

} // verus!
