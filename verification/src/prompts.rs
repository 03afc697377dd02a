//! Window prompts: the answer a prompt gives, the one-shot channel that
//! delivers it, and what the fallback prompt shows and answers.
use vstd::prelude::*;

use crate::text::{clone_string, decimal, push_decimal, string_from_str, string_views};

verus! {

/// The answer to a prompt: the index of the chosen option among the options
/// the prompt was shown with.
#[derive(Debug, Clone, Copy, PartialEq, Eq, Structural)]
pub struct PromptResponse(pub usize);

/// The waiting side of a prompt: it delivers the first answer and ignores
/// every later one.
pub struct PromptHandle {
    answered: bool,
}

impl PromptHandle {
    /// Whether an answer has been delivered.
    pub closed spec fn is_answered(&self) -> bool {
        self.answered
    }

    /// A prompt still waiting for its answer.
    pub fn new() -> (h: Self)
        ensures
            !h.is_answered(),
    {
        PromptHandle { answered: false }
    }

    /// A response arrived: the index to deliver when it is the first one
    /// (the prompt then closes and the previous focus returns), else nothing.
    pub fn respond(&mut self, response: PromptResponse) -> (delivered: Option<usize>)
        ensures
            final(self).is_answered(),
            !old(self).is_answered() ==> delivered == Some(response.0),
            old(self).is_answered() ==> delivered is None,
    {
        if self.answered {
            None
        } else {
            self.answered = true;
            Some(response.0)
        }
    }
}

/// The prompt drawn when the platform has none: a message, an optional
/// detail, and one button per option, in order.
pub struct FallbackPromptRenderer {
    message: String,
    detail: Option<String>,
    actions: Vec<String>,
}

impl FallbackPromptRenderer {
    /// The message.
    pub closed spec fn message(&self) -> Seq<char> {
        self.message@
    }

    /// The detail, if any.
    pub closed spec fn detail(&self) -> Option<Seq<char>> {
        match self.detail {
            Some(d) => Some(d@),
            None => None,
        }
    }

    /// The options' labels, in order.
    pub closed spec fn actions(&self) -> Seq<Seq<char>> {
        string_views(self.actions@)
    }

    /// A prompt for a message, a detail and the options' labels.
    pub fn new(message: &str, detail: Option<&str>, actions: &[String]) -> (r: Self)
        ensures
            r.message() == message@,
            r.detail() == match detail {
                Some(d) => Some(d@),
                None => None::<Seq<char>>,
            },
            r.actions() == string_views(actions@),
    {
        let mut labels: Vec<String> = Vec::new();
        let n = actions.len();
        let mut i: usize = 0;
        while i < n
            invariant
                n == actions@.len(),
                i <= n,
                string_views(labels@) == string_views(actions@.take(i as int)),
            decreases n - i,
        {
            let ghost before = labels@;
            let label = clone_string(&actions[i]);
            labels.push(label);
            proof {
                assert(actions@.take(i + 1) =~= actions@.take(i as int).push(actions@[i as int]));
                assert(labels@ =~= before.push(label));
                assert(string_views(labels@) =~= string_views(before).push(label@));
                assert(string_views(actions@.take(i + 1)) =~= string_views(actions@.take(i as int)).push(
                    actions@[i as int]@,
                ));
            }
            i = i + 1;
        }
        proof {
            assert(actions@.take(n as int) =~= actions@);
        }
        let detail = match detail {
            Some(d) => Some(string_from_str(d)),
            None => None,
        };
        FallbackPromptRenderer { message: string_from_str(message), detail, actions: labels }
    }

    /// How many options the prompt offers.
    pub fn action_count(&self) -> (n: usize)
        ensures
            n == self.actions().len(),
    {
        self.actions.len()
    }

    /// Clicking the button of option `ix` answers with `ix`.
    pub fn click(&self, ix: usize) -> (r: PromptResponse)
        requires
            ix < self.actions().len(),
        ensures
            r.0 == ix,
    {
        PromptResponse(ix)
    }
}

/// The element id a prompt's option button is found by:
/// `prompt-action-` and its index.
pub fn action_selector(ix: usize) -> (s: String)
    ensures
        s@ == "prompt-action-"@ + decimal(ix as nat),
{
    let mut s = string_from_str("prompt-action-");
    push_decimal(&mut s, ix as u64);
    s
}

} // verus!
