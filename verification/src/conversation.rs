//! The ordered, append-only turn history that is passed to a provider on
//! every completion request.

use vstd::prelude::*;

verus! {

/// Who authored a message of the conversation.
#[derive(Clone, Copy, PartialEq, Eq, Structural, Debug)]
pub enum Role {
    User,
    Assistant,
    System,
}

/// One entry of the conversation history; immutable once appended.
pub struct Message {
    pub role: Role,
    pub content: String,
}

/// Ordered sequence of messages; insertion order defines turn order and the
/// context window.  Mutated only by appending a completed turn, by an
/// explicit clear, or by truncating the last user/assistant pair before
/// re-issuing it.
pub struct Conversation {
    messages: Vec<Message>,
}

impl View for Conversation {
    type V = Seq<Message>;

    closed spec fn view(&self) -> Seq<Message> {
        self.messages@
    }
}

/// The history ends with a user message directly followed by the assistant
/// reply it produced: a complete exchange that "edit-last" may retract.
pub open spec fn ends_with_exchange(s: Seq<Message>) -> bool {
    s.len() >= 2 && s[s.len() - 2].role is User && s[s.len() - 1].role is Assistant
}

/// The history ends with a user message that got no assistant reply
/// (the turn failed or was cancelled).
pub open spec fn ends_with_user(s: Seq<Message>) -> bool {
    s.len() >= 1 && s[s.len() - 1].role is User
}

impl Conversation {
    /// An empty history, as every session starts with.
    pub fn new() -> (c: Conversation)
        ensures
            c@ == Seq::<Message>::empty(),
    {
        Conversation { messages: Vec::new() }
    }

    pub fn len(&self) -> (n: usize)
        ensures
            n == self@.len(),
    {
        self.messages.len()
    }

    pub fn entry(&self, i: usize) -> (m: &Message)
        requires
            i < self@.len(),
        ensures
            *m == self@[i as int],
    {
        &self.messages[i]
    }

    /// The whole history in order, for handing to a provider call.
    pub fn entries(&self) -> (v: &Vec<Message>)
        ensures
            v@ == self@,
    {
        &self.messages
    }

    /// Append one completed message; nothing before it changes.
    pub fn append(&mut self, m: Message)
        ensures
            final(self)@ == old(self)@.push(m),
    {
        self.messages.push(m);
    }

    /// Discard every entry (the `clear-history` meta-action).
    pub fn clear(&mut self)
        ensures
            final(self)@ == Seq::<Message>::empty(),
    {
        self.messages.clear();
    }

    /// Retract the trailing exchange so the prompt can be re-edited: if the
    /// history ends with a user/assistant pair, both are removed; if it ends
    /// with an unanswered user message, that one is removed; otherwise the
    /// history is left untouched.  Returns the content of the removed user
    /// message, which seeds the editor buffer.
    pub fn drop_last_exchange(&mut self) -> (r: Option<String>)
        ensures
            ends_with_exchange(old(self)@) ==> (final(self)@ == old(self)@.take(
                old(self)@.len() - 2,
            ) && r == Some(old(self)@[old(self)@.len() - 2].content)),
            !ends_with_exchange(old(self)@) && ends_with_user(old(self)@) ==> (final(self)@ == old(
                self,
            )@.take(old(self)@.len() - 1) && r == Some(
                old(self)@[old(self)@.len() - 1].content,
            )),
            !ends_with_exchange(old(self)@) && !ends_with_user(old(self)@) ==> (*final(self)
                == *old(self) && r is None),
    {
        let n = self.messages.len();
        if n >= 2 && self.messages[n - 2].role == Role::User && self.messages[n - 1].role
            == Role::Assistant {
            let _assistant = self.messages.pop();
            let user = self.messages.pop();
            proof {
                assert(self@ =~= old(self)@.take(old(self)@.len() - 2));
            }
            match user {
                Some(m) => Some(m.content),
                None => None,
            }
        } else if n >= 1 && self.messages[n - 1].role == Role::User {
            let user = self.messages.pop();
            proof {
                assert(self@ =~= old(self)@.take(old(self)@.len() - 1));
            }
            match user {
                Some(m) => Some(m.content),
                None => None,
            }
        } else {
            None
        }
    }
}

} // verus!
