//! The ordered conversation history and its turn-counting laws.

use vstd::prelude::*;
use crate::models::{assistant_message, user_message, Message, MessageView};

verus! {

/// Number of completed turns in a history: a turn is one user prompt
/// paired with one assistant reply, so this is the floor of half the
/// history length.
pub open spec fn turn_count_of(history: Seq<MessageView>) -> int {
    history.len() as int / 2
}

/// The history a session has right after a reset.
pub open spec fn cleared_history() -> Seq<MessageView> {
    Seq::<MessageView>::empty()
}

/// The ordered conversation history.  Insertion order is conversation
/// order; nothing is reordered, deduplicated or partially truncated.
/// Single-writer: one conversation, driven by one caller at a time.
pub struct Session {
    messages: Vec<Message>,
}

impl View for Session {
    type V = Seq<MessageView>;

    closed spec fn view(&self) -> Seq<MessageView> {
        self.messages.deep_view()
    }
}

impl Session {
    /// A session starts empty.
    pub fn new() -> (s: Session)
        ensures
            s@ == Seq::<MessageView>::empty(),
    {
        let s = Session { messages: Vec::new() };
        proof {
            assert(s@ =~= Seq::<MessageView>::empty());
        }
        s
    }

    /// Adds one message at the end; always succeeds.
    pub fn append(&mut self, m: Message)
        ensures
            final(self)@ == old(self)@.push(m@),
    {
        self.messages.push(m);
        proof {
            assert(self@ =~= old(self)@.push(self.messages@.last()@));
        }
    }

    /// Drops the whole history; idempotent, always succeeds.
    pub fn clear(&mut self)
        ensures
            final(self)@ == cleared_history(),
    {
        self.messages.clear();
        proof {
            assert(self@ =~= cleared_history());
        }
    }

    /// The number of messages in the history.
    pub fn len(&self) -> (n: usize)
        ensures
            n == self@.len(),
    {
        self.messages.len()
    }

    /// The number of completed turns: the floor of half the history
    /// length.
    pub fn turn_count(&self) -> (n: usize)
        ensures
            n == turn_count_of(self@),
    {
        self.messages.len() / 2
    }

    /// The message at a position of the history.
    pub fn get(&self, i: usize) -> (m: &Message)
        requires
            i < self@.len(),
        ensures
            m@ == self@[i as int],
    {
        &self.messages[i]
    }

    /// A read-only copy of the whole history, in conversation order, so
    /// the caller holds no alias into the live state.
    pub fn snapshot(&self) -> (out: Vec<Message>)
        ensures
            out.deep_view() == self@,
    {
        let mut out: Vec<Message> = Vec::new();
        let n = self.messages.len();
        let mut i: usize = 0;
        while i < n
            invariant
                i <= n,
                n == self.messages.len(),
                out.len() == i,
                forall|j: int| 0 <= j < i ==> out.deep_view()[j] == self@[j],
            decreases n - i,
        {
            out.push(self.messages[i].clone());
            i = i + 1;
        }
        proof {
            assert(out.deep_view() =~= self@);
        }
        out
    }

    /// Moves the whole history out, leaving the session empty.
    pub fn take_history(&mut self) -> (out: Vec<Message>)
        ensures
            out.deep_view() == old(self)@,
            final(self)@ == Seq::<MessageView>::empty(),
    {
        let mut taken: Vec<Message> = Vec::new();
        core::mem::swap(&mut taken, &mut self.messages);
        proof {
            assert(self@ =~= Seq::<MessageView>::empty());
        }
        taken
    }

    /// Replaces the history wholesale with a previously captured one.
    pub fn restore(&mut self, saved: Vec<Message>)
        ensures
            final(self)@ == saved.deep_view(),
    {
        self.messages = saved;
    }
}

/// The history after one successful blocking turn: the user prompt is
/// appended, then the assistant reply.
pub open spec fn with_turn(
    history: Seq<MessageView>,
    prompt: Seq<char>,
    reply: Seq<char>,
) -> Seq<MessageView> {
    history.push(user_message(prompt)).push(assistant_message(reply))
}

/// The history after a sequence of successful blocking turns, applied in
/// order.
pub open spec fn with_turns(
    history: Seq<MessageView>,
    turns: Seq<(Seq<char>, Seq<char>)>,
) -> Seq<MessageView>
    decreases turns.len(),
{
    if turns.len() == 0 {
        history
    } else {
        with_turns(with_turn(history, turns[0].0, turns[0].1), turns.drop_first())
    }
}

/// Each successful blocking turn grows the history by exactly two
/// messages.
pub proof fn lemma_with_turns_len(history: Seq<MessageView>, turns: Seq<(Seq<char>, Seq<char>)>)
    ensures
        with_turns(history, turns).len() == history.len() + 2 * turns.len(),
    decreases turns.len(),
{
    if turns.len() > 0 {
        lemma_with_turns_len(with_turn(history, turns[0].0, turns[0].1), turns.drop_first());
    }
}

/// Law: after any sequence of N successful blocking calls on an initially
/// empty session, the history holds 2·N messages and the turn count is N.
pub proof fn lemma_turn_count_after_successes(turns: Seq<(Seq<char>, Seq<char>)>)
    ensures
        with_turns(Seq::<MessageView>::empty(), turns).len() == 2 * turns.len(),
        turn_count_of(with_turns(Seq::<MessageView>::empty(), turns)) == turns.len(),
{
    lemma_with_turns_len(Seq::<MessageView>::empty(), turns);
}

/// Law: appending any message to any history and then clearing yields
/// zero turns and an empty snapshot.
pub proof fn lemma_append_then_clear(history: Seq<MessageView>, m: MessageView)
    ensures
        cleared_history() == Seq::<MessageView>::empty(),
        turn_count_of(cleared_history()) == 0,
{
}

} // verus!
