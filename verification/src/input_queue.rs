//! Text the user sends while a turn is running, queued in arrival order
//! for the agent to pick up.
use vstd::prelude::*;
use std::collections::VecDeque;

verus! {

/// An image attached to queued input.
pub struct ImageContent {
    pub media_type: String,
    pub data: String,
}

/// One queued message.
pub struct QueuedInput {
    pub text: String,
    pub images: Vec<ImageContent>,
}

/// Messages waiting for the running turn, oldest first.
pub struct InputQueue {
    messages: VecDeque<QueuedInput>,
}

impl View for InputQueue {
    type V = Seq<QueuedInput>;

    closed spec fn view(&self) -> Seq<QueuedInput> {
        self.messages@
    }
}

impl InputQueue {
    /// An empty queue.
    pub fn new() -> (q: Self)
        ensures
            q@ == Seq::<QueuedInput>::empty(),
    {
        InputQueue { messages: VecDeque::new() }
    }

    /// Number of queued messages.
    pub fn len(&self) -> (n: usize)
        ensures
            n == self@.len(),
    {
        self.messages.len()
    }

    /// Adds a message at the back.
    pub fn push(&mut self, text: String, images: Vec<ImageContent>)
        ensures
            final(self)@ == old(self)@.push(QueuedInput { text, images }),
    {
        self.messages.push_back(QueuedInput { text, images });
    }

    /// Takes every queued message, oldest first, leaving the queue empty.
    pub fn drain(&mut self) -> (out: Vec<QueuedInput>)
        ensures
            out@ == old(self)@,
            final(self)@ == Seq::<QueuedInput>::empty(),
    {
        let mut out: Vec<QueuedInput> = Vec::new();
        let ghost all = self.messages@;
        while self.messages.len() > 0
            invariant
                out@ + self.messages@ == all,
            decreases self.messages@.len(),
        {
            let ghost before = self.messages@;
            match self.messages.pop_front() {
                Some(m) => {
                    out.push(m);
                    assert(out@ + self.messages@ =~= all) by {
                        assert(before =~= seq![before[0]] + before.subrange(1, before.len() as int));
                    }
                },
                None => {},
            }
        }
        assert(out@ =~= all);
        out
    }

    /// Removes the oldest message if it is `text` (it was taken up by the
    /// turn already); otherwise leaves the queue as it is.
    pub fn discard_front(&mut self, text: &str)
        ensures
            old(self)@.len() > 0 && old(self)@[0].text@ == text@ ==> final(self)@ == old(self)@.drop_first(),
            !(old(self)@.len() > 0 && old(self)@[0].text@ == text@) ==> final(self)@ == old(self)@,
    {
        if self.messages.len() > 0 && crate::text::str_eq(self.messages[0].text.as_str(), text) {
            let _ = self.messages.pop_front();
            assert(self.messages@ =~= old(self)@.drop_first());
        }
    }
}

impl Default for InputQueue {
    /// An empty queue.
    fn default() -> (q: Self)
        ensures
            q@ == Seq::<QueuedInput>::empty(),
    {
        InputQueue::new()
    }
}

} // verus!
