//! The bounded history of raw inbound messages.

use vstd::prelude::*;

verus! {

/// One inbound protocol message as it arrived.
#[derive(Debug, Clone, PartialEq, Eq)]
pub struct RawMessage {
    pub topic: String,
    pub payload: Vec<u8>,
}

/// A message as topic and payload.
pub type Raw = (Seq<char>, Seq<u8>);

impl View for RawMessage {
    type V = Raw;

    open spec fn view(&self) -> Raw {
        (self.topic@, self.payload@)
    }
}

/// The history after `m` was recorded: `m` comes last, and where the history
/// was full its oldest message has left.
pub open spec fn recorded(h: Seq<Raw>, capacity: nat, m: Raw) -> Seq<Raw> {
    if h.len() >= capacity {
        h.subrange(1, h.len() as int).push(m)
    } else {
        h.push(m)
    }
}

/// The last messages that arrived, oldest first, never more than the capacity.
#[derive(Debug, Clone)]
pub struct History {
    items: Vec<RawMessage>,
    capacity: usize,
}

impl View for History {
    type V = Seq<Raw>;

    closed spec fn view(&self) -> Seq<Raw> {
        Seq::new(self.items@.len(), |i: int| self.items@[i]@)
    }
}

impl History {
    /// The most messages that the history keeps.
    pub closed spec fn capacity_spec(&self) -> nat {
        self.capacity as nat
    }

    /// The invariant: a positive capacity, and no more messages than that.
    pub open spec fn wf(&self) -> bool {
        0 < self.capacity_spec() && self@.len() <= self.capacity_spec()
    }

    /// An empty history that keeps up to `capacity` messages.
    pub fn new(capacity: usize) -> (h: History)
        requires
            capacity > 0,
        ensures
            h@ == Seq::<Raw>::empty(),
            h.capacity_spec() == capacity,
            h.wf(),
    {
        let h = History { items: Vec::new(), capacity };
        assert(h@ =~= Seq::<Raw>::empty());
        h
    }

    pub fn capacity(&self) -> (n: usize)
        ensures
            n == self.capacity_spec(),
    {
        self.capacity
    }

    pub fn len(&self) -> (n: usize)
        ensures
            n == self@.len(),
    {
        self.items.len()
    }

    /// The message at `i`, counted from the oldest.
    pub fn get(&self, i: usize) -> (m: Option<&RawMessage>)
        ensures
            match m {
                Some(r) => i < self@.len() && r@ == self@[i as int],
                None => i >= self@.len(),
            },
    {
        if i < self.items.len() {
            Some(&self.items[i])
        } else {
            None
        }
    }

    /// Records a message. At capacity the oldest one is evicted first.
    pub fn push(&mut self, m: RawMessage)
        requires
            old(self).wf(),
        ensures
            final(self)@ == recorded(old(self)@, old(self).capacity_spec(), m@),
            final(self).capacity_spec() == old(self).capacity_spec(),
            final(self).wf(),
    {
        let ghost raw = m@;
        if self.items.len() >= self.capacity {
            self.items.remove(0);
        }
        self.items.push(m);
        assert(self@ =~= recorded(old(self)@, old(self).capacity_spec(), raw));
    }
}

/// The history is first in, first out: recording into a full history drops
/// exactly the oldest message, keeps the others in their order and puts the
/// new one last; the length stays at the capacity.
pub proof fn lemma_history_fifo(h: Seq<Raw>, capacity: nat, m: Raw)
    requires
        0 < capacity,
        h.len() == capacity,
    ensures
        recorded(h, capacity, m).len() == capacity,
        recorded(h, capacity, m).last() == m,
        forall|i: int| 0 <= i < capacity - 1 ==> recorded(h, capacity, m)[i] == h[i + 1],
{
}

/// Recording never takes the history over its capacity, and below capacity
/// nothing is lost.
pub proof fn lemma_history_bounded(h: Seq<Raw>, capacity: nat, m: Raw)
    requires
        0 < capacity,
        h.len() <= capacity,
    ensures
        recorded(h, capacity, m).len() <= capacity,
        recorded(h, capacity, m).last() == m,
        h.len() < capacity ==> recorded(h, capacity, m) == h.push(m),
{
}

} // verus!
