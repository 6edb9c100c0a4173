//! The egress conduit: a bounded FIFO that every collector pushes events
//! into. A full conduit hands the event back for the producer to retry once
//! there is room; a closed one tells the producer that the consumer is gone.
//! Nothing is ever dropped.
use vstd::prelude::*;
use crate::metrics_text::Metric;

verus! {

/// The envelope that collectors put on the conduit.
#[derive(Debug)]
pub enum Event {
    Log { message: String },
    Metric(Metric),
}

/// What became of one send.
#[derive(Debug)]
pub enum SendOutcome<T> {
    /// The conduit took the item.
    Accepted,
    /// The conduit is full: the producer keeps the item and waits.
    Full(T),
    /// The consumer is gone: the producer keeps the item and stops.
    Gone(T),
}

/// A bounded first-in first-out conduit.
pub struct Conduit<T> {
    queue: Vec<T>,
    capacity: usize,
    closed: bool,
}

impl<T> Conduit<T> {
    /// The items held, oldest first.
    pub closed spec fn items(self) -> Seq<T> {
        self.queue@
    }

    pub closed spec fn spec_capacity(self) -> nat {
        self.capacity as nat
    }

    /// Whether the consumer is gone.
    pub closed spec fn is_closed(self) -> bool {
        self.closed
    }

    pub open spec fn wf(self) -> bool {
        0 < self.spec_capacity() && self.items().len() <= self.spec_capacity()
    }

    /// An open, empty conduit that holds at most `capacity` items.
    pub fn new(capacity: usize) -> (r: Self)
        requires
            capacity > 0,
        ensures
            r.wf(),
            r.items() == Seq::<T>::empty(),
            r.spec_capacity() == capacity,
            !r.is_closed(),
    {
        Conduit { queue: Vec::new(), capacity, closed: false }
    }

    /// The number of items held.
    pub fn len(&self) -> (r: usize)
        ensures
            r == self.items().len(),
    {
        self.queue.len()
    }

    /// Offers one item: it is taken while there is room and the consumer is
    /// there; otherwise it comes back untouched and the conduit is unchanged.
    pub fn try_send(&mut self, item: T) -> (r: SendOutcome<T>)
        requires
            old(self).wf(),
        ensures
            final(self).wf(),
            final(self).spec_capacity() == old(self).spec_capacity(),
            final(self).is_closed() == old(self).is_closed(),
            old(self).is_closed() ==> r == SendOutcome::Gone(item) && final(self).items() == old(self).items(),
            !old(self).is_closed() && old(self).items().len() == old(self).spec_capacity() ==> r
                == SendOutcome::Full(item) && final(self).items() == old(self).items(),
            !old(self).is_closed() && old(self).items().len() < old(self).spec_capacity() ==> r
                == SendOutcome::<T>::Accepted && final(self).items() == old(self).items().push(item),
    {
        if self.closed {
            SendOutcome::Gone(item)
        } else if self.queue.len() == self.capacity {
            SendOutcome::Full(item)
        } else {
            self.queue.push(item);
            SendOutcome::Accepted
        }
    }

    /// Takes the oldest item, if any; this makes room for one more.
    pub fn recv(&mut self) -> (r: Option<T>)
        requires
            old(self).wf(),
        ensures
            final(self).wf(),
            final(self).spec_capacity() == old(self).spec_capacity(),
            final(self).is_closed() == old(self).is_closed(),
            old(self).items().len() == 0 ==> r is None && final(self).items() == old(self).items(),
            old(self).items().len() > 0 ==> r == Some(old(self).items()[0]) && final(self).items()
                == old(self).items().drop_first(),
    {
        if self.queue.len() == 0 {
            None
        } else {
            Some(self.queue.remove(0))
        }
    }

    /// The consumer leaves: every later send is refused with `Gone`.
    pub fn close(&mut self)
        requires
            old(self).wf(),
        ensures
            final(self).wf(),
            final(self).is_closed(),
            final(self).items() == old(self).items(),
            final(self).spec_capacity() == old(self).spec_capacity(),
    {
        self.closed = true;
    }
}

} // verus!
