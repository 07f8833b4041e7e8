//! The notification sink: one delivery per record, one at a time.
//!
//! Upstream detection may run concurrently, but the outbound channel is a
//! single shared connection, so deliveries are serialized: the sink hands
//! out the next record only when no delivery is in flight, and hands each
//! queued record out exactly once, in queue order.  The caller performs the
//! actual transmission and confirms it; a failed transmission is fatal to
//! the run, so the caller simply stops driving the sink.

use vstd::prelude::*;

use crate::domain::CommentEntity;

verus! {

/// A queue of records owed a notification, drained one record at a time.
pub struct NotificationSink {
    queue: Vec<CommentEntity>,
    delivered: usize,
    in_flight: bool,
}

impl NotificationSink {
    /// Every record ever queued, in order.
    pub closed spec fn queued(&self) -> Seq<CommentEntity> {
        self.queue@
    }

    /// How many queued records have been handed out for delivery.
    pub closed spec fn delivered(&self) -> nat {
        self.delivered as nat
    }

    /// Whether a delivery is in flight — at most one ever is.
    pub closed spec fn in_flight(&self) -> bool {
        self.in_flight
    }

    /// The sink's invariant: it never hands out more than was queued, and a
    /// delivery in flight is of a queued record.
    pub open spec fn wf(&self) -> bool {
        &&& self.delivered() <= self.queued().len()
        &&& (self.in_flight() ==> self.delivered() < self.queued().len())
    }

    /// An empty sink.
    pub fn new() -> (r: Self)
        ensures
            r.wf(),
            r.queued() == Seq::<CommentEntity>::empty(),
            r.delivered() == 0,
            !r.in_flight(),
    {
        NotificationSink { queue: Vec::new(), delivered: 0, in_flight: false }
    }

    /// Queues one record for delivery.
    pub fn enqueue(&mut self, record: CommentEntity)
        requires
            old(self).wf(),
        ensures
            final(self).wf(),
            final(self).queued() == old(self).queued().push(record),
            final(self).delivered() == old(self).delivered(),
            final(self).in_flight() == old(self).in_flight(),
    {
        self.queue.push(record);
    }

    /// Hands the next undelivered record out — refused while a delivery is
    /// in flight, so transmissions never overlap.  Returns nothing when the
    /// queue is drained.
    pub fn begin_delivery(&mut self) -> (r: Option<CommentEntity>)
        requires
            old(self).wf(),
            !old(self).in_flight(),
        ensures
            final(self).wf(),
            final(self).queued() == old(self).queued(),
            final(self).delivered() == old(self).delivered(),
            old(self).delivered() < old(self).queued().len() ==> {
                &&& r == Some(old(self).queued()[old(self).delivered() as int])
                &&& final(self).in_flight()
            },
            old(self).delivered() == old(self).queued().len() ==> r is None && *final(self)
                == *old(self),
    {
        if self.delivered < self.queue.len() {
            self.in_flight = true;
            Some(self.queue[self.delivered].duplicate())
        } else {
            None
        }
    }

    /// Confirms the in-flight delivery; the record counts as delivered and
    /// the channel is free again.
    pub fn confirm_delivery(&mut self)
        requires
            old(self).wf(),
            old(self).in_flight(),
        ensures
            final(self).wf(),
            final(self).queued() == old(self).queued(),
            final(self).delivered() == old(self).delivered() + 1,
            !final(self).in_flight(),
    {
        let queued: usize = self.queue.len();
        proof {
            assert(self.delivered < queued);
        }
        self.delivered = self.delivered + 1;
        self.in_flight = false;
    }

    /// How many records have been handed out so far.
    pub fn delivered_count(&self) -> (r: usize)
        ensures
            r == self.delivered(),
    {
        self.delivered
    }

    /// Whether every queued record has been delivered and none is in
    /// flight.
    pub fn is_drained(&self) -> (r: bool)
        ensures
            r == (self.delivered() == self.queued().len() && !self.in_flight()),
    {
        self.delivered == self.queue.len() && !self.in_flight
    }
}

} // verus!
