//! A client's outbound mailbox: a bounded queue of replies that never makes
//! the sender wait, counting what it had to drop.

use vstd::prelude::*;
use std::collections::VecDeque;
use crate::protocol::{Reply, ReplyView};

verus! {

/// The number of events a mailbox holds unless told otherwise.
pub const CAPACITY: usize = 10;

/// The client behind a mailbox has gone away.
#[derive(Debug, Clone, Copy, PartialEq, Eq)]
pub struct Disconnected;

/// One queued reply, with the number of replies dropped just before it.
pub struct Event {
    pub dropped: u64,
    pub reply: Reply,
}

pub ghost struct EventView {
    pub dropped: nat,
    pub reply: ReplyView,
}

impl View for Event {
    type V = EventView;

    open spec fn view(&self) -> EventView {
        EventView { dropped: self.dropped as nat, reply: self.reply@ }
    }
}

/// The abstract state of a mailbox.
pub ghost struct MailboxView {
    /// Events waiting for delivery, oldest first.
    pub queue: Seq<EventView>,
    /// The most events the queue holds.
    pub capacity: nat,
    /// Replies dropped since the last one that was queued.
    pub dropped: nat,
    /// Whether the client's connection is gone.
    pub closed: bool,
}

/// The drop counter after one more drop; it stops at the largest `u64`.
pub open spec fn one_more(n: nat) -> nat {
    if n < u64::MAX { n + 1 } else { n }
}

/// A mailbox with nothing queued yet.
pub open spec fn empty_mailbox(capacity: nat) -> MailboxView {
    MailboxView { queue: Seq::empty(), capacity, dropped: 0, closed: false }
}

/// Whether offering a reply to `m` succeeds: it fails only once closed.
pub open spec fn offer_accepted(m: MailboxView) -> bool {
    !m.closed
}

/// The mailbox after a reply is offered to it.
pub open spec fn offer_spec(m: MailboxView, r: ReplyView) -> MailboxView {
    if m.closed {
        m
    } else if m.queue.len() < m.capacity {
        MailboxView {
            queue: m.queue.push(EventView { dropped: m.dropped, reply: r }),
            dropped: 0,
            ..m
        }
    } else {
        MailboxView { dropped: one_more(m.dropped), ..m }
    }
}

/// What the client is sent for one event: a notice of the gap before it,
/// if there was one, then its reply.
pub open spec fn delivery_of(e: EventView) -> Seq<ReplyView> {
    if e.dropped > 0 {
        seq![ReplyView::Dropped { count: e.dropped }, e.reply]
    } else {
        seq![e.reply]
    }
}

/// The mailbox after each of `rs` is offered in turn.
pub open spec fn offers(m: MailboxView, rs: Seq<ReplyView>) -> MailboxView
    decreases rs.len(),
{
    if rs.len() == 0 {
        m
    } else {
        offer_spec(offers(m, rs.drop_last()), rs.last())
    }
}

/// Once a mailbox has reported its client gone, every later offer is
/// refused too, and the mailbox stays as it was.
pub proof fn lemma_disconnect_is_permanent(m: MailboxView, rs: Seq<ReplyView>)
    requires
        m.closed,
    ensures
        offers(m, rs) == m,
        forall|i: int| 0 <= i <= rs.len() ==> !offer_accepted(#[trigger] offers(m, rs.take(i))),
{
    lemma_closed_unchanged(m, rs);
    assert forall|i: int| 0 <= i <= rs.len() implies !offer_accepted(
        #[trigger] offers(m, rs.take(i)),
    ) by {
        lemma_closed_unchanged(m, rs.take(i));
    }
}

proof fn lemma_closed_unchanged(m: MailboxView, rs: Seq<ReplyView>)
    requires
        m.closed,
    ensures
        offers(m, rs) == m,
    decreases rs.len(),
{
    if rs.len() > 0 {
        lemma_closed_unchanged(m, rs.drop_last());
    }
}

/// Offering `n` replies to an empty mailbox of capacity `c` with no
/// delivery in between queues the first `c` and drops the other `n - c`;
/// the next reply queued after one delivery carries that count.
pub proof fn lemma_backpressure(c: nat, rs: Seq<ReplyView>, next: ReplyView)
    requires
        c > 0,
        rs.len() >= c,
        rs.len() - c <= u64::MAX,
    ensures
        offers(empty_mailbox(c), rs).queue.len() == c,
        offers(empty_mailbox(c), rs).dropped == rs.len() - c,
        !offers(empty_mailbox(c), rs).closed,
        ({
            let m = offers(empty_mailbox(c), rs);
            let after = offer_spec(MailboxView { queue: m.queue.drop_first(), ..m }, next);
            after.queue.last() == (EventView { dropped: (rs.len() - c) as nat, reply: next })
        }),
{
    lemma_filling(c, rs);
}

proof fn lemma_filling(c: nat, rs: Seq<ReplyView>)
    requires
        c > 0,
        rs.len() - c <= u64::MAX,
    ensures
        offers(empty_mailbox(c), rs).capacity == c,
        !offers(empty_mailbox(c), rs).closed,
        rs.len() <= c ==> offers(empty_mailbox(c), rs).queue.len() == rs.len()
            && offers(empty_mailbox(c), rs).dropped == 0,
        rs.len() >= c ==> offers(empty_mailbox(c), rs).queue.len() == c
            && offers(empty_mailbox(c), rs).dropped == rs.len() - c,
    decreases rs.len(),
{
    if rs.len() > 0 {
        lemma_filling(c, rs.drop_last());
    }
}

/// A bounded queue of replies for one client.
pub struct Mailbox {
    queue: VecDeque<Event>,
    capacity: usize,
    dropped: u64,
    closed: bool,
}

impl View for Mailbox {
    type V = MailboxView;

    closed spec fn view(&self) -> MailboxView {
        MailboxView {
            queue: self.queue@.map_values(|e: Event| e@),
            capacity: self.capacity as nat,
            dropped: self.dropped as nat,
            closed: self.closed,
        }
    }
}

impl Mailbox {
    /// The mailbox's own consistency: the queue never exceeds its capacity.
    pub open spec fn wf(&self) -> bool {
        self@.queue.len() <= self@.capacity
    }

    /// An open mailbox holding at most `capacity` events.
    pub fn new(capacity: usize) -> (r: Mailbox)
        ensures
            r.wf(),
            r@ == empty_mailbox(capacity as nat),
    {
        let r = Mailbox { queue: VecDeque::new(), capacity, dropped: 0, closed: false };
        proof {
            assert(r@.queue =~= Seq::<EventView>::empty());
        }
        r
    }

    /// Offers a reply without waiting. While the connection lasts this
    /// succeeds: the reply is queued if there is room, and counted as
    /// dropped otherwise. Once the connection is gone it fails.
    pub fn offer(&mut self, reply: Reply) -> (r: Result<(), Disconnected>)
        requires
            old(self).wf(),
        ensures
            final(self).wf(),
            final(self)@ == offer_spec(old(self)@, reply@),
            r is Ok <==> offer_accepted(old(self)@),
    {
        if self.closed {
            return Err(Disconnected);
        }
        if self.queue.len() < self.capacity {
            let ghost before = self@;
            self.queue.push_back(Event { dropped: self.dropped, reply });
            self.dropped = 0;
            proof {
                assert(self@.queue =~= before.queue.push(
                    EventView { dropped: before.dropped, reply: reply@ },
                ));
            }
        } else if self.dropped < u64::MAX {
            self.dropped = self.dropped + 1;
        }
        Ok(())
    }

    /// Offers the message `message`, posted to `group`.
    pub fn enqueue(&mut self, group: &String, message: &String) -> (r: Result<(), Disconnected>)
        requires
            old(self).wf(),
        ensures
            final(self).wf(),
            final(self)@ == offer_spec(
                old(self)@,
                ReplyView::Message { group: group@, message: message@ },
            ),
            r is Ok <==> offer_accepted(old(self)@),
    {
        self.offer(Reply::Message { group: group.clone(), message: message.clone() })
    }

    /// Takes the oldest event and returns what the client is to be sent
    /// for it; `None` when nothing is queued.
    pub fn next_delivery(&mut self) -> (r: Option<Vec<Reply>>)
        requires
            old(self).wf(),
        ensures
            final(self).wf(),
            old(self)@.queue.len() == 0 ==> r is None && final(self)@ == old(self)@,
            old(self)@.queue.len() > 0 ==> r is Some && final(self)@ == (MailboxView {
                queue: old(self)@.queue.drop_first(),
                ..old(self)@
            }) && r->0@.map_values(|x: Reply| x@) == delivery_of(old(self)@.queue[0]),
    {
        let ghost before = self@;
        match self.queue.pop_front() {
            None => None,
            Some(event) => {
                let mut out: Vec<Reply> = Vec::new();
                if event.dropped > 0 {
                    out.push(Reply::Dropped { count: event.dropped });
                }
                out.push(event.reply);
                proof {
                    assert(self@.queue =~= before.queue.drop_first());
                    assert(out@.map_values(|x: Reply| x@) =~= delivery_of(before.queue[0]));
                }
                Some(out)
            }
        }
    }

    /// Marks the connection as gone: every later offer fails.
    pub fn close(&mut self)
        requires
            old(self).wf(),
        ensures
            final(self).wf(),
            final(self)@ == (MailboxView { closed: true, ..old(self)@ }),
    {
        self.closed = true;
    }

    /// Whether the connection is gone.
    pub fn is_closed(&self) -> (r: bool)
        ensures
            r == self@.closed,
    {
        self.closed
    }

    /// The number of events waiting.
    pub fn len(&self) -> (r: usize)
        ensures
            r == self@.queue.len(),
    {
        self.queue.len()
    }

    /// Replies dropped since the last one that was queued.
    pub fn dropped(&self) -> (r: u64)
        ensures
            r == self@.dropped,
    {
        self.dropped
    }

    /// The most events the queue holds.
    pub fn capacity(&self) -> (r: usize)
        ensures
            r == self@.capacity,
    {
        self.capacity
    }
}

} // verus!
