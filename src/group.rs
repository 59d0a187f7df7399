//! A chat group: a name and the handles of the clients that joined it.
//!
//! A group does not own its members' mailboxes. Sending hands each member's
//! handle to a delivery function, which offers the message to that member's
//! mailbox and says whether the client is still there; the members whose
//! client is gone leave the group in the same pass.

use vstd::prelude::*;
use crate::mailbox::{MailboxView, EventView, offer_spec, offer_accepted, one_more};
use crate::protocol::ReplyView;

verus! {

/// The members that remain after a post: those whose entry in `kept` is true,
/// in their old order.
pub open spec fn retained<H>(members: Seq<H>, kept: Seq<bool>) -> Seq<H>
    decreases members.len(),
{
    if members.len() == 0 {
        Seq::empty()
    } else {
        let rest = retained(members.drop_last(), kept.take(members.len() - 1));
        if kept[members.len() - 1] {
            rest.push(members.last())
        } else {
            rest
        }
    }
}

/// The outcome of offering one reply to each of `boxes`.
pub open spec fn outcomes(boxes: Seq<MailboxView>) -> Seq<bool> {
    boxes.map_values(|m: MailboxView| offer_accepted(m))
}

/// `after` is `before` with the reply `r` queued at its end.
pub open spec fn received(before: MailboxView, after: MailboxView, r: ReplyView) -> bool {
    after.queue == before.queue.push(EventView { dropped: before.dropped, reply: r })
}

/// `after` is `before` with the reply counted as dropped, to be reported
/// with the next reply that is queued.
pub open spec fn counted(before: MailboxView, after: MailboxView) -> bool {
    after.queue == before.queue && after.dropped == one_more(before.dropped)
}

/// Who remains after a post: exactly the handles that stood at some place
/// whose outcome was kept.
pub proof fn lemma_retained_members<H>(members: Seq<H>, kept: Seq<bool>, x: H)
    requires
        kept.len() == members.len(),
    ensures
        retained(members, kept).contains(x) <==> exists|j: int|
            0 <= j < members.len() && members[j] == x && kept[j],
    decreases members.len(),
{
    if members.len() > 0 {
        let n = members.len() - 1;
        let ms = members.drop_last();
        let ks = kept.take(n);
        lemma_retained_members(ms, ks, x);
        if retained(members, kept).contains(x) {
            if kept[n] && x == members.last() {
                assert(members[n] == x && kept[n]);
            } else {
                let rest = retained(ms, ks);
                if kept[n] {
                    let k = choose|k: int| 0 <= k < rest.push(members.last()).len()
                        && rest.push(members.last())[k] == x;
                    assert(k < rest.len());
                    assert(rest.contains(x));
                }
                let j = choose|j: int| 0 <= j < ms.len() && ms[j] == x && ks[j];
                assert(members[j] == x && kept[j]);
            }
        }
        if exists|j: int| 0 <= j < members.len() && members[j] == x && kept[j] {
            let j = choose|j: int| 0 <= j < members.len() && members[j] == x && kept[j];
            let rest = retained(ms, ks);
            if j == n {
                assert(retained(members, kept) == rest.push(members.last()));
                assert(retained(members, kept)[rest.len() as int] == x);
            } else {
                assert(ms[j] == x && ks[j]);
                assert(rest.contains(x));
                let k = choose|k: int| 0 <= k < rest.len() && rest[k] == x;
                if kept[n] {
                    assert(retained(members, kept)[k] == x);
                }
            }
        }
    }
}

/// Posting a reply to a group accounts for every member present. A member
/// whose client is still there has the reply queued in its mailbox, or
/// counted as dropped (reported with the next reply that gets through). A
/// member whose client is gone is no longer in the group once the post is
/// done, whichever other places its handle stood at. A handle reaches one
/// mailbox, so equal handles stand for equal mailboxes.
pub proof fn lemma_post_accounts_for_members<H>(
    members: Seq<H>,
    boxes: Seq<MailboxView>,
    r: ReplyView,
)
    requires
        members.len() == boxes.len(),
        forall|i: int, j: int|
            0 <= i < members.len() && 0 <= j < members.len() && members[i] == members[j]
                ==> boxes[i] == boxes[j],
    ensures
        forall|i: int|
            0 <= i < members.len() && !boxes[i].closed ==> {
                ||| received(boxes[i], #[trigger] offer_spec(boxes[i], r), r)
                ||| counted(boxes[i], offer_spec(boxes[i], r))
            },
        forall|i: int|
            0 <= i < members.len() && #[trigger] boxes[i].closed ==> !retained(
                members,
                outcomes(boxes),
            ).contains(members[i]),
{
    assert forall|i: int| 0 <= i < members.len() && #[trigger] boxes[i].closed implies !retained(
        members,
        outcomes(boxes),
    ).contains(members[i]) by {
        lemma_retained_members(members, outcomes(boxes), members[i]);
        if retained(members, outcomes(boxes)).contains(members[i]) {
            let j = choose|j: int|
                0 <= j < members.len() && members[j] == members[i] && outcomes(boxes)[j];
            assert(boxes[j] == boxes[i]);
        }
    }
}

/// A chat group whose members are reached through handles of type `H`.
pub struct Group<H> {
    name: String,
    members: Vec<H>,
}

impl<H> Group<H> {
    pub closed spec fn name_view(&self) -> Seq<char> {
        self.name@
    }

    pub closed spec fn members_view(&self) -> Seq<H> {
        self.members@
    }

    /// A group named `name` with no members.
    pub fn new(name: String) -> (r: Group<H>)
        ensures
            r.name_view() == name@,
            r.members_view() == Seq::<H>::empty(),
    {
        Group { name, members: Vec::new() }
    }

    /// The group's name.
    pub fn name(&self) -> (r: &String)
        ensures
            r@ == self.name_view(),
    {
        &self.name
    }

    /// The handles of the current members, oldest first.
    pub fn members(&self) -> (r: &Vec<H>)
        ensures
            r@ == self.members_view(),
    {
        &self.members
    }

    /// Adds `member`. A client that joins twice is listed twice.
    pub fn join(&mut self, member: H)
        ensures
            final(self).name_view() == old(self).name_view(),
            final(self).members_view() == old(self).members_view().push(member),
    {
        self.members.push(member);
    }

    /// Posts to every member: calls `deliver` on each member's handle, in
    /// order, and keeps exactly the members for which it returned true
    /// (their mailbox took the message or counted it as dropped); the
    /// others, whose client is gone, leave the group.
    pub fn send<F: Fn(&H) -> bool>(&mut self, deliver: F)
        requires
            forall|h: &H| #[trigger] deliver.requires((h,)),
        ensures
            final(self).name_view() == old(self).name_view(),
            exists|kept: Seq<bool>|
                {
                    &&& kept.len() == old(self).members_view().len()
                    &&& forall|i: int|
                        0 <= i < kept.len() ==> deliver.ensures(
                            (&old(self).members_view()[i],),
                            #[trigger] kept[i],
                        )
                    &&& final(self).members_view() == retained(old(self).members_view(), kept)
                },
    {
        let mut kept: Vec<bool> = Vec::new();
        let n = self.members.len();
        for i in 0..n
            invariant
                n == self.members@.len(),
                self.members@ == old(self).members_view(),
                self.name@ == old(self).name_view(),
                kept@.len() == i,
                forall|h: &H| #[trigger] deliver.requires((h,)),
                forall|j: int| 0 <= j < i ==> deliver.ensures((&self.members@[j],), #[trigger] kept@[j]),
        {
            let k = deliver(&self.members[i]);
            kept.push(k);
        }
        self.prune(&kept);
    }

    /// Ends a post: keeps the members whose mailbox took the message
    /// (`kept[i]` for the member at `i`), and drops the others.
    pub fn prune(&mut self, kept: &Vec<bool>)
        requires
            kept@.len() == old(self).members_view().len(),
        ensures
            final(self).name_view() == old(self).name_view(),
            final(self).members_view() == retained(old(self).members_view(), kept@),
    {
        let ghost ms = self.members@;
        let mut rest: Vec<H> = Vec::new();
        let mut old_members: Vec<H> = Vec::new();
        std::mem::swap(&mut old_members, &mut self.members);
        let n = kept.len();
        let mut i: usize = 0;
        for m in it: old_members
            invariant
                it.seq() == ms,
                i == it.index(),
                i <= ms.len(),
                n == kept@.len(),
                kept@.len() == ms.len(),
                ms == old(self).members_view(),
                self.name@ == old(self).name_view(),
                rest@ == retained(ms.take(i as int), kept@.take(i as int)),
        {
            proof {
                assert(ms.take(i + 1).drop_last() =~= ms.take(i as int));
                assert(kept@.take(i + 1).take(i as int) =~= kept@.take(i as int));
            }
            if kept[i] {
                rest.push(m);
            }
            i = i + 1;
        }
        proof {
            assert(ms.take(i as int) =~= ms);
            assert(kept@.take(i as int) =~= kept@);
        }
        self.members = rest;
    }
}

} // verus!
