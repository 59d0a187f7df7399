//! What one client connection decides for each request it reads.
//!
//! A session remembers the groups its client joined. A post goes only to a
//! group the client joined; a post to any other group is answered with an
//! error to that client alone and touches no group.

use vstd::prelude::*;
use crate::protocol::{Request, Reply, RequestView, ReplyView};
use crate::groups::{Groups, GroupsView};

verus! {

/// The text of the error a client gets for posting to `group` unjoined.
pub open spec fn not_member_text(group: Seq<char>) -> Seq<char> {
    "Not a member of '"@ + group + "'"@
}

/// What the connection is to do next.
#[derive(Debug)]
pub enum Step {
    /// Find or create the group `group`, add this client to it, and record
    /// it with `joined`.
    Join { group: String },
    /// Post `message` to the joined group at place `slot`.
    Post { slot: usize, message: String },
    /// Send `reply` to this client only.
    Reply { reply: Reply },
}

/// The next step decided for a request, given the names of the groups joined.
pub open spec fn step_matches(joined: Seq<Seq<char>>, req: RequestView, step: Step) -> bool {
    match req {
        RequestView::Join { group } => step matches Step::Join { group: g } && g@ == group,
        RequestView::Post { group, message } => if joined.contains(group) {
            step matches Step::Post { slot, message: m } && slot < joined.len()
                && joined[slot as int] == group && m@ == message
        } else {
            step matches Step::Reply { reply } && reply@ == ReplyView::Error {
                message: not_member_text(group),
            }
        },
    }
}

/// The groups one client has joined, each reached through a handle of type `H`.
pub struct Session<H> {
    joined: Groups<H>,
}

impl<H> View for Session<H> {
    type V = GroupsView<H>;

    closed spec fn view(&self) -> GroupsView<H> {
        self.joined@
    }
}

impl<H> Session<H> {
    pub open spec fn wf(&self) -> bool {
        crate::groups::groups_wf(self@)
    }

    /// A session that has joined nothing.
    pub fn new() -> (r: Session<H>)
        ensures
            r.wf(),
            r@.names == Seq::<Seq<char>>::empty(),
    {
        Session { joined: Groups::new() }
    }

    /// Decides what to do with `req`.
    pub fn handle(&self, req: Request) -> (r: Step)
        requires
            self.wf(),
        ensures
            step_matches(self@.names, req@, r),
    {
        match req {
            Request::Join { group } => Step::Join { group },
            Request::Post { group, message } => match self.joined.find(&group) {
                Some(slot) => Step::Post { slot, message },
                None => {
                    let mut text = String::from_str("Not a member of '");
                    text.append(group.as_str());
                    text.append("'");
                    Step::Reply { reply: Reply::Error { message: text } }
                },
            },
        }
    }

    /// Records that the client joined the group `name`, reached through
    /// `group`. A name joined before keeps the handle it was recorded with:
    /// the registry hands out one group per name.
    pub fn record_join(&mut self, name: &String, group: H) -> (r: usize)
        requires
            old(self).wf(),
        ensures
            final(self).wf(),
            final(self)@ == crate::groups::get_or_create_spec(old(self)@, name@, group),
            r < final(self)@.names.len(),
            final(self)@.names[r as int] == name@,
    {
        self.joined.get_or_create(name, group)
    }

    /// The handle of the joined group at place `slot`.
    pub fn group_at(&self, slot: usize) -> (r: &H)
        requires
            self.wf(),
            slot < self@.groups.len(),
        ensures
            *r == self@.groups[slot as int],
    {
        self.joined.get(slot)
    }
}

} // verus!
