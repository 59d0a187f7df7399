use async_chat::group::Group;
use async_chat::mailbox::{Mailbox, CAPACITY};
use async_chat::protocol::{Reply, Request};
use async_chat::groups::Groups;
use async_chat::session::{Session, Step};
use std::cell::RefCell;

fn text(s: &str) -> String {
    s.to_string()
}

/// A small broker in one thread: mailboxes by client number, groups in a
/// registry, one session per client.
struct Broker {
    boxes: RefCell<Vec<Mailbox>>,
    groups: Groups<RefCell<Group<usize>>>,
    sessions: Vec<Session<usize>>,
}

impl Broker {
    fn new(clients: usize) -> Broker {
        let mut boxes = Vec::new();
        let mut sessions = Vec::new();
        for _ in 0..clients {
            boxes.push(Mailbox::new(CAPACITY));
            sessions.push(Session::new());
        }
        Broker { boxes: RefCell::new(boxes), groups: Groups::new(), sessions }
    }

    fn request(&mut self, client: usize, req: Request) {
        match self.sessions[client].handle(req) {
            Step::Join { group } => {
                let fresh = RefCell::new(Group::new(group.clone()));
                let at = self.groups.get_or_create(&group, fresh);
                self.groups.get(at).borrow_mut().join(client);
                self.sessions[client].record_join(&group, at);
            }
            Step::Post { slot, message } => {
                let at = *self.sessions[client].group_at(slot);
                let mut group = self.groups.get(at).borrow_mut();
                let name = group.name().clone();
                let boxes = &self.boxes;
                group.send(|m: &usize| boxes.borrow_mut()[*m].enqueue(&name, &message).is_ok());
            }
            Step::Reply { reply } => {
                let _ = self.boxes.borrow_mut()[client].offer(reply);
            }
        }
    }

    fn join(&mut self, client: usize, group: &str) {
        self.request(client, Request::Join { group: text(group) });
    }

    fn post(&mut self, client: usize, group: &str, message: &str) {
        self.request(client, Request::Post { group: text(group), message: text(message) });
    }

    fn received(&self, client: usize) -> Vec<Reply> {
        let mut out = Vec::new();
        while let Some(mut replies) = self.boxes.borrow_mut()[client].next_delivery() {
            out.append(&mut replies);
        }
        out
    }

    fn members(&self, group: &str) -> Vec<usize> {
        let at = self.groups.find(&text(group)).unwrap();
        let members = self.groups.get(at).borrow().members().clone();
        members
    }
}

fn is_message(r: &Reply, group: &str, message: &str) -> bool {
    match r {
        Reply::Message { group: g, message: m } => g == group && m == message,
        _ => false,
    }
}

#[test]
fn members_receive_posts_including_the_sender() {
    let mut b = Broker::new(2);
    b.join(0, "g");
    b.join(1, "g");
    b.post(0, "g", "hi");
    let to_b = b.received(1);
    assert_eq!(to_b.len(), 1);
    assert!(is_message(&to_b[0], "g", "hi"));
    let to_a = b.received(0);
    assert_eq!(to_a.len(), 1);
    assert!(is_message(&to_a[0], "g", "hi"));
}

#[test]
fn post_without_join_is_answered_with_an_error() {
    let mut b = Broker::new(2);
    b.join(1, "g");
    b.post(0, "h", "x");
    let to_c = b.received(0);
    assert_eq!(to_c.len(), 1);
    assert!(matches!(&to_c[0], Reply::Error { message } if message == "Not a member of 'h'"));
    assert!(b.groups.find(&text("h")).is_none());
    assert_eq!(b.groups.len(), 1);
    assert!(b.received(1).is_empty());
}

#[test]
fn disconnected_member_is_pruned_on_post() {
    let mut b = Broker::new(2);
    b.join(0, "g");
    b.join(1, "g");
    assert_eq!(b.members("g"), vec![0, 1]);
    b.boxes.borrow_mut()[0].close();
    b.post(1, "g", "anyone?");
    assert_eq!(b.members("g"), vec![1]);
    assert_eq!(b.boxes.borrow()[0].len(), 0);
    let to_e = b.received(1);
    assert_eq!(to_e.len(), 1);
    assert!(is_message(&to_e[0], "g", "anyone?"));
    b.post(1, "g", "again");
    assert_eq!(b.members("g"), vec![1]);
}

#[test]
fn every_member_receives_or_is_counted_or_leaves() {
    let mut b = Broker::new(3);
    b.join(0, "g");
    b.join(1, "g");
    b.join(2, "g");
    // Client 1 is slow: its mailbox fills up. Client 2 goes away.
    for i in 0..CAPACITY {
        b.boxes.borrow_mut()[1].enqueue(&text("other"), &format!("{}", i)).unwrap();
    }
    b.boxes.borrow_mut()[2].close();
    b.post(0, "g", "m");
    assert_eq!(b.boxes.borrow()[0].len(), 1);
    assert_eq!(b.boxes.borrow()[1].len(), CAPACITY);
    assert_eq!(b.boxes.borrow()[1].dropped(), 1);
    assert_eq!(b.members("g"), vec![0, 1]);
}

#[test]
fn joining_twice_lists_the_client_twice() {
    let mut b = Broker::new(1);
    b.join(0, "g");
    b.join(0, "g");
    assert_eq!(b.members("g"), vec![0, 0]);
    b.post(0, "g", "twice");
    assert_eq!(b.received(0).len(), 2);
}

#[test]
fn one_group_per_name() {
    let mut r: Groups<u32> = Groups::new();
    let x = text("x");
    let first = r.get_or_create(&x, 1);
    for k in 2..20 {
        assert_eq!(r.get_or_create(&x, k), first);
    }
    assert_eq!(r.len(), 1);
    assert_eq!(*r.get(first), 1);
    let y = r.get_or_create(&text("y"), 7);
    assert_ne!(y, first);
    assert_eq!(r.get_or_create(&x, 99), first);
    assert_eq!(*r.get(first), 1);
    assert_eq!(*r.get(y), 7);
    assert_eq!(r.find(&text("z")), None);
}

#[test]
fn groups_are_independent() {
    let mut b = Broker::new(2);
    b.join(0, "a");
    b.join(1, "b");
    b.post(0, "a", "to a");
    assert_eq!(b.received(0).len(), 1);
    assert!(b.received(1).is_empty());
}

#[test]
fn prune_keeps_marked_members_in_order() {
    let mut g: Group<u8> = Group::new(text("g"));
    for m in [5u8, 6, 7, 8] {
        g.join(m);
    }
    g.prune(&vec![true, false, true, false]);
    assert_eq!(g.members(), &vec![5, 7]);
    assert_eq!(g.name(), "g");
}

#[test]
fn session_decisions() {
    let mut s: Session<char> = Session::new();
    assert!(matches!(s.handle(Request::Join { group: text("g") }), Step::Join { group } if group == "g"));
    assert_eq!(s.record_join(&text("g"), 'a'), 0);
    assert_eq!(s.record_join(&text("g"), 'b'), 0);
    assert_eq!(*s.group_at(0), 'a');
    match s.handle(Request::Post { group: text("g"), message: text("m") }) {
        Step::Post { slot, message } => {
            assert_eq!(slot, 0);
            assert_eq!(message, "m");
        }
        _ => panic!("expected a post"),
    }
    match s.handle(Request::Post { group: text("k"), message: text("m") }) {
        Step::Reply { reply: Reply::Error { message } } => assert_eq!(message, "Not a member of 'k'"),
        _ => panic!("expected an error"),
    }
}
