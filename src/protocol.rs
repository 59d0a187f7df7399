//! Requests and replies exchanged between clients and the server.

use vstd::prelude::*;

verus! {

/// A request from a chat client.
#[derive(Debug)]
pub enum Request {
    /// Forward the messages posted to `group` to this client.
    Join { group: String },
    /// Post `message` to `group`.
    Post { group: String, message: String },
}

/// A reply from the server to one client.
#[derive(Debug, Clone)]
pub enum Reply {
    /// `message` was posted to `group`, of which this client is a member.
    Message { group: String, message: String },
    /// `count` messages meant for this client were dropped before the next one.
    Dropped { count: u64 },
    /// Something this client asked for could not be done.
    Error { message: String },
}

/// What a request says, as text.
pub ghost enum RequestView {
    Join { group: Seq<char> },
    Post { group: Seq<char>, message: Seq<char> },
}

/// What a reply says, as text.
pub ghost enum ReplyView {
    Message { group: Seq<char>, message: Seq<char> },
    Dropped { count: nat },
    Error { message: Seq<char> },
}

impl View for Request {
    type V = RequestView;

    open spec fn view(&self) -> RequestView {
        match self {
            Request::Join { group } => RequestView::Join { group: group@ },
            Request::Post { group, message } => RequestView::Post {
                group: group@,
                message: message@,
            },
        }
    }
}

impl View for Reply {
    type V = ReplyView;

    open spec fn view(&self) -> ReplyView {
        match self {
            Reply::Message { group, message } => ReplyView::Message {
                group: group@,
                message: message@,
            },
            Reply::Dropped { count } => ReplyView::Dropped { count: *count as nat },
            Reply::Error { message } => ReplyView::Error { message: message@ },
        }
    }
}

} // verus!
