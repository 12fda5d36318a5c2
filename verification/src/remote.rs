//! Decisions of the shared roadmap server: what a task update does to the
//! completion date, and what a live connection does with each event.

use vstd::prelude::*;
use crate::text::str_eq;

verus! {

/// What a task update does to the task's completion date.
pub enum CompletionChange {
    /// The date stays as it is.
    Keep,
    /// The date becomes now.
    Stamp,
    /// The date is removed.
    Clear,
}

/// What a task update does to the completion date: a task that becomes done
/// is dated now, a task set to another status loses its date, a task done
/// and set done again, or whose status is not changed, keeps it.
pub open spec fn completion_effect(old_status: Seq<char>, new_status: Option<Seq<char>>) -> CompletionChange {
    match new_status {
        None => CompletionChange::Keep,
        Some(s) => if s == "done"@ && old_status != "done"@ {
            CompletionChange::Stamp
        } else if s != "done"@ {
            CompletionChange::Clear
        } else {
            CompletionChange::Keep
        },
    }
}

/// What a task update does to the completion date (see
/// `completion_effect`).
pub fn completion_change(old_status: &str, new_status: Option<&str>) -> (r: CompletionChange)
    ensures
        r == completion_effect(
            old_status@,
            match new_status {
                Some(s) => Some(s@),
                None => None,
            },
        ),
{
    match new_status {
        None => CompletionChange::Keep,
        Some(s) => {
            if str_eq(s, "done") && !str_eq(old_status, "done") {
                CompletionChange::Stamp
            } else if !str_eq(s, "done") {
                CompletionChange::Clear
            } else {
                CompletionChange::Keep
            }
        },
    }
}

/// What happens on a live connection.
pub enum SocketEvent {
    /// A message broadcast to the project.
    Broadcast(String),
    /// The client pinged, with this payload.
    Ping(Vec<u8>),
    /// The client closed the connection, or it ended.
    Closed,
    /// Anything else the client sent.
    Other,
    /// Sending to the client failed.
    SendFailed,
}

/// What the connection does next.
pub enum SocketAction {
    /// Send this text to the client.
    Send(String),
    /// Answer the ping with this payload.
    Pong(Vec<u8>),
    /// Wait for the next event.
    Wait,
    /// Leave the project and stop.
    Stop,
}

/// The step of a live connection: broadcasts go to the client, pings are
/// answered, a close or a failed send ends it, anything else is ignored.
pub fn socket_step(event: SocketEvent) -> (r: SocketAction)
    ensures
        match event {
            SocketEvent::Broadcast(m) => r == SocketAction::Send(m),
            SocketEvent::Ping(p) => r == SocketAction::Pong(p),
            SocketEvent::Closed => r is Stop,
            SocketEvent::SendFailed => r is Stop,
            SocketEvent::Other => r is Wait,
        },
{
    match event {
        SocketEvent::Broadcast(m) => SocketAction::Send(m),
        SocketEvent::Ping(p) => SocketAction::Pong(p),
        SocketEvent::Closed => SocketAction::Stop,
        SocketEvent::SendFailed => SocketAction::Stop,
        SocketEvent::Other => SocketAction::Wait,
    }
}

} // verus!
