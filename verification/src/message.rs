//! The plain values that pass between the agent, its handles, curl and the
//! poller.
use crate::queue::{MultiMessage, TransferResult};
use crate::requests::EasyHandle;
use crate::sockets::Socket;
use vstd::prelude::*;

verus! {

/// A message sent to the agent thread.
#[derive(Debug, Clone, Copy, PartialEq, Eq)]
pub enum Message {
    /// Requests the agent to close.
    Close,
    /// Begin executing a new transfer.
    Execute(EasyHandle),
    /// Resume reading the request body of the transfer with this token.
    UnpauseRead(usize),
    /// Resume writing the response body of the transfer with this token.
    UnpauseWrite(usize),
}

/// What one of curl's messages says: `None` where curl does not say it.
#[derive(Debug, Clone, Copy, PartialEq, Eq)]
pub struct CurlMessage {
    /// How the transfer ended, if the message is about its end.
    pub result: Option<TransferResult>,
    /// The token of the transfer, if curl could read it.
    pub token: Option<usize>,
}

impl CurlMessage {
    /// The finished transfer that the message reports, if it reports one.
    pub open spec fn finished(self) -> Option<MultiMessage> {
        match (self.result, self.token) {
            (Some(result), Some(token)) => Some((token, result)),
            _ => None,
        }
    }
}

/// The finished transfers that a list of messages reports, in order.
pub open spec fn finished(messages: Seq<CurlMessage>) -> Seq<MultiMessage>
    decreases messages.len(),
{
    if messages.len() == 0 {
        Seq::empty()
    } else {
        let before = finished(messages.drop_last());
        match messages.last().finished() {
            Some(message) => before.push(message),
            None => before,
        }
    }
}

/// Readiness of a registered socket, or the interest in it.
#[derive(Debug, Clone, Copy, PartialEq, Eq)]
pub struct Event {
    /// The key that the socket is registered under.
    pub key: usize,
    /// Readable, or interested in it.
    pub readable: bool,
    /// Writable, or interested in it.
    pub writable: bool,
}

/// What curl wants to know of a socket.
#[derive(Debug, Clone, Copy, PartialEq, Eq)]
pub struct SocketEvents {
    /// When it is readable.
    pub input: bool,
    /// When it is writable.
    pub output: bool,
    /// When it is readable or writable.
    pub input_and_output: bool,
    /// Nothing any more.
    pub remove: bool,
}

impl SocketEvents {
    /// Whether curl wants to know when the socket is readable.
    pub open spec fn spec_readable(self) -> bool {
        self.input || self.input_and_output
    }

    /// Whether curl wants to know when the socket is writable.
    pub open spec fn spec_writable(self) -> bool {
        self.output || self.input_and_output
    }

    /// Whether curl wants to know when the socket is readable.
    pub fn readable(&self) -> (result: bool)
        ensures
            result <==> self.input || self.input_and_output,
            result == self.spec_readable(),
    {
        self.input || self.input_and_output
    }

    /// Whether curl wants to know when the socket is writable.
    pub fn writable(&self) -> (result: bool)
        ensures
            result <==> self.output || self.input_and_output,
            result == self.spec_writable(),
    {
        self.output || self.input_and_output
    }
}

/// A change that curl asks for in how one socket is watched.
#[derive(Debug, Clone, Copy, PartialEq, Eq)]
pub struct SocketUpdate {
    /// The socket.
    pub socket: Socket,
    /// What curl wants to know of it.
    pub events: SocketEvents,
    /// The key that was assigned to the socket, or 0 where none was.
    pub key: usize,
}

/// The longest time in nanoseconds that the agent waits for activity.
pub const WAIT_TIMEOUT: u64 = 100_000_000;

/// How long to wait for activity, given the timeouts that curl asked for since
/// the last wait: the latest one, but no longer than `WAIT_TIMEOUT`.
pub open spec fn spec_wait_timeout(updates: Seq<Option<u128>>) -> int {
    if updates.len() > 0 && updates.last() is Some && updates.last()->0 < WAIT_TIMEOUT {
        updates.last()->0 as int
    } else {
        WAIT_TIMEOUT as int
    }
}

/// How long to wait for activity, in nanoseconds, given the timeouts that curl
/// asked for since the last wait, where `None` says that it needs none.
pub fn wait_timeout(updates: &Vec<Option<u128>>) -> (timeout: u64)
    ensures
        timeout == spec_wait_timeout(updates@),
        updates@.len() == 0 || updates@.last() is None ==> timeout == 100_000_000,
        updates@.len() > 0 && updates@.last() is Some ==> timeout <= updates@.last()->0,
        updates@.len() > 0 && updates@.last() is Some ==> timeout == updates@.last()->0 || timeout
            == 100_000_000,
        timeout <= 100_000_000,
{
    if updates.len() == 0 {
        return WAIT_TIMEOUT;
    }
    match updates[updates.len() - 1] {
        Some(timeout) => {
            if timeout < WAIT_TIMEOUT as u128 {
                timeout as u64
            } else {
                WAIT_TIMEOUT
            }
        },
        None => WAIT_TIMEOUT,
    }
}

} // verus!
