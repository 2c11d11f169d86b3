//! What the agent asks of the outside world, and what it is told in reply.
//!
//! The agent itself touches neither curl nor the poller nor any channel that
//! another thread holds. It hands out one action at a time; whoever drives it
//! performs the action and hands back the reply.
use crate::builder::MultiOption;
use crate::message::{CurlMessage, Event, Message, SocketUpdate};
use crate::queue::TransferResult;
use crate::requests::EasyHandle;
use crate::sockets::Socket;
use vstd::prelude::*;

verus! {

/// What the agent wants done next.
#[derive(Debug, Clone, Copy, PartialEq, Eq)]
pub enum Action {
    /// Set an option of the multi handle.
    SetOption(MultiOption),
    /// Have curl report its socket updates.
    InstallSocketFunction,
    /// Have curl report its timeouts.
    InstallTimerFunction,
    /// Tell whoever spawned the agent that it has started.
    SignalReady,
    /// Wait for a message from a handle.
    Receive,
    /// Look for a message from a handle, without waiting.
    TryReceive,
    /// Tell a transfer's handler its identifier, and which messages to send to
    /// the agent in order to resume reading and writing.
    InitHandler { handle: EasyHandle, id: usize, on_read: Message, on_write: Message },
    /// Add a transfer to the multi handle.
    AddHandle { handle: EasyHandle },
    /// Set the token of a transfer.
    SetToken { handle: EasyHandle, token: usize },
    /// Resume reading a transfer's request body.
    UnpauseRead { handle: EasyHandle },
    /// Resume writing a transfer's response body.
    UnpauseWrite { handle: EasyHandle },
    /// Tell curl that its timeout has passed.
    NotifyTimeout,
    /// Collect curl's messages.
    CollectMessages,
    /// Take a transfer out of the multi handle.
    RemoveHandle { handle: EasyHandle },
    /// Tell a transfer's handler how the transfer ended.
    DeliverResult { handle: EasyHandle, result: TransferResult },
    /// Look for a socket update from curl, without waiting.
    NextSocketUpdate,
    /// Have the poller forget a socket.
    PollerDelete { socket: Socket },
    /// Tell curl the key of a socket.
    AssignSocket { socket: Socket, key: usize },
    /// Add a socket to the poller.
    PollerAdd { socket: Socket, event: Event },
    /// Change the poller's interest in a socket.
    PollerModify { socket: Socket, event: Event },
    /// Collect the timeouts that curl has asked for.
    DrainTimeouts,
    /// Wait for activity, no longer than this many nanoseconds.
    Wait { timeout: u64 },
    /// Tell curl that a socket is ready.
    SocketAction { socket: Socket, readable: bool, writable: bool },
    /// The agent has stopped; nothing is left to do.
    Stop,
}

/// What came of an action.
#[derive(Debug)]
pub enum Reply<E> {
    /// It was done.
    Completed,
    /// It failed.
    Failed(E),
    /// A handle has sent this message.
    Message(Message),
    /// No handle has sent a message.
    NoMessage,
    /// All handles are gone.
    Disconnected,
    /// Curl has these messages.
    CurlMessages(Vec<CurlMessage>),
    /// Curl asks for this socket update.
    SocketUpdate(SocketUpdate),
    /// Curl asks for no further socket update.
    NoSocketUpdate,
    /// Curl has asked for these timeouts, in nanoseconds.
    Timeouts(Vec<Option<u128>>),
    /// These sockets are ready.
    Events(Vec<Event>),
}

/// Which of the two calls registers a socket with the poller, and whether the
/// other one has failed already.
#[derive(Debug, Clone, Copy, PartialEq, Eq)]
pub enum Attempt {
    /// Adding it, as the first attempt.
    Add,
    /// Adding it, after it could not be modified.
    AddAfterModify,
    /// Modifying it, as the first attempt.
    Modify,
    /// Modifying it, after it could not be added.
    ModifyAfterAdd,
}

/// What follows the registration of a socket with the poller.
#[derive(Debug, Clone, Copy, PartialEq, Eq)]
pub enum AfterRegistration {
    /// Curl's next socket update.
    NextUpdate,
    /// The re-registration of the ready sockets, from this index on.
    Rearm(usize),
}

/// Which reply the agent waits for.
#[derive(Debug, Clone, Copy, PartialEq, Eq)]
pub enum Phase {
    /// That the multi handle's options before `next` are set.
    Configuring { next: usize },
    /// That the socket function is installed.
    InstallingSocketFunction,
    /// That the timer function is installed.
    InstallingTimerFunction,
    /// That the start was signaled.
    SignalingReady,
    /// A message.
    Receiving { blocking: bool },
    /// That a transfer's handler is initialized.
    Initializing { handle: EasyHandle, id: usize },
    /// That a transfer is added to the multi handle.
    Adding { handle: EasyHandle, id: usize },
    /// That a transfer's token is set.
    SettingToken { handle: EasyHandle, id: usize },
    /// That a transfer is resumed.
    Unpausing,
    /// That curl knows of its timeout.
    Notifying,
    /// Curl's messages.
    Collecting,
    /// That a transfer is taken out of the multi handle.
    Removing { handle: EasyHandle, result: TransferResult },
    /// That a transfer's handler knows how the transfer ended.
    Delivering,
    /// Curl's next socket update.
    Updating,
    /// That the poller has forgotten a socket.
    Deleting,
    /// That curl knows the key of a socket.
    Assigning { socket: Socket, event: Event },
    /// That a socket is registered with the poller.
    Registering { socket: Socket, event: Event, attempt: Attempt, after: AfterRegistration },
    /// Curl's timeouts.
    DrainingTimeouts,
    /// Activity.
    Waiting,
    /// That curl knows of the readiness of the socket before index `next`.
    Performing { next: usize },
    /// None: the agent has stopped.
    Stopped,
}

} // verus!
