//! The core of an HTTP client agent that runs many curl transfers at once.
//!
//! The agent runs the event loop of a curl multi handle in a thread of its own.
//! All that it decides is decided here; what touches curl, the poller, other
//! threads or the clock is left to whoever drives it, one action at a time.
pub mod agent;
pub mod builder;
pub mod handle;
pub mod laws;
pub mod message;
pub mod model;
pub mod protocol;
pub mod queue;
pub mod requests;
pub mod slab_model;
pub mod sockets;
pub mod spawn;
pub mod step_laws;
pub mod task;
pub mod thread_laws;
pub mod util;
