//! How sockets are opened, and how messages are sent and received on them.
//!
//! Each phase of an exchange says which of these belong to the operation that it waits for.
use vstd::prelude::*;

verus! {

/// How a socket is opened or accepted.
#[derive(Clone, Copy, Debug, PartialEq, Eq, Structural)]
pub struct SocketOptions {
    /// The socket is closed on exec, so that no other program inherits it.
    pub close_on_exec: bool,
    /// Operations on the socket do not wait.
    pub nonblocking: bool,
}

/// How a message is sent.
#[derive(Clone, Copy, Debug, PartialEq, Eq, Structural)]
pub struct SendOptions {
    /// Sending does not wait.
    pub dont_wait: bool,
    /// No signal is raised where the other side is gone.
    pub no_signal: bool,
}

/// How a message is received.
#[derive(Clone, Copy, Debug, PartialEq, Eq, Structural)]
pub struct ReceiveOptions {
    /// Receiving does not wait.
    pub dont_wait: bool,
    /// The length that is reported is the message's own, also where the buffer is too short for it.
    pub full_length: bool,
    /// Descriptors that travelled beside the message are closed on exec.
    pub close_on_exec: bool,
}

} // verus!
