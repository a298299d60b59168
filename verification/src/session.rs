//! The life of one secure session with one host, as a state machine.

use crate::error::{Error, ErrorClass};
use vstd::prelude::*;

verus! {

/// How long a connection attempt may take, in milliseconds.
pub const TIMEOUT_MS: u32 = 5000;

/// The remote file that every upload overwrites.
pub const FILE_NAME: &'static str = "printfile";

/// The permission bits of the uploaded file.
pub const FILE_MODE: i32 = 0o644;

/// Where a session stands.
#[derive(Debug, Clone, Copy, PartialEq, Eq, Structural)]
pub enum SessionState {
    /// Nothing has been opened yet.
    Disconnected,
    /// The transport is up, nobody has logged in.
    Connected,
    /// Logged in: files can be sent and commands run.
    Authenticated,
    /// Released after use.
    Closed,
    /// An operation failed; the session is of no further use.
    Failed,
}

/// What can be asked of a session.
#[derive(Debug, Clone, Copy, PartialEq, Eq, Structural)]
pub enum Operation {
    Connect,
    Authenticate,
    Upload,
    Execute,
}

/// Whether a session in `state` accepts `op`.
pub open spec fn permits(state: SessionState, op: Operation) -> bool {
    match op {
        Operation::Connect => state == SessionState::Disconnected,
        Operation::Authenticate => state == SessionState::Connected,
        Operation::Upload => state == SessionState::Authenticated,
        Operation::Execute => state == SessionState::Authenticated,
    }
}

/// The state after `op` has succeeded.
pub open spec fn after(state: SessionState, op: Operation) -> SessionState {
    match op {
        Operation::Connect => SessionState::Connected,
        Operation::Authenticate => SessionState::Authenticated,
        Operation::Upload => state,
        Operation::Execute => state,
    }
}

/// The class of failure that a failed `op` stands for.
pub open spec fn failure_class(op: Operation) -> ErrorClass {
    match op {
        Operation::Connect => ErrorClass::Transport,
        Operation::Authenticate => ErrorClass::Authentication,
        Operation::Upload => ErrorClass::Io,
        Operation::Execute => ErrorClass::Io,
    }
}

/// Whether `state` is one of the two that a session never leaves.
pub open spec fn terminal(state: SessionState) -> bool {
    state == SessionState::Closed || state == SessionState::Failed
}

/// Whether a transport is held in `state`.
pub open spec fn holds_transport(state: SessionState) -> bool {
    state == SessionState::Connected || state == SessionState::Authenticated
}

/// The state after the session has been released.
pub open spec fn released(state: SessionState) -> SessionState {
    if terminal(state) {
        state
    } else {
        SessionState::Closed
    }
}

/// One session with one host.
#[derive(Debug)]
pub struct TransferSession {
    state: SessionState,
}

impl View for TransferSession {
    type V = SessionState;

    closed spec fn view(&self) -> SessionState {
        self.state
    }
}

impl TransferSession {
    /// A session that has not connected yet.
    pub fn new() -> (s: TransferSession)
        ensures
            s@ == SessionState::Disconnected,
    {
        TransferSession { state: SessionState::Disconnected }
    }

    /// Where the session stands.
    pub fn state(&self) -> (s: SessionState)
        ensures
            s == self@,
    {
        self.state
    }

    /// Tells whether `op` may be asked of the session now.
    pub fn accepts(&self, op: Operation) -> (b: bool)
        ensures
            b == permits(self@, op),
    {
        match op {
            Operation::Connect => self.state == SessionState::Disconnected,
            Operation::Authenticate => self.state == SessionState::Connected,
            Operation::Upload => self.state == SessionState::Authenticated,
            Operation::Execute => self.state == SessionState::Authenticated,
        }
    }

    /// Tells whether the session holds a transport that is still to be
    /// released.
    pub fn is_open(&self) -> (b: bool)
        ensures
            b == holds_transport(self@),
    {
        self.state == SessionState::Connected || self.state == SessionState::Authenticated
    }

    /// Records that `op` went through.
    pub fn succeed(&mut self, op: Operation)
        requires
            permits(old(self)@, op),
        ensures
            final(self)@ == after(old(self)@, op),
    {
        match op {
            Operation::Connect => {
                self.state = SessionState::Connected;
            },
            Operation::Authenticate => {
                self.state = SessionState::Authenticated;
            },
            Operation::Upload => {},
            Operation::Execute => {},
        }
    }

    /// Records that `op` failed with the given text, and names the failure.
    /// The session is of no use after that.
    pub fn fail(&mut self, op: Operation, message: &str) -> (e: Error)
        requires
            permits(old(self)@, op),
        ensures
            final(self)@ == SessionState::Failed,
            e.class_of() == failure_class(op),
            e.text() == message@,
    {
        self.state = SessionState::Failed;
        match op {
            Operation::Connect => Error::of_class(ErrorClass::Transport, message),
            Operation::Authenticate => Error::of_class(ErrorClass::Authentication, message),
            Operation::Upload => Error::of_class(ErrorClass::Io, message),
            Operation::Execute => Error::of_class(ErrorClass::Io, message),
        }
    }

    /// Releases the session. One that has ended already stays as it is.
    pub fn close(&mut self)
        ensures
            final(self)@ == released(old(self)@),
    {
        match self.state {
            SessionState::Closed => {},
            SessionState::Failed => {},
            _ => {
                self.state = SessionState::Closed;
            },
        }
    }
}

/// No operation is accepted once a session has ended, and ending it again
/// changes nothing.
pub proof fn lemma_terminal_is_final(state: SessionState, op: Operation)
    requires
        terminal(state),
    ensures
        !permits(state, op),
        released(state) == state,
{
}

/// Files are sent and commands run only after the host has accepted the
/// credentials, and the credentials are offered only over a transport that
/// is up.
pub proof fn lemma_order_of_operations(state: SessionState, op: Operation)
    requires
        permits(state, op),
    ensures
        op == Operation::Upload || op == Operation::Execute ==> state
            == SessionState::Authenticated,
        op == Operation::Authenticate ==> state == SessionState::Connected,
        !terminal(state),
        !terminal(after(state, op)),
{
}

} // verus!
