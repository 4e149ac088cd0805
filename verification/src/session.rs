//! One logical client connection, regardless of transport.

use vstd::prelude::*;

verus! {

/// Which transport a session speaks.
#[derive(Clone, Copy, PartialEq, Eq, Structural, Debug)]
pub enum Transport {
    RawSocket,
    WebSocket,
}

/// Lifecycle of a session. The state only ever moves forward: a closed
/// session is never reopened.
#[derive(Clone, Copy, PartialEq, Eq, Structural, Debug)]
pub enum SessionState {
    Connecting,
    Open,
    Closing,
    Closed,
}

/// How far along its lifecycle a state is; transitions never decrease it.
pub open spec fn state_rank(s: SessionState) -> int {
    match s {
        SessionState::Connecting => 0,
        SessionState::Open => 1,
        SessionState::Closing => 2,
        SessionState::Closed => 3,
    }
}

/// One live connection: an opaque id unique for the session's lifetime, the
/// peer address captured at accept time (informational only), the transport,
/// and the lifecycle state. The I/O handle itself is owned by the caller's
/// read loop; a session is `Open` exactly while that handle is valid for
/// writing.
pub struct Session {
    pub id: u128,
    pub remote_address: String,
    pub transport: Transport,
    pub state: SessionState,
}

impl Session {
    /// A freshly accepted connection, not yet visible to dispatch.
    pub fn new(id: u128, remote_address: String, transport: Transport) -> (s: Session)
        ensures
            s == (Session { id, remote_address, transport, state: SessionState::Connecting }),
    {
        Session { id, remote_address, transport, state: SessionState::Connecting }
    }

    /// The session becomes reachable the instant it is registered.
    pub fn mark_open(&mut self)
        requires
            old(self).state == SessionState::Connecting,
        ensures
            final(self).state == SessionState::Open,
            final(self).id == old(self).id,
            final(self).remote_address == old(self).remote_address,
            final(self).transport == old(self).transport,
            state_rank(final(self).state) >= state_rank(old(self).state),
    {
        self.state = SessionState::Open;
    }

    /// An explicit close request was seen; the read loop will finish the
    /// teardown.
    pub fn mark_closing(&mut self)
        requires
            old(self).state == SessionState::Open,
        ensures
            final(self).state == SessionState::Closing,
            final(self).id == old(self).id,
            final(self).remote_address == old(self).remote_address,
            final(self).transport == old(self).transport,
            state_rank(final(self).state) >= state_rank(old(self).state),
    {
        self.state = SessionState::Closing;
    }

    /// Terminal teardown. Closing an already closed session changes nothing,
    /// so the transition is idempotent and the state stays monotonic.
    pub fn mark_closed(&mut self)
        ensures
            final(self).state == SessionState::Closed,
            final(self).id == old(self).id,
            final(self).remote_address == old(self).remote_address,
            final(self).transport == old(self).transport,
            state_rank(final(self).state) >= state_rank(old(self).state),
    {
        self.state = SessionState::Closed;
    }
}

} // verus!
