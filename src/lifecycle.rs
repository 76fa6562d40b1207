//! The coarse connection lifecycle signal, derived from transport states.
use vstd::prelude::*;

verus! {

/// Coarse lifecycle signal that the dispatcher waits on.
#[derive(Debug, Clone, Copy, PartialEq, Eq, Structural)]
pub enum State {
    Connected,
    Disconnected,
}

/// The transport's fine-grained peer connection states.
#[derive(Debug, Clone, Copy, PartialEq, Eq, Structural)]
pub enum PeerConnectionState {
    Unspecified,
    New,
    Connecting,
    Connected,
    Disconnected,
    Failed,
    Closed,
}

/// The signal that a peer connection state maps to, if any.
pub open spec fn signal_spec(s: PeerConnectionState) -> Option<State> {
    match s {
        PeerConnectionState::Connected => Some(State::Connected),
        PeerConnectionState::Disconnected
        | PeerConnectionState::Failed
        | PeerConnectionState::Closed => Some(State::Disconnected),
        _ => None,
    }
}

/// Maps a peer connection state to the signal to enqueue: `Connected` for a
/// fully connected peer, `Disconnected` for a disconnected, failed or closed
/// one, and nothing for the states in between.
pub fn lifecycle_signal(s: PeerConnectionState) -> (r: Option<State>)
    ensures
        r == signal_spec(s),
{
    match s {
        PeerConnectionState::Connected => Some(State::Connected),
        PeerConnectionState::Disconnected
        | PeerConnectionState::Failed
        | PeerConnectionState::Closed => Some(State::Disconnected),
        _ => None,
    }
}

} // verus!
