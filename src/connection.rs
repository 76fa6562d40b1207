//! Handles around the transport: the factory, an established connection, and
//! the transport's error.
use vstd::prelude::*;
use std::sync::Arc;
use webrtc::peer_connection::RTCPeerConnection;

verus! {

#[verifier::external_type_specification]
#[verifier::external_body]
pub struct ExPeerConnection(webrtc::peer_connection::RTCPeerConnection);

/// Errors that the transport reports while a connection is set up.
#[derive(Debug, Clone, Copy, PartialEq, Eq, Structural)]
pub enum Error {
    WebrtcError,
}

impl Error {
    /// A short description of the error.
    pub fn message(&self) -> (r: String)
        ensures
            r@ == "webrtc error"@,
    {
        "webrtc error".to_owned()
    }
}

/// Factory for connections; it holds no state of its own.
#[derive(Debug, Clone, Copy, PartialEq, Eq, Structural)]
pub struct Webrtc {}

impl Webrtc {
    pub fn new() -> (r: Self)
        ensures
            r == (Webrtc {}),
    {
        Webrtc {}
    }
}

/// An established connection, holding the transport's peer connection.
pub struct Connection {
    peer_connection: Arc<RTCPeerConnection>,
}

impl Connection {
    pub closed spec fn peer(&self) -> Arc<RTCPeerConnection> {
        self.peer_connection
    }

    pub fn new(peer_connection: Arc<RTCPeerConnection>) -> (r: Self)
        ensures
            r.peer() == peer_connection,
    {
        Connection { peer_connection }
    }

    /// The peer connection.
    pub fn peer_connection(&self) -> (r: &Arc<RTCPeerConnection>)
        ensures
            *r == self.peer(),
    {
        &self.peer_connection
    }
}

} // verus!
