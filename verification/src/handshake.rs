//! The messages two nodes exchange when a connection opens.
use vstd::prelude::*;

verus! {

/// What a node offers on a connection, with the number of channels.
pub enum NodeFlags {
    ReadOnly(usize),
    WriteOnly(usize),
    ReadWrite(usize),
}

/// The opening request of a node.
pub struct HandshakeRequest {
    flags: Vec<NodeFlags>,
    node_name: Option<String>,
}

/// The answer to a [`HandshakeRequest`].
pub struct HandshakeResponse {
    suggested_name: Option<String>,
    challenge: String,
}

/// What travels on a distributed channel: the handshake, or a message.
pub enum Packet<T> {
    HandshakeRequest,
    HandshakeResponse,
    Msg(T),
}

} // verus!
