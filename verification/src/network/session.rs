//! What a node decides when a message arrives: the steps of the handshake
//! and the replies of an established session. Sending and receiving is the
//! caller's part.

use crate::error::ErrorKind;
use crate::network::message::{Message, VersionMessage};
use vstd::prelude::*;

verus! {

/// What a peer says of itself in its version message.
#[derive(Debug)]
pub struct PeerVersion {
    pub version: u32,
    pub services: u64,
    pub start_height: u32,
    pub user_agent: String,
}

/// Where a handshake stands.
#[derive(Debug, Clone, Copy, PartialEq, Eq, Structural)]
pub enum HandshakeState {
    /// Our version is sent; the peer's is awaited.
    AwaitingVersion,
    /// Our acknowledgement is sent; the peer's is awaited.
    AwaitingVerack,
    /// Both sides have acknowledged.
    Done,
}

/// What a message does to a handshake.
pub struct HandshakeStep {
    /// The state after the message.
    pub state: HandshakeState,
    /// What the peer said of itself, where the message was its version.
    pub peer: Option<PeerVersion>,
    /// The message to send back, if any.
    pub reply: Option<Message>,
}

impl HandshakeState {
    /// The message that opens a handshake: our version, addressed to the
    /// peer, with the height of our chain.
    pub fn opening(peer_addr: String, our_height: u32) -> (r: (HandshakeState, Message))
        ensures
            r.0 == HandshakeState::AwaitingVersion,
            r.1 matches Message::Version(v) && v.version == 1 && v.start_height == our_height
                && v.addr_recv == peer_addr,
    {
        let version = VersionMessage::new(peer_addr, "0.0.0.0:0".to_owned(), our_height);
        (HandshakeState::AwaitingVersion, Message::Version(version))
    }

    /// The next step of a handshake. The peer's version is answered with an
    /// acknowledgement; after the peer's acknowledgement the handshake is
    /// done. Any other message at these two points is an error. After the
    /// handshake a message changes nothing.
    pub fn on_message(self, message: Message) -> (r: Result<HandshakeStep, ErrorKind>)
        ensures
            match (self, message) {
                (HandshakeState::AwaitingVersion, Message::Version(v)) => r matches Ok(step)
                    && step.state == HandshakeState::AwaitingVerack && step.reply == Some(
                    Message::Verack,
                ) && step.peer == Some(
                    PeerVersion {
                        version: v.version,
                        services: v.services,
                        start_height: v.start_height,
                        user_agent: v.user_agent,
                    },
                ),
                (HandshakeState::AwaitingVerack, Message::Verack) => r matches Ok(step)
                    && step.state == HandshakeState::Done && step.reply is None && step.peer
                    is None,
                (HandshakeState::Done, _) => r matches Ok(step) && step.state
                    == HandshakeState::Done && step.reply is None && step.peer is None,
                _ => r matches Err(e) && e == ErrorKind::UnexpectedMessage,
            },
    {
        match self {
            HandshakeState::AwaitingVersion => match message {
                Message::Version(v) => Ok(
                    HandshakeStep {
                        state: HandshakeState::AwaitingVerack,
                        peer: Some(
                            PeerVersion {
                                version: v.version,
                                services: v.services,
                                start_height: v.start_height,
                                user_agent: v.user_agent,
                            },
                        ),
                        reply: Some(Message::Verack),
                    },
                ),
                _ => Err(ErrorKind::UnexpectedMessage),
            },
            HandshakeState::AwaitingVerack => match message {
                Message::Verack => Ok(
                    HandshakeStep { state: HandshakeState::Done, peer: None, reply: None },
                ),
                _ => Err(ErrorKind::UnexpectedMessage),
            },
            HandshakeState::Done => Ok(
                HandshakeStep { state: HandshakeState::Done, peer: None, reply: None },
            ),
        }
    }
}

/// The reply that an established session owes to a message: a pong with the
/// nonce of a ping, and nothing to any other message.
pub fn reply_to(message: &Message) -> (reply: Option<Message>)
    ensures
        match *message {
            Message::Ping(nonce) => reply == Some(Message::Pong(nonce)),
            _ => reply is None,
        },
{
    match message {
        Message::Ping(nonce) => Some(Message::Pong(*nonce)),
        _ => None,
    }
}

/// The payload length that a 16-byte frame header announces.
pub fn payload_length(header: &[u8; 16]) -> (len: u32)
    ensures
        len == vstd::bytes::spec_u32_from_le_bytes(header@.subrange(12, 16)),
{
    vstd::bytes::u32_from_le_bytes(vstd::slice::slice_subrange(header.as_slice(), 12, 16))
}

} // verus!
