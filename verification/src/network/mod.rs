//! The messages that nodes exchange, and their framing.

pub mod message;
pub mod session;

pub use message::{InvMessage, InvType, Message, MessageType, VersionMessage};
