use bit_coin::network::message::MessageType;
use bit_coin::network::session::{payload_length, reply_to, HandshakeState};
use bit_coin::network::{InvMessage, InvType, Message, VersionMessage};
use bit_coin::primitives::serialize::Serializable;
use bit_coin::{Block, ErrorKind, Hash256};

#[test]
fn test_message_type_conversion() {
    assert_eq!(MessageType::Version.to_string(), "version");
    assert_eq!(MessageType::from_string("version"), Some(MessageType::Version));
}

#[test]
fn test_version_message() {
    let msg = VersionMessage::new("127.0.0.1:8333".to_string(), "127.0.0.1:8334".to_string(), 100);

    assert_eq!(msg.version, 1);
    assert_eq!(msg.start_height, 100);
}

#[test]
fn test_ping_pong_serialization() {
    let nonce = 12345u64;
    let ping = Message::Ping(nonce);

    let serialized = ping.serialize();
    let deserialized = Message::deserialize(&serialized).unwrap();

    match deserialized {
        Message::Ping(n) => assert_eq!(n, nonce),
        _ => panic!("Wrong message type"),
    }
}

#[test]
fn test_verack_serialization() {
    let verack = Message::Verack;
    let serialized = verack.serialize();
    let deserialized = Message::deserialize(&serialized).unwrap();

    assert!(matches!(deserialized, Message::Verack));
}

#[test]
fn message_type_names() {
    let names = [
        (MessageType::Version, "version"),
        (MessageType::Verack, "verack"),
        (MessageType::Ping, "ping"),
        (MessageType::Pong, "pong"),
        (MessageType::Inv, "inv"),
        (MessageType::GetData, "getdata"),
        (MessageType::Block, "block"),
        (MessageType::Tx, "tx"),
        (MessageType::GetBlocks, "getblocks"),
    ];
    for (kind, name) in names {
        assert_eq!(kind.to_string(), name);
        assert_eq!(MessageType::from_string(name), Some(kind));
        let tag = kind.tag();
        assert_eq!(&tag[..name.len()], name.as_bytes());
        assert!(tag[name.len()..].iter().all(|byte| *byte == 0));
        assert_eq!(MessageType::from_tag(&tag), Some(kind));
    }
    assert_eq!(MessageType::from_string("Version"), None);
    assert_eq!(MessageType::from_string(""), None);
    assert_eq!(MessageType::from_string("pingg"), None);
    assert_eq!(MessageType::from_tag(&[0u8; 12]), None);
    assert_eq!(MessageType::from_tag(b"ping"), None);
    assert_eq!(MessageType::all().len(), 9);
}

#[test]
fn version_message_fields() {
    let msg = VersionMessage::new("a".to_string(), "b".to_string(), 7);
    assert_eq!(msg.services, 0);
    assert_eq!(msg.addr_recv, "a");
    assert_eq!(msg.addr_from, "b");
    assert_eq!(msg.user_agent, "bitcoin-edu/0.1.0");
    let payload = Message::Version(msg.clone()).serialize_payload();
    assert_eq!(payload.len(), 4 + 8 + 8 + 8 + 4);
    assert_eq!(&payload[..4], &[1, 0, 0, 0]);
    assert_eq!(&payload[12..20], &msg.timestamp.to_le_bytes());
    assert_eq!(&payload[20..28], &msg.nonce.to_le_bytes());
    assert_eq!(&payload[28..], &[7, 0, 0, 0]);
}

#[test]
fn message_exact_bytes() {
    let ping = Message::Ping(0x0102030405060708).serialize();
    let mut expected = b"ping\0\0\0\0\0\0\0\0".to_vec();
    expected.extend_from_slice(&[8, 0, 0, 0, 8, 7, 6, 5, 4, 3, 2, 1]);
    assert_eq!(ping, expected);
    assert_eq!(Message::Verack.serialize(), b"verack\0\0\0\0\0\0\0\0\0\0".to_vec());
    let inv = Message::Inv(InvMessage::new(
        InvType::Tx,
        vec![Hash256::new([1; 32]), Hash256::new([2; 32])],
    ));
    let payload = inv.serialize_payload();
    assert_eq!(payload.len(), 1 + 4 + 64);
    assert_eq!(&payload[..5], &[2, 2, 0, 0, 0]);
    assert_eq!(&payload[5..37], &[1; 32]);
    assert_eq!(&payload[37..], &[2; 32]);
    let get_data = Message::GetData(InvMessage::new(InvType::Block, vec![]));
    assert_eq!(get_data.serialize_payload(), vec![1, 0, 0, 0, 0]);
    assert_eq!(get_data.message_type(), MessageType::GetData);
    let get_blocks = Message::GetBlocks { start: vec![Hash256::new([3; 32])], stop: Hash256::zero() };
    let payload = get_blocks.serialize_payload();
    assert_eq!(payload.len(), 4 + 32 + 32);
    assert_eq!(&payload[..4], &[1, 0, 0, 0]);
    let genesis = Block::genesis();
    let block = Message::Block(genesis.clone());
    assert_eq!(block.serialize_payload(), genesis.serialize());
    let bytes = block.serialize();
    assert_eq!(&bytes[..12], b"block\0\0\0\0\0\0\0");
    assert_eq!(&bytes[12..16], &(genesis.serialize().len() as u32).to_le_bytes());
    let tx = Message::Tx(genesis.transactions[0].clone());
    assert_eq!(tx.serialize_payload(), genesis.transactions[0].serialize());
    assert_eq!(tx.message_type(), MessageType::Tx);
}

fn error_of(data: &[u8]) -> ErrorKind {
    match Message::deserialize(data) {
        Ok(_) => panic!("expected an error"),
        Err(e) => e,
    }
}

#[test]
fn message_deserialize_errors() {
    assert_eq!(error_of(&[]), ErrorKind::MalformedInput);
    assert_eq!(error_of(&Message::Verack.serialize()[..15]), ErrorKind::MalformedInput);
    let mut unknown = Message::Verack.serialize();
    unknown[0] = b'x';
    assert_eq!(error_of(&unknown), ErrorKind::MalformedInput);
    let mut bad_padding = Message::Ping(1).serialize();
    bad_padding[11] = 1;
    assert_eq!(error_of(&bad_padding), ErrorKind::MalformedInput);
    let ping = Message::Ping(1).serialize();
    assert_eq!(error_of(&ping[..ping.len() - 1]), ErrorKind::MalformedInput);
    let mut short = Message::Ping(1).serialize();
    short[12] = 7;
    assert_eq!(error_of(&short), ErrorKind::MalformedInput);
    let inv = Message::Inv(InvMessage::new(InvType::Block, vec![])).serialize();
    assert_eq!(error_of(&inv), ErrorKind::UnsupportedMessage);
    let genesis = Message::Block(Block::genesis()).serialize();
    assert_eq!(error_of(&genesis), ErrorKind::UnsupportedMessage);
    let mut pong = Message::Pong(77).serialize();
    pong.push(0xee);
    assert!(matches!(Message::deserialize(&pong), Ok(Message::Pong(77))));
    let mut padded_verack = Message::Verack.serialize();
    padded_verack[12] = 2;
    padded_verack.extend_from_slice(&[1, 2]);
    assert!(matches!(Message::deserialize(&padded_verack), Ok(Message::Verack)));
}

#[test]
fn handshake_steps() {
    let (state, opening) = HandshakeState::opening("10.0.0.1:8333".to_string(), 42);
    assert_eq!(state, HandshakeState::AwaitingVersion);
    match &opening {
        Message::Version(version) => {
            assert_eq!(version.version, 1);
            assert_eq!(version.start_height, 42);
            assert_eq!(version.addr_recv, "10.0.0.1:8333");
            assert_eq!(version.addr_from, "0.0.0.0:0");
        }
        _ => panic!("a handshake opens with a version"),
    }
    let mut theirs = VersionMessage::new("a".to_string(), "b".to_string(), 9);
    theirs.version = 3;
    theirs.services = 5;
    theirs.user_agent = "other/1.0".to_string();
    let step = state.on_message(Message::Version(theirs)).unwrap();
    assert_eq!(step.state, HandshakeState::AwaitingVerack);
    assert!(matches!(step.reply, Some(Message::Verack)));
    let peer = step.peer.unwrap();
    assert_eq!(peer.version, 3);
    assert_eq!(peer.services, 5);
    assert_eq!(peer.start_height, 9);
    assert_eq!(peer.user_agent, "other/1.0");
    let step = step.state.on_message(Message::Verack).unwrap();
    assert_eq!(step.state, HandshakeState::Done);
    assert!(step.reply.is_none());
    assert!(step.peer.is_none());
    let step = step.state.on_message(Message::Ping(1)).unwrap();
    assert_eq!(step.state, HandshakeState::Done);

    let refused = HandshakeState::AwaitingVersion.on_message(Message::Verack);
    assert!(matches!(refused, Err(ErrorKind::UnexpectedMessage)));
    let refused = HandshakeState::AwaitingVerack.on_message(Message::Ping(1));
    assert!(matches!(refused, Err(ErrorKind::UnexpectedMessage)));
    assert_eq!(ErrorKind::UnexpectedMessage.message(), "Unexpected message during handshake");
}

#[test]
fn session_replies() {
    assert!(matches!(reply_to(&Message::Ping(77)), Some(Message::Pong(77))));
    assert!(reply_to(&Message::Pong(77)).is_none());
    assert!(reply_to(&Message::Verack).is_none());
    assert!(reply_to(&Message::Inv(InvMessage::new(InvType::Tx, vec![]))).is_none());
    let frame = Message::Ping(1).serialize();
    let mut header = [0u8; 16];
    header.copy_from_slice(&frame[..16]);
    assert_eq!(payload_length(&header), 8);
    header[13] = 1;
    assert_eq!(payload_length(&header), 264);
}
