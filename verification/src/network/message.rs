//! Network messages: a 12-byte type tag, the payload length and the payload.

use crate::chain::block::{Block, BlockView};
use crate::chain::transaction::{Transaction, TransactionView};
use crate::consensus::clock::unix_time;
use crate::error::ErrorKind;
use crate::primitives::bytes::{append, bytes_equal};
use crate::primitives::serialize::{views, write_u32, write_u64, Serializable, Wire};
use crate::primitives::types::Hash256;
use vstd::bytes::{
    lemma_auto_spec_u32_to_from_le_bytes, lemma_auto_spec_u64_to_from_le_bytes,
    spec_u32_from_le_bytes, spec_u32_to_le_bytes, spec_u64_from_le_bytes, spec_u64_to_le_bytes,
    u32_from_le_bytes, u64_from_le_bytes,
};
use vstd::prelude::*;
use vstd::slice::slice_subrange;
use vstd::string::StringSliceAdditionalSpecFns;

verus! {

/// The kinds of message.
#[derive(Debug, Clone, Copy, PartialEq, Eq, Structural)]
pub enum MessageType {
    Version,
    Verack,
    Ping,
    Pong,
    Inv,
    GetData,
    Block,
    Tx,
    GetBlocks,
}

impl MessageType {
    /// The name of a kind, as ASCII bytes.
    pub open spec fn spec_name(self) -> Seq<u8> {
        match self {
            MessageType::Version => seq![0x76u8, 0x65u8, 0x72u8, 0x73u8, 0x69u8, 0x6fu8, 0x6eu8],
            MessageType::Verack => seq![0x76u8, 0x65u8, 0x72u8, 0x61u8, 0x63u8, 0x6bu8],
            MessageType::Ping => seq![0x70u8, 0x69u8, 0x6eu8, 0x67u8],
            MessageType::Pong => seq![0x70u8, 0x6fu8, 0x6eu8, 0x67u8],
            MessageType::Inv => seq![0x69u8, 0x6eu8, 0x76u8],
            MessageType::GetData => seq![0x67u8, 0x65u8, 0x74u8, 0x64u8, 0x61u8, 0x74u8, 0x61u8],
            MessageType::Block => seq![0x62u8, 0x6cu8, 0x6fu8, 0x63u8, 0x6bu8],
            MessageType::Tx => seq![0x74u8, 0x78u8],
            MessageType::GetBlocks => seq![
                0x67u8,
                0x65u8,
                0x74u8,
                0x62u8,
                0x6cu8,
                0x6fu8,
                0x63u8,
                0x6bu8,
                0x73u8,
            ],
        }
    }

    /// The 12-byte tag of a kind: its name, then zeros.
    pub open spec fn spec_tag(self) -> Seq<u8> {
        self.spec_name() + Seq::new((12 - self.spec_name().len()) as nat, |i: int| 0u8)
    }

    /// The kind that a 12-byte tag names.
    pub open spec fn spec_from_tag(tag: Seq<u8>) -> Option<MessageType> {
        if tag == MessageType::Version.spec_tag() {
            Some(MessageType::Version)
        } else if tag == MessageType::Verack.spec_tag() {
            Some(MessageType::Verack)
        } else if tag == MessageType::Ping.spec_tag() {
            Some(MessageType::Ping)
        } else if tag == MessageType::Pong.spec_tag() {
            Some(MessageType::Pong)
        } else if tag == MessageType::Inv.spec_tag() {
            Some(MessageType::Inv)
        } else if tag == MessageType::GetData.spec_tag() {
            Some(MessageType::GetData)
        } else if tag == MessageType::Block.spec_tag() {
            Some(MessageType::Block)
        } else if tag == MessageType::Tx.spec_tag() {
            Some(MessageType::Tx)
        } else if tag == MessageType::GetBlocks.spec_tag() {
            Some(MessageType::GetBlocks)
        } else {
            None
        }
    }

    /// The name of the kind: `version`, `verack`, `ping`, `pong`, `inv`,
    /// `getdata`, `block`, `tx` or `getblocks`.
    pub fn to_string(&self) -> (name: &'static str)
        ensures
            name.spec_bytes() == self.spec_name(),
    {
        match self {
            MessageType::Version => {
                let name = "version";
                proof {
                    reveal_strlit("version");
                    vstd::string::is_ascii_spec_bytes(name);
                    assert(name.spec_bytes() =~= self.spec_name());
                }
                name
            },
            MessageType::Verack => {
                let name = "verack";
                proof {
                    reveal_strlit("verack");
                    vstd::string::is_ascii_spec_bytes(name);
                    assert(name.spec_bytes() =~= self.spec_name());
                }
                name
            },
            MessageType::Ping => {
                let name = "ping";
                proof {
                    reveal_strlit("ping");
                    vstd::string::is_ascii_spec_bytes(name);
                    assert(name.spec_bytes() =~= self.spec_name());
                }
                name
            },
            MessageType::Pong => {
                let name = "pong";
                proof {
                    reveal_strlit("pong");
                    vstd::string::is_ascii_spec_bytes(name);
                    assert(name.spec_bytes() =~= self.spec_name());
                }
                name
            },
            MessageType::Inv => {
                let name = "inv";
                proof {
                    reveal_strlit("inv");
                    vstd::string::is_ascii_spec_bytes(name);
                    assert(name.spec_bytes() =~= self.spec_name());
                }
                name
            },
            MessageType::GetData => {
                let name = "getdata";
                proof {
                    reveal_strlit("getdata");
                    vstd::string::is_ascii_spec_bytes(name);
                    assert(name.spec_bytes() =~= self.spec_name());
                }
                name
            },
            MessageType::Block => {
                let name = "block";
                proof {
                    reveal_strlit("block");
                    vstd::string::is_ascii_spec_bytes(name);
                    assert(name.spec_bytes() =~= self.spec_name());
                }
                name
            },
            MessageType::Tx => {
                let name = "tx";
                proof {
                    reveal_strlit("tx");
                    vstd::string::is_ascii_spec_bytes(name);
                    assert(name.spec_bytes() =~= self.spec_name());
                }
                name
            },
            MessageType::GetBlocks => {
                let name = "getblocks";
                proof {
                    reveal_strlit("getblocks");
                    vstd::string::is_ascii_spec_bytes(name);
                    assert(name.spec_bytes() =~= self.spec_name());
                }
                name
            },
        }
    }

    /// The nine kinds, in the order of their declaration.
    pub open spec fn spec_all() -> Seq<MessageType> {
        seq![
            MessageType::Version,
            MessageType::Verack,
            MessageType::Ping,
            MessageType::Pong,
            MessageType::Inv,
            MessageType::GetData,
            MessageType::Block,
            MessageType::Tx,
            MessageType::GetBlocks,
        ]
    }

    /// The nine kinds.
    pub fn all() -> (kinds: [MessageType; 9])
        ensures
            kinds@ == Self::spec_all(),
    {
        let kinds = [
            MessageType::Version,
            MessageType::Verack,
            MessageType::Ping,
            MessageType::Pong,
            MessageType::Inv,
            MessageType::GetData,
            MessageType::Block,
            MessageType::Tx,
            MessageType::GetBlocks,
        ];
        assert(kinds@ =~= Self::spec_all());
        kinds
    }

    /// The kind of a name; `None` for any other text.
    pub fn from_string(s: &str) -> (r: Option<Self>)
        ensures
            match r {
                Some(kind) => s.spec_bytes() == kind.spec_name(),
                None => forall|kind: MessageType| s.spec_bytes() != #[trigger] kind.spec_name(),
            },
    {
        let kinds = Self::all();
        let mut i: usize = 0;
        while i < 9
            invariant
                i <= 9,
                kinds@ == Self::spec_all(),
                forall|j: int| 0 <= j < i ==> s.spec_bytes() != (#[trigger] kinds[j]).spec_name(),
            decreases 9 - i,
        {
            let kind = kinds[i];
            if bytes_equal(s.as_bytes(), kind.to_string().as_bytes()) {
                return Some(kind);
            }
            i = i + 1;
        }
        assert forall|kind: MessageType| s.spec_bytes() != #[trigger] kind.spec_name() by {
            match kind {
                MessageType::Version => assert(kinds[0] == kind),
                MessageType::Verack => assert(kinds[1] == kind),
                MessageType::Ping => assert(kinds[2] == kind),
                MessageType::Pong => assert(kinds[3] == kind),
                MessageType::Inv => assert(kinds[4] == kind),
                MessageType::GetData => assert(kinds[5] == kind),
                MessageType::Block => assert(kinds[6] == kind),
                MessageType::Tx => assert(kinds[7] == kind),
                MessageType::GetBlocks => assert(kinds[8] == kind),
            }
        }
        None
    }

    /// The 12-byte tag of the kind.
    pub fn tag(&self) -> (tag: [u8; 12])
        ensures
            tag@ == self.spec_tag(),
    {
        let name = self.to_string().as_bytes();
        let len: usize = name.len();
        let mut tag = [0u8; 12];
        let mut i: usize = 0;
        while i < len
            invariant
                i <= len,
                len == name@.len(),
                len <= 12,
                name@ == self.spec_name(),
                forall|j: int| 0 <= j < i ==> tag[j] == name@[j],
                forall|j: int| i <= j < 12 ==> tag[j] == 0,
            decreases len - i,
        {
            tag[i] = name[i];
            i = i + 1;
        }
        assert(tag@ =~= self.spec_tag());
        tag
    }

    /// The kind that a 12-byte tag names.
    pub fn from_tag(tag: &[u8]) -> (r: Option<Self>)
        ensures
            r == Self::spec_from_tag(tag@),
    {
        let kinds = Self::all();
        let mut i: usize = 0;
        while i < 9
            invariant
                i <= 9,
                kinds@ == Self::spec_all(),
                forall|j: int| 0 <= j < i ==> tag@ != (#[trigger] kinds[j]).spec_tag(),
            decreases 9 - i,
        {
            let kind = kinds[i];
            let candidate = kind.tag();
            if bytes_equal(tag, candidate.as_slice()) {
                return Some(kind);
            }
            i = i + 1;
        }
        assert(tag@ != kinds[0].spec_tag());
        assert(tag@ != kinds[1].spec_tag());
        assert(tag@ != kinds[2].spec_tag());
        assert(tag@ != kinds[3].spec_tag());
        assert(tag@ != kinds[4].spec_tag());
        assert(tag@ != kinds[5].spec_tag());
        assert(tag@ != kinds[6].spec_tag());
        assert(tag@ != kinds[7].spec_tag());
        assert(tag@ != kinds[8].spec_tag());
        None
    }
}

/// What an inventory lists.
#[derive(Debug, Clone, Copy, PartialEq, Eq, Structural)]
pub enum InvType {
    Block,
    Tx,
}

/// The first message of a handshake.
#[derive(Debug)]
pub struct VersionMessage {
    pub version: u32,
    pub services: u64,
    pub timestamp: u64,
    pub addr_recv: String,
    pub addr_from: String,
    pub nonce: u64,
    pub user_agent: String,
    pub start_height: u32,
}

impl Clone for VersionMessage {
    fn clone(&self) -> (copy: Self)
        ensures
            copy == *self,
    {
        VersionMessage {
            version: self.version,
            services: self.services,
            timestamp: self.timestamp,
            addr_recv: self.addr_recv.clone(),
            addr_from: self.addr_from.clone(),
            nonce: self.nonce,
            user_agent: self.user_agent.clone(),
            start_height: self.start_height,
        }
    }
}

/// Calls `rand::random` for a `u64`. Nothing is claimed of the number.
#[verifier::external_body]
fn random_nonce() -> (nonce: u64) {
    rand::random()
}

impl VersionMessage {
    /// The payload of a version message: version, services, timestamp,
    /// nonce and start height. The addresses and the user agent are not
    /// sent.
    pub open spec fn spec_payload(self) -> Seq<u8> {
        spec_u32_to_le_bytes(self.version) + spec_u64_to_le_bytes(self.services)
            + spec_u64_to_le_bytes(self.timestamp) + spec_u64_to_le_bytes(self.nonce)
            + spec_u32_to_le_bytes(self.start_height)
    }

    /// A version message of this node: protocol version 1, no services, the
    /// time of the clock and a random nonce.
    pub fn new(addr_recv: String, addr_from: String, start_height: u32) -> (message: Self)
        ensures
            message.version == 1,
            message.services == 0,
            message.addr_recv == addr_recv,
            message.addr_from == addr_from,
            message.user_agent@ == "bitcoin-edu/0.1.0"@,
            message.start_height == start_height,
    {
        VersionMessage {
            version: 1,
            services: 0,
            timestamp: unix_time(),
            addr_recv,
            addr_from,
            nonce: random_nonce(),
            user_agent: "bitcoin-edu/0.1.0".to_owned(),
            start_height,
        }
    }
}

/// A list of block or transaction hashes.
#[derive(Debug)]
pub struct InvMessage {
    pub inv_type: InvType,
    pub hashes: Vec<Hash256>,
}

/// A copy of some hashes.
fn copy_hashes(hashes: &Vec<Hash256>) -> (copy: Vec<Hash256>)
    ensures
        copy@ == hashes@,
{
    let mut copy: Vec<Hash256> = Vec::new();
    let mut i: usize = 0;
    while i < hashes.len()
        invariant
            i <= hashes@.len(),
            copy@ == hashes@.take(i as int),
        decreases hashes@.len() - i,
    {
        copy.push(hashes[i]);
        i = i + 1;
        assert(copy@ =~= hashes@.take(i as int));
    }
    assert(hashes@.take(hashes@.len() as int) =~= hashes@);
    copy
}

impl Clone for InvMessage {
    fn clone(&self) -> (copy: Self)
        ensures
            copy.inv_type == self.inv_type,
            copy.hashes@ == self.hashes@,
    {
        InvMessage { inv_type: self.inv_type, hashes: copy_hashes(&self.hashes) }
    }
}

/// The bytes of some hashes, one after another.
pub open spec fn concat_hashes(hashes: Seq<Seq<u8>>) -> Seq<u8>
    decreases hashes.len(),
{
    if hashes.len() == 0 {
        Seq::empty()
    } else {
        concat_hashes(hashes.drop_last()) + hashes.last()
    }
}

/// A count as the `u32` that is sent: the count modulo 2^32.
pub open spec fn spec_count(n: nat) -> u32 {
    (n % 0x1_0000_0000) as u32
}

impl InvMessage {
    /// The payload of an inventory: one byte for the type (1 for blocks, 2
    /// for transactions), the count, the hashes.
    pub open spec fn spec_payload(self) -> Seq<u8> {
        seq![
            match self.inv_type {
                InvType::Block => 1u8,
                InvType::Tx => 2u8,
            },
        ] + spec_u32_to_le_bytes(spec_count(self.hashes@.len())) + concat_hashes(
            views(self.hashes@),
        )
    }

    /// An inventory of the given hashes.
    pub fn new(inv_type: InvType, hashes: Vec<Hash256>) -> (message: Self)
        ensures
            message.inv_type == inv_type,
            message.hashes == hashes,
    {
        InvMessage { inv_type, hashes }
    }
}

/// A message.
#[derive(Debug)]
pub enum Message {
    Version(VersionMessage),
    Verack,
    Ping(u64),
    Pong(u64),
    Inv(InvMessage),
    GetData(InvMessage),
    Block(Block),
    Tx(Transaction),
    GetBlocks { start: Vec<Hash256>, stop: Hash256 },
}

impl Clone for Message {
    fn clone(&self) -> (copy: Self)
        ensures
            copy.spec_message_type() == self.spec_message_type(),
            copy.spec_payload() == self.spec_payload(),
    {
        match self {
            Message::Version(v) => Message::Version(v.clone()),
            Message::Verack => Message::Verack,
            Message::Ping(nonce) => Message::Ping(*nonce),
            Message::Pong(nonce) => Message::Pong(*nonce),
            Message::Inv(inv) => Message::Inv(inv.clone()),
            Message::GetData(inv) => Message::GetData(inv.clone()),
            Message::Block(block) => Message::Block(block.clone()),
            Message::Tx(tx) => Message::Tx(tx.clone()),
            Message::GetBlocks { start, stop } => Message::GetBlocks {
                start: copy_hashes(start),
                stop: *stop,
            },
        }
    }
}

/// What deserializing gives: the messages without payload or with a nonce.
pub enum ReceivedMessage {
    Verack,
    Ping(u64),
    Pong(u64),
}

impl Message {
    /// The kind of a message.
    pub open spec fn spec_message_type(self) -> MessageType {
        match self {
            Message::Version(_) => MessageType::Version,
            Message::Verack => MessageType::Verack,
            Message::Ping(_) => MessageType::Ping,
            Message::Pong(_) => MessageType::Pong,
            Message::Inv(_) => MessageType::Inv,
            Message::GetData(_) => MessageType::GetData,
            Message::Block(_) => MessageType::Block,
            Message::Tx(_) => MessageType::Tx,
            Message::GetBlocks { .. } => MessageType::GetBlocks,
        }
    }

    /// The payload of a message.
    pub open spec fn spec_payload(self) -> Seq<u8> {
        match self {
            Message::Version(v) => v.spec_payload(),
            Message::Verack => Seq::empty(),
            Message::Ping(nonce) => spec_u64_to_le_bytes(nonce),
            Message::Pong(nonce) => spec_u64_to_le_bytes(nonce),
            Message::Inv(inv) => inv.spec_payload(),
            Message::GetData(inv) => inv.spec_payload(),
            Message::Block(block) => Block::spec_serialize(block@),
            Message::Tx(tx) => Transaction::spec_serialize(tx@),
            Message::GetBlocks { start, stop } => spec_u32_to_le_bytes(spec_count(start@.len()))
                + concat_hashes(views(start@)) + stop@,
        }
    }

    /// A payload behind its frame: the tag of the kind and the payload
    /// length modulo 2^32, little-endian.
    pub open spec fn spec_frame(kind: MessageType, payload: Seq<u8>) -> Seq<u8> {
        kind.spec_tag() + spec_u32_to_le_bytes(spec_count(payload.len())) + payload
    }

    /// The bytes of a message.
    pub open spec fn spec_serialize(self) -> Seq<u8> {
        Self::spec_frame(self.spec_message_type(), self.spec_payload())
    }

    /// The message that a byte string frames. Only `verack`, `ping` and
    /// `pong` are read; bytes after the payload are ignored.
    pub open spec fn spec_deserialize(data: Seq<u8>) -> Result<ReceivedMessage, ErrorKind> {
        if data.len() < 16 {
            Err(ErrorKind::MalformedInput)
        } else {
            match MessageType::spec_from_tag(data.take(12)) {
                None => Err(ErrorKind::MalformedInput),
                Some(kind) => {
                    let len = spec_u32_from_le_bytes(data.subrange(12, 16)) as int;
                    if data.len() < 16 + len {
                        Err(ErrorKind::MalformedInput)
                    } else {
                        match kind {
                            MessageType::Verack => Ok(ReceivedMessage::Verack),
                            MessageType::Ping => if len < 8 {
                                Err(ErrorKind::MalformedInput)
                            } else {
                                Ok(ReceivedMessage::Ping(spec_u64_from_le_bytes(data.subrange(16, 24))))
                            },
                            MessageType::Pong => if len < 8 {
                                Err(ErrorKind::MalformedInput)
                            } else {
                                Ok(ReceivedMessage::Pong(spec_u64_from_le_bytes(data.subrange(16, 24))))
                            },
                            _ => Err(ErrorKind::UnsupportedMessage),
                        }
                    }
                },
            }
        }
    }

    /// What a deserialized message is, among those that can be read.
    pub open spec fn received(self) -> Option<ReceivedMessage> {
        match self {
            Message::Verack => Some(ReceivedMessage::Verack),
            Message::Ping(nonce) => Some(ReceivedMessage::Ping(nonce)),
            Message::Pong(nonce) => Some(ReceivedMessage::Pong(nonce)),
            _ => None,
        }
    }

    /// The kind of the message.
    pub fn message_type(&self) -> (kind: MessageType)
        ensures
            kind == self.spec_message_type(),
    {
        match self {
            Message::Version(_) => MessageType::Version,
            Message::Verack => MessageType::Verack,
            Message::Ping(_) => MessageType::Ping,
            Message::Pong(_) => MessageType::Pong,
            Message::Inv(_) => MessageType::Inv,
            Message::GetData(_) => MessageType::GetData,
            Message::Block(_) => MessageType::Block,
            Message::Tx(_) => MessageType::Tx,
            Message::GetBlocks { .. } => MessageType::GetBlocks,
        }
    }

    /// The bytes of the message: tag, payload length, payload.
    pub fn serialize(&self) -> (bytes: Vec<u8>)
        ensures
            bytes@ == self.spec_serialize(),
    {
        let mut bytes: Vec<u8> = Vec::new();
        let tag = self.message_type().tag();
        append(&mut bytes, tag.as_slice());
        let payload = self.serialize_payload();
        write_u32(&mut bytes, (payload.len() as u64 % 0x1_0000_0000) as u32);
        append(&mut bytes, payload.as_slice());
        assert(bytes@ =~= self.spec_serialize());
        bytes
    }

    /// The payload of the message.
    pub fn serialize_payload(&self) -> (payload: Vec<u8>)
        ensures
            payload@ == self.spec_payload(),
    {
        match self {
            Message::Version(v) => {
                let mut bytes: Vec<u8> = Vec::new();
                write_u32(&mut bytes, v.version);
                write_u64(&mut bytes, v.services);
                write_u64(&mut bytes, v.timestamp);
                write_u64(&mut bytes, v.nonce);
                write_u32(&mut bytes, v.start_height);
                assert(bytes@ =~= v.spec_payload());
                bytes
            },
            Message::Verack => Vec::new(),
            Message::Ping(nonce) => {
                let mut bytes: Vec<u8> = Vec::new();
                write_u64(&mut bytes, *nonce);
                assert(bytes@ =~= spec_u64_to_le_bytes(*nonce));
                bytes
            },
            Message::Pong(nonce) => {
                let mut bytes: Vec<u8> = Vec::new();
                write_u64(&mut bytes, *nonce);
                assert(bytes@ =~= spec_u64_to_le_bytes(*nonce));
                bytes
            },
            Message::Inv(inv) => Self::inventory_payload(inv),
            Message::GetData(inv) => Self::inventory_payload(inv),
            Message::Block(block) => block.serialize(),
            Message::Tx(tx) => tx.serialize(),
            Message::GetBlocks { start, stop } => {
                let mut bytes: Vec<u8> = Vec::new();
                write_u32(&mut bytes, (start.len() as u64 % 0x1_0000_0000) as u32);
                Self::append_hashes(&mut bytes, start);
                append(&mut bytes, stop.as_bytes().as_slice());
                assert(bytes@ =~= self.spec_payload());
                bytes
            },
        }
    }

    /// The payload of an inventory.
    fn inventory_payload(inv: &InvMessage) -> (payload: Vec<u8>)
        ensures
            payload@ == inv.spec_payload(),
    {
        let mut bytes: Vec<u8> = Vec::new();
        bytes.push(
            match inv.inv_type {
                InvType::Block => 1,
                InvType::Tx => 2,
            },
        );
        write_u32(&mut bytes, (inv.hashes.len() as u64 % 0x1_0000_0000) as u32);
        Self::append_hashes(&mut bytes, &inv.hashes);
        assert(bytes@ =~= inv.spec_payload());
        bytes
    }

    /// Appends the bytes of some hashes.
    fn append_hashes(bytes: &mut Vec<u8>, hashes: &Vec<Hash256>)
        ensures
            final(bytes)@ == old(bytes)@ + concat_hashes(views(hashes@)),
    {
        let ghost all = views(hashes@);
        let mut i: usize = 0;
        assert(all.take(0) =~= Seq::<Seq<u8>>::empty());
        while i < hashes.len()
            invariant
                i <= hashes@.len(),
                all == views(hashes@),
                bytes@ == old(bytes)@ + concat_hashes(all.take(i as int)),
            decreases hashes@.len() - i,
        {
            proof {
                assert(all.take(i + 1).drop_last() =~= all.take(i as int));
                assert(all.take(i + 1).last() == hashes@[i as int]@);
            }
            append(bytes, hashes[i].as_bytes().as_slice());
            i = i + 1;
            assert(bytes@ =~= old(bytes)@ + concat_hashes(all.take(i as int)));
        }
        assert(all.take(hashes@.len() as int) =~= all);
    }

    /// Reads a message from its bytes. Only `verack`, `ping` and `pong` are
    /// read; every other kind is reported as unsupported.
    pub fn deserialize(data: &[u8]) -> (r: Result<Self, ErrorKind>)
        ensures
            match Self::spec_deserialize(data@) {
                Ok(message) => r is Ok && r->Ok_0.received() == Some(message),
                Err(e) => r is Err && r->Err_0 == e,
            },
    {
        if data.len() < 16 {
            return Err(ErrorKind::MalformedInput);
        }
        let tag = slice_subrange(data, 0, 12);
        assert(tag@ =~= data@.take(12));
        let kind = match MessageType::from_tag(tag) {
            Some(kind) => kind,
            None => {
                return Err(ErrorKind::MalformedInput);
            },
        };
        let payload_len: u32 = u32_from_le_bytes(slice_subrange(data, 12, 16));
        if ((data.len() - 16) as u64) < payload_len as u64 {
            return Err(ErrorKind::MalformedInput);
        }
        match kind {
            MessageType::Verack => Ok(Message::Verack),
            MessageType::Ping => {
                if payload_len < 8 {
                    return Err(ErrorKind::MalformedInput);
                }
                Ok(Message::Ping(u64_from_le_bytes(slice_subrange(data, 16, 24))))
            },
            MessageType::Pong => {
                if payload_len < 8 {
                    return Err(ErrorKind::MalformedInput);
                }
                Ok(Message::Pong(u64_from_le_bytes(slice_subrange(data, 16, 24))))
            },
            _ => Err(ErrorKind::UnsupportedMessage),
        }
    }

    /// A `verack`, `ping` or `pong` is read back from its bytes.
    pub proof fn lemma_serialize_round_trip(message: Message)
        requires
            message.received() is Some,
        ensures
            Self::spec_deserialize(message.spec_serialize()) == Ok::<ReceivedMessage, ErrorKind>(
                message.received()->Some_0,
            ),
    {
        lemma_auto_spec_u32_to_from_le_bytes();
        lemma_auto_spec_u64_to_from_le_bytes();
        let kind = message.spec_message_type();
        let payload = message.spec_payload();
        let data = message.spec_serialize();
        assert(kind.spec_tag().len() == 12);
        assert(data.take(12) =~= kind.spec_tag());
        assert(data.subrange(12, 16) =~= spec_u32_to_le_bytes(spec_count(payload.len())));
        Self::lemma_tags_differ();
        match message {
            Message::Verack => {},
            Message::Ping(nonce) => {
                assert(data.subrange(16, 24) =~= spec_u64_to_le_bytes(nonce));
            },
            Message::Pong(nonce) => {
                assert(data.subrange(16, 24) =~= spec_u64_to_le_bytes(nonce));
            },
            _ => {},
        }
    }

    /// The tags of `verack`, `ping` and `pong` are read as those kinds.
    pub proof fn lemma_tags_differ()
        ensures
            MessageType::spec_from_tag(MessageType::Verack.spec_tag()) == Some(MessageType::Verack),
            MessageType::spec_from_tag(MessageType::Ping.spec_tag()) == Some(MessageType::Ping),
            MessageType::spec_from_tag(MessageType::Pong.spec_tag()) == Some(MessageType::Pong),
    {
        assert(MessageType::Verack.spec_tag()[3] == 0x61);
        assert(MessageType::Version.spec_tag()[3] == 0x73);
        assert(MessageType::Ping.spec_tag()[0] == 0x70);
        assert(MessageType::Ping.spec_tag()[1] == 0x69);
        assert(MessageType::Pong.spec_tag()[0] == 0x70);
        assert(MessageType::Pong.spec_tag()[1] == 0x6f);
        assert(MessageType::Version.spec_tag()[0] == 0x76);
        assert(MessageType::Verack.spec_tag()[0] == 0x76);
    }
}

} // verus!
