//! Transactions: inputs that spend earlier outputs, outputs that lock value.

use crate::error::ErrorKind;
use crate::primitives::bytes::{append, to_vec};
use crate::primitives::hash::{hash256, spec_hash256};
use crate::primitives::serialize::{
    all_valid, lemma_counted_round_trip, lemma_hash_round_trip, lemma_u32_round_trip,
    lemma_u64_round_trip, lemma_var_bytes_round_trip, parse_counted, parse_hash, parse_u32,
    parse_u64, parse_var_bytes, read_counted, read_var_bytes, spec_var_bytes, views, wire_counted,
    write_counted, write_u32, write_u64, write_var_bytes, Reader, Serializable, Wire,
};
use crate::primitives::types::Hash256;
use vstd::bytes::{spec_u32_to_le_bytes, spec_u64_to_le_bytes};
use vstd::prelude::*;

verus! {

/// The index that marks the single input of a coinbase transaction.
pub const COINBASE_INDEX: u32 = 0xffff_ffff;

/// A reference to an earlier output, with the script that unlocks it.
#[derive(Debug, PartialEq, Eq)]
pub struct TxInput {
    /// The id of the transaction that holds the output.
    pub prev_tx_hash: Hash256,
    /// The position of the output in that transaction.
    pub prev_index: u32,
    /// The unlocking script.
    pub script_sig: Vec<u8>,
    /// The sequence number.
    pub sequence: u32,
}

/// What a [`TxInput`] holds.
pub struct TxInputView {
    pub prev_tx_hash: Seq<u8>,
    pub prev_index: u32,
    pub script_sig: Seq<u8>,
    pub sequence: u32,
}

impl View for TxInput {
    type V = TxInputView;

    open spec fn view(&self) -> TxInputView {
        TxInputView {
            prev_tx_hash: self.prev_tx_hash@,
            prev_index: self.prev_index,
            script_sig: self.script_sig@,
            sequence: self.sequence,
        }
    }
}

impl Clone for TxInput {
    fn clone(&self) -> (copy: Self)
        ensures
            copy@ == self@,
    {
        TxInput {
            prev_tx_hash: self.prev_tx_hash,
            prev_index: self.prev_index,
            script_sig: to_vec(self.script_sig.as_slice()),
            sequence: self.sequence,
        }
    }
}

impl TxInputView {
    /// Whether the input refers to no earlier output.
    pub open spec fn is_coinbase(self) -> bool {
        self.prev_tx_hash == Hash256::spec_zero() && self.prev_index == COINBASE_INDEX
    }
}

impl TxInput {
    /// An input that spends output `prev_index` of `prev_tx_hash`.
    pub fn new(prev_tx_hash: Hash256, prev_index: u32, script_sig: Vec<u8>) -> (input: Self)
        ensures
            input@ == (TxInputView {
                prev_tx_hash: prev_tx_hash@,
                prev_index,
                script_sig: script_sig@,
                sequence: 0xffff_ffff,
            }),
    {
        TxInput { prev_tx_hash, prev_index, script_sig, sequence: 0xffff_ffff }
    }

    /// The input of a coinbase transaction. `script_sig` is free-form; the
    /// height is not recorded in the input.
    pub fn coinbase(script_sig: Vec<u8>, _height: u32) -> (input: Self)
        ensures
            input@ == (TxInputView {
                prev_tx_hash: Hash256::spec_zero(),
                prev_index: COINBASE_INDEX,
                script_sig: script_sig@,
                sequence: 0xffff_ffff,
            }),
            input@.is_coinbase(),
    {
        TxInput {
            prev_tx_hash: Hash256::zero(),
            prev_index: COINBASE_INDEX,
            script_sig,
            sequence: 0xffff_ffff,
        }
    }

    /// Whether the input refers to no earlier output: a zero hash and the
    /// index `0xFFFFFFFF`.
    pub fn is_coinbase(&self) -> (r: bool)
        ensures
            r == self@.is_coinbase(),
    {
        self.prev_tx_hash.is_zero() && self.prev_index == COINBASE_INDEX
    }

    /// The wire form: hash, index, length-prefixed script, sequence.
    pub fn serialize(&self) -> (out: Vec<u8>)
        ensures
            out@ == Self::wire(self@),
    {
        let mut out: Vec<u8> = Vec::new();
        self.write(&mut out);
        assert(Seq::<u8>::empty() + Self::wire(self@) =~= Self::wire(self@));
        out
    }

    /// Reads one input, or fails and reads nothing.
    pub fn deserialize(reader: &mut Reader) -> (r: Result<Self, ErrorKind>)
        ensures
            match Self::parse(old(reader).remaining()) {
                Some((value, rest)) => r is Ok && r->Ok_0@ == value && final(reader).remaining()
                    == rest,
                None => r is Err && r->Err_0 == ErrorKind::MalformedInput && final(reader).remaining()
                    == old(reader).remaining(),
            },
    {
        Self::read(reader)
    }
}

impl Wire for TxInput {
    open spec fn valid(value: TxInputView) -> bool {
        value.prev_tx_hash.len() == 32 && value.script_sig.len() <= u64::MAX
    }

    open spec fn wire(value: TxInputView) -> Seq<u8> {
        value.prev_tx_hash + spec_u32_to_le_bytes(value.prev_index) + spec_var_bytes(
            value.script_sig,
        ) + spec_u32_to_le_bytes(value.sequence)
    }

    open spec fn parse(s: Seq<u8>) -> Option<(TxInputView, Seq<u8>)> {
        match parse_hash(s) {
            Some((prev_tx_hash, s1)) => match parse_u32(s1) {
                Some((prev_index, s2)) => match parse_var_bytes(s2) {
                    Some((script_sig, s3)) => match parse_u32(s3) {
                        Some((sequence, s4)) => Some(
                            (TxInputView { prev_tx_hash, prev_index, script_sig, sequence }, s4),
                        ),
                        None => None,
                    },
                    None => None,
                },
                None => None,
            },
            None => None,
        }
    }

    proof fn lemma_round_trip(value: TxInputView, tail: Seq<u8>) {
        let t3 = spec_u32_to_le_bytes(value.sequence) + tail;
        let t2 = spec_var_bytes(value.script_sig) + t3;
        let t1 = spec_u32_to_le_bytes(value.prev_index) + t2;
        lemma_hash_round_trip(value.prev_tx_hash, t1);
        lemma_u32_round_trip(value.prev_index, t2);
        lemma_var_bytes_round_trip(value.script_sig, t3);
        lemma_u32_round_trip(value.sequence, tail);
        assert(Self::wire(value) + tail =~= value.prev_tx_hash + t1);
    }

    fn write(&self, writer: &mut Vec<u8>) {
        let _len: usize = self.script_sig.len();
        append(writer, self.prev_tx_hash.as_bytes().as_slice());
        write_u32(writer, self.prev_index);
        write_var_bytes(writer, self.script_sig.as_slice());
        write_u32(writer, self.sequence);
        assert(writer@ =~= old(writer)@ + Self::wire(self@));
    }

    fn read(reader: &mut Reader) -> (r: Result<Self, ErrorKind>) {
        let mut probe = *reader;
        let prev_tx_hash = Hash256::new(probe.read_hash()?);
        let prev_index = probe.read_u32()?;
        let script_sig = read_var_bytes(&mut probe)?;
        let sequence = probe.read_u32()?;
        *reader = probe;
        Ok(TxInput { prev_tx_hash, prev_index, script_sig, sequence })
    }
}

/// An amount and the script that locks it.
#[derive(Debug, PartialEq, Eq)]
pub struct TxOutput {
    /// The amount, in satoshis.
    pub value: u64,
    /// The locking script.
    pub script_pubkey: Vec<u8>,
}

/// What a [`TxOutput`] holds.
pub struct TxOutputView {
    pub value: u64,
    pub script_pubkey: Seq<u8>,
}

impl View for TxOutput {
    type V = TxOutputView;

    open spec fn view(&self) -> TxOutputView {
        TxOutputView { value: self.value, script_pubkey: self.script_pubkey@ }
    }
}

impl Clone for TxOutput {
    fn clone(&self) -> (copy: Self)
        ensures
            copy@ == self@,
    {
        TxOutput { value: self.value, script_pubkey: to_vec(self.script_pubkey.as_slice()) }
    }
}

impl TxOutput {
    /// An output of `value` satoshis locked by `script_pubkey`.
    pub fn new(value: u64, script_pubkey: Vec<u8>) -> (output: Self)
        ensures
            output@ == (TxOutputView { value, script_pubkey: script_pubkey@ }),
    {
        TxOutput { value, script_pubkey }
    }

    /// The wire form: the amount, then the length-prefixed script.
    pub fn serialize(&self) -> (out: Vec<u8>)
        ensures
            out@ == Self::wire(self@),
    {
        let mut out: Vec<u8> = Vec::new();
        self.write(&mut out);
        assert(Seq::<u8>::empty() + Self::wire(self@) =~= Self::wire(self@));
        out
    }

    /// Reads one output, or fails and reads nothing.
    pub fn deserialize(reader: &mut Reader) -> (r: Result<Self, ErrorKind>)
        ensures
            match Self::parse(old(reader).remaining()) {
                Some((value, rest)) => r is Ok && r->Ok_0@ == value && final(reader).remaining()
                    == rest,
                None => r is Err && r->Err_0 == ErrorKind::MalformedInput && final(reader).remaining()
                    == old(reader).remaining(),
            },
    {
        Self::read(reader)
    }
}

impl Wire for TxOutput {
    open spec fn valid(value: TxOutputView) -> bool {
        value.script_pubkey.len() <= u64::MAX
    }

    open spec fn wire(value: TxOutputView) -> Seq<u8> {
        spec_u64_to_le_bytes(value.value) + spec_var_bytes(value.script_pubkey)
    }

    open spec fn parse(s: Seq<u8>) -> Option<(TxOutputView, Seq<u8>)> {
        match parse_u64(s) {
            Some((value, s1)) => match parse_var_bytes(s1) {
                Some((script_pubkey, s2)) => Some((TxOutputView { value, script_pubkey }, s2)),
                None => None,
            },
            None => None,
        }
    }

    proof fn lemma_round_trip(value: TxOutputView, tail: Seq<u8>) {
        let t1 = spec_var_bytes(value.script_pubkey) + tail;
        lemma_u64_round_trip(value.value, t1);
        lemma_var_bytes_round_trip(value.script_pubkey, tail);
        assert(Self::wire(value) + tail =~= spec_u64_to_le_bytes(value.value) + t1);
    }

    fn write(&self, writer: &mut Vec<u8>) {
        let _len: usize = self.script_pubkey.len();
        write_u64(writer, self.value);
        write_var_bytes(writer, self.script_pubkey.as_slice());
        assert(writer@ =~= old(writer)@ + Self::wire(self@));
    }

    fn read(reader: &mut Reader) -> (r: Result<Self, ErrorKind>) {
        let mut probe = *reader;
        let value = probe.read_u64()?;
        let script_pubkey = read_var_bytes(&mut probe)?;
        *reader = probe;
        Ok(TxOutput { value, script_pubkey })
    }
}

/// A transfer of value from inputs to outputs.
#[derive(Debug, PartialEq, Eq)]
pub struct Transaction {
    /// The format version.
    pub version: u32,
    /// The outputs that are spent.
    pub inputs: Vec<TxInput>,
    /// The outputs that are created.
    pub outputs: Vec<TxOutput>,
    /// The earliest block height or time at which the transaction is valid.
    pub lock_time: u32,
}

/// What a [`Transaction`] holds.
pub struct TransactionView {
    pub version: u32,
    pub inputs: Seq<TxInputView>,
    pub outputs: Seq<TxOutputView>,
    pub lock_time: u32,
}

impl View for Transaction {
    type V = TransactionView;

    open spec fn view(&self) -> TransactionView {
        TransactionView {
            version: self.version,
            inputs: views(self.inputs@),
            outputs: views(self.outputs@),
            lock_time: self.lock_time,
        }
    }
}

/// The sum of the values of some outputs.
pub open spec fn total_value(outputs: Seq<TxOutputView>) -> nat
    decreases outputs.len(),
{
    if outputs.len() == 0 {
        0
    } else {
        total_value(outputs.drop_last()) + outputs.last().value as nat
    }
}

impl TransactionView {
    /// Whether the transaction mints value: one input, and that one refers to
    /// no earlier output.
    pub open spec fn is_coinbase(self) -> bool {
        self.inputs.len() == 1 && self.inputs[0].is_coinbase()
    }

    /// The id: the double hash of the wire form.
    pub open spec fn txid(self) -> Seq<u8> {
        spec_hash256(Transaction::wire(self))
    }

    /// The sum of the output values.
    pub open spec fn total_output(self) -> nat {
        total_value(self.outputs)
    }
}

impl Clone for Transaction {
    fn clone(&self) -> (copy: Self)
        ensures
            copy@ == self@,
    {
        let mut inputs: Vec<TxInput> = Vec::new();
        let mut i: usize = 0;
        while i < self.inputs.len()
            invariant
                i <= self.inputs@.len(),
                views(inputs@) == views(self.inputs@).take(i as int),
            decreases self.inputs@.len() - i,
        {
            let ghost before = views(inputs@);
            let copy = self.inputs[i].clone();
            inputs.push(copy);
            i = i + 1;
            assert(views(inputs@) =~= before.push(copy@));
            assert(views(self.inputs@).take(i as int) =~= before.push(copy@));
        }
        let mut outputs: Vec<TxOutput> = Vec::new();
        let mut j: usize = 0;
        while j < self.outputs.len()
            invariant
                j <= self.outputs@.len(),
                views(outputs@) == views(self.outputs@).take(j as int),
            decreases self.outputs@.len() - j,
        {
            let ghost before = views(outputs@);
            let copy = self.outputs[j].clone();
            outputs.push(copy);
            j = j + 1;
            assert(views(outputs@) =~= before.push(copy@));
            assert(views(self.outputs@).take(j as int) =~= before.push(copy@));
        }
        assert(views(inputs@) =~= views(self.inputs@));
        assert(views(outputs@) =~= views(self.outputs@));
        Transaction { version: self.version, inputs, outputs, lock_time: self.lock_time }
    }
}

impl Transaction {
    /// A version-1 transaction without lock time.
    pub fn new(inputs: Vec<TxInput>, outputs: Vec<TxOutput>) -> (tx: Self)
        ensures
            tx@ == (TransactionView {
                version: 1,
                inputs: views(inputs@),
                outputs: views(outputs@),
                lock_time: 0,
            }),
    {
        Transaction { version: 1, inputs, outputs, lock_time: 0 }
    }

    /// The transaction that pays a block's reward: one coinbase input that
    /// carries `script_sig`, and the one output given.
    pub fn coinbase(script_sig: Vec<u8>, output: TxOutput, height: u32) -> (tx: Self)
        ensures
            tx@.version == 1,
            tx@.lock_time == 0,
            tx@.inputs == seq![
                TxInputView {
                    prev_tx_hash: Hash256::spec_zero(),
                    prev_index: COINBASE_INDEX,
                    script_sig: script_sig@,
                    sequence: 0xffff_ffff,
                },
            ],
            tx@.outputs == seq![output@],
            tx@.is_coinbase(),
    {
        let mut inputs: Vec<TxInput> = Vec::new();
        inputs.push(TxInput::coinbase(script_sig, height));
        let mut outputs: Vec<TxOutput> = Vec::new();
        outputs.push(output);
        let tx = Transaction { version: 1, inputs, outputs, lock_time: 0 };
        assert(tx@.inputs =~= seq![tx.inputs@[0]@]);
        assert(tx@.outputs =~= seq![output@]);
        tx
    }

    /// Whether the transaction has exactly one input and that input is a
    /// coinbase input.
    pub fn is_coinbase(&self) -> (r: bool)
        ensures
            r == self@.is_coinbase(),
    {
        self.inputs.len() == 1 && self.inputs[0].is_coinbase()
    }

    /// The id of the transaction: the double hash of its wire form.
    pub fn txid(&self) -> (id: Hash256)
        ensures
            id@ == self@.txid(),
    {
        let serialized = self.serialize();
        hash256(serialized.as_slice())
    }

    /// The value that the inputs bring. The transaction does not record it,
    /// so this is zero; the unspent-output index knows the amounts.
    pub fn total_input_value(&self) -> (total: u64)
        ensures
            total == 0,
    {
        0
    }

    /// The sum of the output values, or `u64::MAX` where the sum is larger.
    pub fn total_output_value(&self) -> (total: u64)
        ensures
            total == if self@.total_output() <= u64::MAX {
                self@.total_output()
            } else {
                u64::MAX as nat
            },
    {
        let ghost all = views(self.outputs@);
        let mut total: u64 = 0;
        let mut i: usize = 0;
        while i < self.outputs.len()
            invariant
                i <= self.outputs@.len(),
                all == views(self.outputs@),
                total == if total_value(all.take(i as int)) <= u64::MAX {
                    total_value(all.take(i as int))
                } else {
                    u64::MAX as nat
                },
            decreases self.outputs@.len() - i,
        {
            proof {
                let next = all.take(i + 1);
                assert(next.drop_last() =~= all.take(i as int));
                assert(next.last() == all[i as int]);
            }
            total = total.saturating_add(self.outputs[i].value);
            i = i + 1;
        }
        assert(all.take(self.outputs@.len() as int) =~= all);
        total
    }

    /// Reads one transaction, or fails and reads nothing.
    pub fn from_reader(reader: &mut Reader) -> (r: Result<Self, ErrorKind>)
        ensures
            match Self::parse(old(reader).remaining()) {
                Some((value, rest)) => r is Ok && r->Ok_0@ == value && final(reader).remaining()
                    == rest,
                None => r is Err && r->Err_0 == ErrorKind::MalformedInput && final(reader).remaining()
                    == old(reader).remaining(),
            },
    {
        Self::read(reader)
    }

    /// A transaction read back from its wire form is the same transaction,
    /// and so is its id.
    pub proof fn lemma_serialize_round_trip(tx: TransactionView)
        requires
            Self::valid(tx),
        ensures
            Self::spec_deserialize(Self::spec_serialize(tx)) == Some(tx),
            Self::spec_deserialize(Self::spec_serialize(tx))->Some_0.txid() == tx.txid(),
    {
        Self::lemma_round_trip(tx, Seq::empty());
        assert(Self::wire(tx) + Seq::<u8>::empty() =~= Self::wire(tx));
    }
}

impl Wire for Transaction {
    open spec fn valid(value: TransactionView) -> bool {
        &&& value.inputs.len() <= u64::MAX
        &&& value.outputs.len() <= u64::MAX
        &&& all_valid::<TxInput>(value.inputs)
        &&& all_valid::<TxOutput>(value.outputs)
    }

    open spec fn wire(value: TransactionView) -> Seq<u8> {
        spec_u32_to_le_bytes(value.version) + wire_counted::<TxInput>(value.inputs)
            + wire_counted::<TxOutput>(value.outputs) + spec_u32_to_le_bytes(value.lock_time)
    }

    open spec fn parse(s: Seq<u8>) -> Option<(TransactionView, Seq<u8>)> {
        match parse_u32(s) {
            Some((version, s1)) => match parse_counted::<TxInput>(s1) {
                Some((inputs, s2)) => match parse_counted::<TxOutput>(s2) {
                    Some((outputs, s3)) => match parse_u32(s3) {
                        Some((lock_time, s4)) => Some(
                            (TransactionView { version, inputs, outputs, lock_time }, s4),
                        ),
                        None => None,
                    },
                    None => None,
                },
                None => None,
            },
            None => None,
        }
    }

    proof fn lemma_round_trip(value: TransactionView, tail: Seq<u8>) {
        let t3 = spec_u32_to_le_bytes(value.lock_time) + tail;
        let t2 = wire_counted::<TxOutput>(value.outputs) + t3;
        let t1 = wire_counted::<TxInput>(value.inputs) + t2;
        lemma_u32_round_trip(value.version, t1);
        lemma_counted_round_trip::<TxInput>(value.inputs, t2);
        lemma_counted_round_trip::<TxOutput>(value.outputs, t3);
        lemma_u32_round_trip(value.lock_time, tail);
        assert(Self::wire(value) + tail =~= spec_u32_to_le_bytes(value.version) + t1);
    }

    fn write(&self, writer: &mut Vec<u8>) {
        let _inputs: usize = self.inputs.len();
        let _outputs: usize = self.outputs.len();
        write_u32(writer, self.version);
        write_counted(writer, &self.inputs);
        write_counted(writer, &self.outputs);
        write_u32(writer, self.lock_time);
        assert(writer@ =~= old(writer)@ + Self::wire(self@));
    }

    fn read(reader: &mut Reader) -> (r: Result<Self, ErrorKind>) {
        let mut probe = *reader;
        let version = probe.read_u32()?;
        let inputs = read_counted::<TxInput>(&mut probe)?;
        let outputs = read_counted::<TxOutput>(&mut probe)?;
        let lock_time = probe.read_u32()?;
        *reader = probe;
        Ok(Transaction { version, inputs, outputs, lock_time })
    }
}

impl Serializable for Transaction {
    open spec fn spec_serialize(value: TransactionView) -> Seq<u8> {
        Self::wire(value)
    }

    open spec fn spec_deserialize(data: Seq<u8>) -> Option<TransactionView> {
        match Self::parse(data) {
            Some((value, rest)) => Some(value),
            None => None,
        }
    }

    fn serialize(&self) -> (out: Vec<u8>) {
        let mut out: Vec<u8> = Vec::new();
        self.write(&mut out);
        assert(Seq::<u8>::empty() + Self::wire(self@) =~= Self::wire(self@));
        out
    }

    fn deserialize(data: &[u8]) -> (r: Result<Self, ErrorKind>) {
        let mut reader = Reader::new(data);
        Self::read(&mut reader)
    }
}

} // verus!
