//! The set of unspent transaction outputs, keyed by outpoint.

use crate::chain::transaction::{TxOutput, TxOutputView};
use crate::error::ErrorKind;
use crate::primitives::bytes::{append, array32, bytes_equal};
use crate::primitives::serialize::{
    lemma_u32_round_trip, write_u32, Reader, Wire,
};
use crate::primitives::types::Hash256;
use crate::storage::kv::{
    db_contains_key, db_entries, db_flush, db_get, db_insert, db_open, db_open_temporary,
    db_remove, entry_views, lemma_lookup_upsert_other, lemma_lookup_upsert_same,
    lemma_lookup_without_other, lemma_lookup_without_same, lookup, or_storage_error, stored,
    upsert, without,
};
use vstd::bytes::{
    lemma_auto_spec_u32_to_from_le_bytes, spec_u32_from_le_bytes, spec_u32_to_le_bytes,
    u32_from_le_bytes,
};
use vstd::prelude::*;
use vstd::slice::slice_subrange;

verus! {

/// A reference to one output of one transaction.
#[derive(Debug, PartialEq, Eq, Hash)]
pub struct OutPoint {
    /// The id of the transaction.
    pub txid: Hash256,
    /// The position of the output in the transaction.
    pub vout: u32,
}

/// What an [`OutPoint`] holds.
pub struct OutPointView {
    pub txid: Seq<u8>,
    pub vout: u32,
}

impl View for OutPoint {
    type V = OutPointView;

    open spec fn view(&self) -> OutPointView {
        OutPointView { txid: self.txid@, vout: self.vout }
    }
}

impl Clone for OutPoint {
    fn clone(&self) -> (copy: Self)
        ensures
            copy == *self,
    {
        OutPoint { txid: self.txid, vout: self.vout }
    }
}

impl OutPoint {
    /// The 36 key bytes of an outpoint: the id, then the position
    /// little-endian.
    pub open spec fn spec_to_bytes(outpoint: OutPointView) -> Seq<u8> {
        outpoint.txid + spec_u32_to_le_bytes(outpoint.vout)
    }

    /// The outpoint that 36 bytes stand for; `None` for any other length.
    pub open spec fn spec_from_bytes(bytes: Seq<u8>) -> Option<OutPointView> {
        if bytes.len() == 36 {
            Some(
                OutPointView {
                    txid: bytes.take(32),
                    vout: spec_u32_from_le_bytes(bytes.skip(32)),
                },
            )
        } else {
            None
        }
    }

    /// The outpoint of output `vout` of transaction `txid`.
    pub fn new(txid: Hash256, vout: u32) -> (outpoint: Self)
        ensures
            outpoint == (OutPoint { txid, vout }),
    {
        OutPoint { txid, vout }
    }

    /// The 36 key bytes.
    pub fn to_bytes(&self) -> (bytes: Vec<u8>)
        ensures
            bytes@ == Self::spec_to_bytes(self@),
            bytes@.len() == 36,
    {
        let mut bytes: Vec<u8> = Vec::new();
        append(&mut bytes, self.txid.as_bytes().as_slice());
        write_u32(&mut bytes, self.vout);
        proof {
            lemma_auto_spec_u32_to_from_le_bytes();
            assert(bytes@ =~= Self::spec_to_bytes(self@));
        }
        bytes
    }

    /// Reads an outpoint from exactly 36 bytes.
    pub fn from_bytes(bytes: &[u8]) -> (r: Result<Self, ErrorKind>)
        ensures
            match Self::spec_from_bytes(bytes@) {
                Some(outpoint) => r is Ok && r->Ok_0@ == outpoint,
                None => r is Err && r->Err_0 == ErrorKind::MalformedInput,
            },
    {
        if bytes.len() != 36 {
            return Err(ErrorKind::MalformedInput);
        }
        let txid = Hash256::new(array32(bytes, 0));
        let vout = u32_from_le_bytes(slice_subrange(bytes, 32, 36));
        assert(bytes@.subrange(0, 32) =~= bytes@.take(32));
        assert(bytes@.subrange(32, 36) =~= bytes@.skip(32));
        Ok(OutPoint { txid, vout })
    }

    /// An outpoint read back from its key bytes is the same outpoint, and
    /// the key is 36 bytes long.
    pub proof fn lemma_bytes_round_trip(outpoint: OutPointView)
        requires
            outpoint.txid.len() == 32,
        ensures
            Self::spec_to_bytes(outpoint).len() == 36,
            Self::spec_from_bytes(Self::spec_to_bytes(outpoint)) == Some(outpoint),
    {
        lemma_auto_spec_u32_to_from_le_bytes();
        let bytes = Self::spec_to_bytes(outpoint);
        assert(bytes.take(32) =~= outpoint.txid);
        assert(bytes.skip(32) =~= spec_u32_to_le_bytes(outpoint.vout));
    }
}

/// An unspent output with the height of its block and whether a coinbase
/// made it.
#[derive(Debug)]
pub struct Utxo {
    /// The output.
    pub output: TxOutput,
    /// The height of the block that holds the output.
    pub height: u32,
    /// Whether a coinbase transaction made the output.
    pub is_coinbase: bool,
}

/// What a [`Utxo`] holds.
pub struct UtxoView {
    pub output: TxOutputView,
    pub height: u32,
    pub is_coinbase: bool,
}

impl View for Utxo {
    type V = UtxoView;

    open spec fn view(&self) -> UtxoView {
        UtxoView { output: self.output@, height: self.height, is_coinbase: self.is_coinbase }
    }
}

impl Clone for Utxo {
    fn clone(&self) -> (copy: Self)
        ensures
            copy@ == self@,
    {
        Utxo { output: self.output.clone(), height: self.height, is_coinbase: self.is_coinbase }
    }
}

impl Utxo {
    /// The stored form: the output, the height little-endian, and one flag
    /// byte.
    pub open spec fn spec_to_bytes(utxo: UtxoView) -> Seq<u8> {
        TxOutput::wire(utxo.output) + spec_u32_to_le_bytes(utxo.height) + seq![
            if utxo.is_coinbase {
                1u8
            } else {
                0u8
            },
        ]
    }

    /// The record that a stored form stands for. The last five bytes are the
    /// height and the flag, any non-zero flag meaning a coinbase; the output
    /// is read from the start of what is before them.
    pub open spec fn spec_from_bytes(bytes: Seq<u8>) -> Option<UtxoView> {
        if bytes.len() < 13 {
            None
        } else {
            let split = bytes.len() - 5;
            match TxOutput::parse(bytes.take(split)) {
                Some((output, rest)) => Some(
                    UtxoView {
                        output,
                        height: spec_u32_from_le_bytes(bytes.subrange(split, split + 4)),
                        is_coinbase: bytes[split + 4] != 0,
                    },
                ),
                None => None,
            }
        }
    }

    /// A record of an output.
    pub fn new(output: TxOutput, height: u32, is_coinbase: bool) -> (utxo: Self)
        ensures
            utxo@ == (UtxoView { output: output@, height, is_coinbase }),
    {
        Utxo { output, height, is_coinbase }
    }

    /// The stored form.
    pub fn to_bytes(&self) -> (bytes: Vec<u8>)
        ensures
            bytes@ == Self::spec_to_bytes(self@),
    {
        let mut bytes: Vec<u8> = Vec::new();
        self.output.write(&mut bytes);
        write_u32(&mut bytes, self.height);
        bytes.push(if self.is_coinbase { 1 } else { 0 });
        assert(bytes@ =~= Self::spec_to_bytes(self@));
        bytes
    }

    /// Reads a record from its stored form.
    pub fn from_bytes(bytes: &[u8]) -> (r: Result<Self, ErrorKind>)
        ensures
            match Self::spec_from_bytes(bytes@) {
                Some(utxo) => r is Ok && r->Ok_0@ == utxo,
                None => r is Err && r->Err_0 == ErrorKind::MalformedInput,
            },
    {
        let len: usize = bytes.len();
        if len < 13 {
            return Err(ErrorKind::MalformedInput);
        }
        let split: usize = len - 5;
        let output_bytes = slice_subrange(bytes, 0, split);
        assert(output_bytes@ =~= bytes@.take(split as int));
        let mut reader = Reader::new(output_bytes);
        let output = TxOutput::deserialize(&mut reader)?;
        let height = u32_from_le_bytes(slice_subrange(bytes, split, split + 4));
        let is_coinbase = bytes[len - 1] != 0;
        Ok(Utxo { output, height, is_coinbase })
    }

    /// A record read back from its stored form is the same record.
    pub proof fn lemma_bytes_round_trip(utxo: UtxoView)
        requires
            TxOutput::valid(utxo.output),
        ensures
            Self::spec_from_bytes(Self::spec_to_bytes(utxo)) == Some(utxo),
    {
        lemma_auto_spec_u32_to_from_le_bytes();
        vstd::bytes::lemma_auto_spec_u64_to_from_le_bytes();
        crate::primitives::serialize::lemma_varint_len(utxo.output.script_pubkey.len() as u64);
        let wire = TxOutput::wire(utxo.output);
        let bytes = Self::spec_to_bytes(utxo);
        let split = bytes.len() - 5;
        assert(wire.len() >= 9);
        assert(bytes.take(split) =~= wire);
        assert(bytes.subrange(split, split + 4) =~= spec_u32_to_le_bytes(utxo.height));
        TxOutput::lemma_round_trip(utxo.output, Seq::empty());
        assert(wire + Seq::<u8>::empty() =~= wire);
    }
}

/// The views of some outpoints with their records.
pub open spec fn utxo_views(pairs: Seq<(OutPoint, Utxo)>) -> Seq<(OutPointView, UtxoView)> {
    Seq::new(pairs.len(), |i: int| (pairs[i].0@, pairs[i].1@))
}

/// A number as a `u64`, or `u64::MAX` where it is larger.
pub open spec fn clip(n: nat) -> u64 {
    if n <= u64::MAX {
        n as u64
    } else {
        u64::MAX
    }
}

/// The sum of the values of the stored outputs that `script` locks; `None`
/// where a stored value is no record.
pub open spec fn spec_balance(entries: Seq<(Seq<u8>, Seq<u8>)>, script: Seq<u8>) -> Option<nat>
    decreases entries.len(),
{
    if entries.len() == 0 {
        Some(0nat)
    } else {
        match spec_balance(entries.drop_last(), script) {
            None => None,
            Some(before) => match Utxo::spec_from_bytes(entries.last().1) {
                None => None,
                Some(utxo) => if utxo.output.script_pubkey == script {
                    Some(before + utxo.output.value as nat)
                } else {
                    Some(before)
                },
            },
        }
    }
}

/// The stored outputs that `script` locks, with their outpoints, in key
/// order; `None` where a stored value is no record or the key of such an
/// output is no outpoint.
pub open spec fn spec_utxos_for_script(entries: Seq<(Seq<u8>, Seq<u8>)>, script: Seq<u8>) -> Option<
    Seq<(OutPointView, UtxoView)>,
>
    decreases entries.len(),
{
    if entries.len() == 0 {
        Some(Seq::empty())
    } else {
        match spec_utxos_for_script(entries.drop_last(), script) {
            None => None,
            Some(before) => match Utxo::spec_from_bytes(entries.last().1) {
                None => None,
                Some(utxo) => if utxo.output.script_pubkey == script {
                    match OutPoint::spec_from_bytes(entries.last().0) {
                        None => None,
                        Some(outpoint) => Some(before.push((outpoint, utxo))),
                    }
                } else {
                    Some(before)
                },
            },
        }
    }
}

/// All stored outputs with their outpoints, in key order; `None` where a key
/// is no outpoint or a value no record.
pub open spec fn spec_all_utxos(entries: Seq<(Seq<u8>, Seq<u8>)>) -> Option<
    Seq<(OutPointView, UtxoView)>,
>
    decreases entries.len(),
{
    if entries.len() == 0 {
        Some(Seq::empty())
    } else {
        match spec_all_utxos(entries.drop_last()) {
            None => None,
            Some(before) => match OutPoint::spec_from_bytes(entries.last().0) {
                None => None,
                Some(outpoint) => match Utxo::spec_from_bytes(entries.last().1) {
                    None => None,
                    Some(utxo) => Some(before.push((outpoint, utxo))),
                },
            },
        }
    }
}

/// The record stored under an outpoint.
pub open spec fn spec_get_utxo(entries: Seq<(Seq<u8>, Seq<u8>)>, outpoint: OutPointView) -> Result<
    Option<UtxoView>,
    ErrorKind,
> {
    match lookup(entries, OutPoint::spec_to_bytes(outpoint)) {
        None => Ok(None),
        Some(bytes) => match Utxo::spec_from_bytes(bytes) {
            Some(utxo) => Ok(Some(utxo)),
            None => Err(ErrorKind::MalformedInput),
        },
    }
}

/// A scan that fails on a prefix of the entries fails on all of them.
proof fn lemma_balance_prefix(entries: Seq<(Seq<u8>, Seq<u8>)>, script: Seq<u8>, n: int)
    requires
        0 <= n <= entries.len(),
        spec_balance(entries.take(n), script) is None,
    ensures
        spec_balance(entries, script) is None,
    decreases entries.len() - n,
{
    if n < entries.len() {
        assert(entries.take(n + 1).drop_last() =~= entries.take(n));
        lemma_balance_prefix(entries, script, n + 1);
    } else {
        assert(entries.take(n) =~= entries);
    }
}

/// A scan that fails on a prefix of the entries fails on all of them.
proof fn lemma_utxos_for_script_prefix(entries: Seq<(Seq<u8>, Seq<u8>)>, script: Seq<u8>, n: int)
    requires
        0 <= n <= entries.len(),
        spec_utxos_for_script(entries.take(n), script) is None,
    ensures
        spec_utxos_for_script(entries, script) is None,
    decreases entries.len() - n,
{
    if n < entries.len() {
        assert(entries.take(n + 1).drop_last() =~= entries.take(n));
        lemma_utxos_for_script_prefix(entries, script, n + 1);
    } else {
        assert(entries.take(n) =~= entries);
    }
}

/// A scan that fails on a prefix of the entries fails on all of them.
proof fn lemma_all_utxos_prefix(entries: Seq<(Seq<u8>, Seq<u8>)>, n: int)
    requires
        0 <= n <= entries.len(),
        spec_all_utxos(entries.take(n)) is None,
    ensures
        spec_all_utxos(entries) is None,
    decreases entries.len() - n,
{
    if n < entries.len() {
        assert(entries.take(n + 1).drop_last() =~= entries.take(n));
        lemma_all_utxos_prefix(entries, n + 1);
    } else {
        assert(entries.take(n) =~= entries);
    }
}

/// After an output is added and then removed, it is not in the set.
pub proof fn lemma_removed_utxo_is_gone(
    entries: Seq<(Seq<u8>, Seq<u8>)>,
    outpoint: OutPointView,
    utxo: UtxoView,
)
    ensures
        ({
            let key = OutPoint::spec_to_bytes(outpoint);
            let added = upsert(entries, key, Utxo::spec_to_bytes(utxo));
            let removed = without(added, key);
            &&& lookup(added, key) is Some
            &&& lookup(removed, key) is None
            &&& spec_get_utxo(removed, outpoint) == Ok::<Option<UtxoView>, ErrorKind>(None)
        }),
{
    let key = OutPoint::spec_to_bytes(outpoint);
    let added = upsert(entries, key, Utxo::spec_to_bytes(utxo));
    lemma_lookup_upsert_same(entries, key, Utxo::spec_to_bytes(utxo));
    lemma_lookup_without_same(added, key);
}

/// Adding an output and removing it again leaves what is found under every
/// other key as it was before.
pub proof fn lemma_add_remove_keeps_others(
    entries: Seq<(Seq<u8>, Seq<u8>)>,
    outpoint: OutPointView,
    utxo: UtxoView,
    other: Seq<u8>,
)
    requires
        other != OutPoint::spec_to_bytes(outpoint),
    ensures
        ({
            let key = OutPoint::spec_to_bytes(outpoint);
            let added = upsert(entries, key, Utxo::spec_to_bytes(utxo));
            let removed = without(added, key);
            &&& lookup(added, other) == lookup(entries, other)
            &&& lookup(removed, other) == lookup(entries, other)
        }),
{
    let key = OutPoint::spec_to_bytes(outpoint);
    let added = upsert(entries, key, Utxo::spec_to_bytes(utxo));
    lemma_lookup_upsert_other(entries, key, Utxo::spec_to_bytes(utxo), other);
    lemma_lookup_without_other(added, key, other);
}

/// Two outpoints with ids of 32 bytes have the same key only where they are
/// the same outpoint.
pub proof fn lemma_outpoint_keys_differ(a: OutPointView, b: OutPointView)
    requires
        a.txid.len() == 32,
        b.txid.len() == 32,
        a != b,
    ensures
        OutPoint::spec_to_bytes(a) != OutPoint::spec_to_bytes(b),
{
    OutPoint::lemma_bytes_round_trip(a);
    OutPoint::lemma_bytes_round_trip(b);
}

/// An output that was added is found under its outpoint as it was added.
pub proof fn lemma_added_utxo_is_found(
    entries: Seq<(Seq<u8>, Seq<u8>)>,
    outpoint: OutPointView,
    utxo: UtxoView,
)
    requires
        TxOutput::valid(utxo.output),
    ensures
        spec_get_utxo(
            upsert(entries, OutPoint::spec_to_bytes(outpoint), Utxo::spec_to_bytes(utxo)),
            outpoint,
        ) == Ok::<Option<UtxoView>, ErrorKind>(Some(utxo)),
{
    lemma_lookup_upsert_same(entries, OutPoint::spec_to_bytes(outpoint), Utxo::spec_to_bytes(utxo));
    Utxo::lemma_bytes_round_trip(utxo);
}

/// Decodes every entry: all outputs with their outpoints, in the order of
/// the entries. Fails where a key is no outpoint or a value no record.
pub fn all_utxos_of(entries: &[(Vec<u8>, Vec<u8>)]) -> (r: Result<Vec<(OutPoint, Utxo)>, ErrorKind>)
    ensures
        match spec_all_utxos(entry_views(entries@)) {
            Some(pairs) => r matches Ok(found) && utxo_views(found@) == pairs,
            None => r matches Err(e) && e == ErrorKind::MalformedInput,
        },
{
    let ghost all = entry_views(entries@);
    let mut utxos: Vec<(OutPoint, Utxo)> = Vec::new();
    let mut i: usize = 0;
    while i < entries.len()
        invariant
            i <= entries@.len(),
            all == entry_views(entries@),
            spec_all_utxos(all.take(i as int)) == Some(utxo_views(utxos@)),
        decreases entries@.len() - i,
    {
        proof {
            assert(all.take(i + 1).drop_last() =~= all.take(i as int));
            assert(all.take(i + 1).last() == all[i as int]);
        }
        let ghost before = utxo_views(utxos@);
        let outpoint = match OutPoint::from_bytes(entries[i].0.as_slice()) {
            Ok(outpoint) => outpoint,
            Err(e) => {
                proof {
                    lemma_all_utxos_prefix(all, i + 1);
                }
                return Err(e);
            },
        };
        let utxo = match Utxo::from_bytes(entries[i].1.as_slice()) {
            Ok(utxo) => utxo,
            Err(e) => {
                proof {
                    lemma_all_utxos_prefix(all, i + 1);
                }
                return Err(e);
            },
        };
        utxos.push((outpoint, utxo));
        assert(utxo_views(utxos@) =~= before.push((outpoint@, utxo@)));
        i = i + 1;
    }
    assert(all.take(entries@.len() as int) =~= all);
    Ok(utxos)
}

/// The sum of the values of the entries' outputs that `script_pubkey` locks,
/// or `u64::MAX` where the sum is larger. Fails where a value is no record.
pub fn balance_of(entries: &[(Vec<u8>, Vec<u8>)], script_pubkey: &[u8]) -> (r: Result<u64, ErrorKind>)
    ensures
        match spec_balance(entry_views(entries@), script_pubkey@) {
            Some(total) => r == Ok::<u64, ErrorKind>(clip(total)),
            None => r == Err::<u64, ErrorKind>(ErrorKind::MalformedInput),
        },
{
    let ghost all = entry_views(entries@);
    let mut balance: u64 = 0;
    let mut i: usize = 0;
    while i < entries.len()
        invariant
            i <= entries@.len(),
            all == entry_views(entries@),
            spec_balance(all.take(i as int), script_pubkey@) is Some,
            balance == if spec_balance(all.take(i as int), script_pubkey@)->Some_0
                <= u64::MAX {
                spec_balance(all.take(i as int), script_pubkey@)->Some_0
            } else {
                u64::MAX as nat
            },
        decreases entries@.len() - i,
    {
        proof {
            assert(all.take(i + 1).drop_last() =~= all.take(i as int));
            assert(all.take(i + 1).last() == all[i as int]);
        }
        let utxo = match Utxo::from_bytes(entries[i].1.as_slice()) {
            Ok(utxo) => utxo,
            Err(e) => {
                proof {
                    lemma_balance_prefix(all, script_pubkey@, i + 1);
                }
                return Err(e);
            },
        };
        if bytes_equal(utxo.output.script_pubkey.as_slice(), script_pubkey) {
            balance = balance.saturating_add(utxo.output.value);
        }
        i = i + 1;
    }
    assert(all.take(entries@.len() as int) =~= all);
    Ok(balance)
}

/// The entries' outputs that `script_pubkey` locks, with their outpoints, in
/// the order of the entries. Fails where a value is no record or the key of
/// such an output is no outpoint.
pub fn utxos_for_script_of(entries: &[(Vec<u8>, Vec<u8>)], script_pubkey: &[u8]) -> (r: Result<
    Vec<(OutPoint, Utxo)>,
    ErrorKind,
>)
    ensures
        match spec_utxos_for_script(entry_views(entries@), script_pubkey@) {
            Some(pairs) => r matches Ok(found) && utxo_views(found@) == pairs,
            None => r matches Err(e) && e == ErrorKind::MalformedInput,
        },
{
    let ghost all = entry_views(entries@);
    let mut utxos: Vec<(OutPoint, Utxo)> = Vec::new();
    let mut i: usize = 0;
    while i < entries.len()
        invariant
            i <= entries@.len(),
            all == entry_views(entries@),
            spec_utxos_for_script(all.take(i as int), script_pubkey@) == Some(
                utxo_views(utxos@),
            ),
        decreases entries@.len() - i,
    {
        proof {
            assert(all.take(i + 1).drop_last() =~= all.take(i as int));
            assert(all.take(i + 1).last() == all[i as int]);
        }
        let ghost before = utxo_views(utxos@);
        let utxo = match Utxo::from_bytes(entries[i].1.as_slice()) {
            Ok(utxo) => utxo,
            Err(e) => {
                proof {
                    lemma_utxos_for_script_prefix(all, script_pubkey@, i + 1);
                }
                return Err(e);
            },
        };
        if bytes_equal(utxo.output.script_pubkey.as_slice(), script_pubkey) {
            let outpoint = match OutPoint::from_bytes(entries[i].0.as_slice()) {
                Ok(outpoint) => outpoint,
                Err(e) => {
                    proof {
                        lemma_utxos_for_script_prefix(all, script_pubkey@, i + 1);
                    }
                    return Err(e);
                },
            };
            utxos.push((outpoint, utxo));
            assert(utxo_views(utxos@) =~= before.push((outpoint@, utxo@)));
        }
        i = i + 1;
    }
    assert(all.take(entries@.len() as int) =~= all);
    Ok(utxos)
}

/// The set of unspent outputs.
pub struct UtxoSet {
    db: sled::Db,
}

impl View for UtxoSet {
    type V = Seq<(Seq<u8>, Seq<u8>)>;

    /// The entries of the set, in key order: outpoint bytes and stored
    /// records.
    closed spec fn view(&self) -> Seq<(Seq<u8>, Seq<u8>)> {
        stored(self.db)
    }
}

impl UtxoSet {
    /// Opens the set in the directory `path`, creating it where there is
    /// none.
    pub fn new(path: &str) -> (r: Result<Self, ErrorKind>)
        ensures
            r is Err ==> r->Err_0 == ErrorKind::StorageError,
    {
        let db = or_storage_error(db_open(path))?;
        Ok(UtxoSet { db })
    }

    /// A set that lives in memory and starts empty.
    pub fn memory() -> (r: Result<Self, ErrorKind>)
        ensures
            r matches Ok(set) ==> set@ == Seq::<(Seq<u8>, Seq<u8>)>::empty(),
            r is Err ==> r->Err_0 == ErrorKind::StorageError,
    {
        let db = or_storage_error(db_open_temporary())?;
        Ok(UtxoSet { db })
    }

    /// Adds an output under its outpoint and writes the set to disk. After a
    /// failure the output may or may not be in the set.
    pub fn add_utxo(&mut self, outpoint: &OutPoint, utxo: &Utxo) -> (r: Result<(), ErrorKind>)
        ensures
            r is Ok ==> final(self)@ == upsert(
                old(self)@,
                OutPoint::spec_to_bytes(outpoint@),
                Utxo::spec_to_bytes(utxo@),
            ),
            r is Err ==> r->Err_0 == ErrorKind::StorageError,
    {
        let key = outpoint.to_bytes();
        let value = utxo.to_bytes();
        or_storage_error(db_insert(&mut self.db, key.as_slice(), value.as_slice()))?;
        or_storage_error(db_flush(&self.db))?;
        Ok(())
    }

    /// The output under an outpoint.
    pub fn get_utxo(&self, outpoint: &OutPoint) -> (r: Result<Option<Utxo>, ErrorKind>)
        ensures
            r == Err::<Option<Utxo>, ErrorKind>(ErrorKind::StorageError) || match spec_get_utxo(
                self@,
                outpoint@,
            ) {
                Ok(Some(utxo)) => r matches Ok(Some(found)) && found@ == utxo,
                Ok(None) => r matches Ok(None),
                Err(e) => r matches Err(err) && err == e,
            },
    {
        let key = outpoint.to_bytes();
        match or_storage_error(db_get(&self.db, key.as_slice()))? {
            Some(data) => {
                let utxo = Utxo::from_bytes(data.as_slice())?;
                Ok(Some(utxo))
            },
            None => Ok(None),
        }
    }

    /// Removes the output under an outpoint, writes the set to disk, and
    /// says whether there was one. After a failure the output may or may not
    /// be in the set.
    pub fn remove_utxo(&mut self, outpoint: &OutPoint) -> (r: Result<bool, ErrorKind>)
        ensures
            r matches Ok(existed) ==> {
                &&& final(self)@ == without(old(self)@, OutPoint::spec_to_bytes(outpoint@))
                &&& existed == (lookup(old(self)@, OutPoint::spec_to_bytes(outpoint@)) is Some)
            },
            r is Err ==> r->Err_0 == ErrorKind::StorageError,
    {
        let key = outpoint.to_bytes();
        let previous = or_storage_error(db_remove(&mut self.db, key.as_slice()))?;
        or_storage_error(db_flush(&self.db))?;
        Ok(previous.is_some())
    }

    /// Whether the set holds an output under an outpoint.
    pub fn has_utxo(&self, outpoint: &OutPoint) -> (r: Result<bool, ErrorKind>)
        ensures
            r matches Ok(present) ==> present == (lookup(
                self@,
                OutPoint::spec_to_bytes(outpoint@),
            ) is Some),
            r is Err ==> r->Err_0 == ErrorKind::StorageError,
    {
        let key = outpoint.to_bytes();
        or_storage_error(db_contains_key(&self.db, key.as_slice()))
    }

    /// All outputs with their outpoints, in key order.
    pub fn get_all_utxos(&self) -> (r: Result<Vec<(OutPoint, Utxo)>, ErrorKind>)
        ensures
            r == Err::<Vec<(OutPoint, Utxo)>, ErrorKind>(ErrorKind::StorageError)
                || match spec_all_utxos(self@) {
                Some(pairs) => r matches Ok(found) && utxo_views(found@) == pairs,
                None => r matches Err(e) && e == ErrorKind::MalformedInput,
            },
    {
        let entries = or_storage_error(db_entries(&self.db))?;
        all_utxos_of(entries.as_slice())
    }

    /// The sum of the values of the outputs that `script_pubkey` locks, or
    /// `u64::MAX` where the sum is larger.
    pub fn get_balance(&self, script_pubkey: &[u8]) -> (r: Result<u64, ErrorKind>)
        ensures
            r == Err::<u64, ErrorKind>(ErrorKind::StorageError) || match spec_balance(
                self@,
                script_pubkey@,
            ) {
                Some(total) => r == Ok::<u64, ErrorKind>(clip(total)),
                None => r == Err::<u64, ErrorKind>(ErrorKind::MalformedInput),
            },
    {
        let entries = or_storage_error(db_entries(&self.db))?;
        balance_of(entries.as_slice(), script_pubkey)
    }

    /// The outputs that `script_pubkey` locks, with their outpoints, in key
    /// order.
    pub fn get_utxos_for_script(&self, script_pubkey: &[u8]) -> (r: Result<
        Vec<(OutPoint, Utxo)>,
        ErrorKind,
    >)
        ensures
            r == Err::<Vec<(OutPoint, Utxo)>, ErrorKind>(ErrorKind::StorageError)
                || match spec_utxos_for_script(self@, script_pubkey@) {
                Some(pairs) => r matches Ok(found) && utxo_views(found@) == pairs,
                None => r matches Err(e) && e == ErrorKind::MalformedInput,
            },
    {
        let entries = or_storage_error(db_entries(&self.db))?;
        utxos_for_script_of(entries.as_slice(), script_pubkey)
    }

    /// The number of outputs in the set.
    pub fn count(&self) -> (r: Result<usize, ErrorKind>)
        ensures
            r == Err::<usize, ErrorKind>(ErrorKind::StorageError) || r == Ok::<usize, ErrorKind>(
                self@.len() as usize,
            ),
    {
        let entries = or_storage_error(db_entries(&self.db))?;
        Ok(entries.len())
    }
}

} // verus!
