//! The transaction builder: coin selection, outputs with change, signing.

use crate::chain::script::{spec_script_pubkey, spec_verify_p2pkh, Script};
use crate::chain::transaction::{
    total_value, Transaction, TransactionView, TxInput, TxInputView, TxOutput, TxOutputView,
};
use crate::consensus::validation::{spec_signing_digest, spec_unsigned, spec_validate_signature};
use crate::error::ErrorKind;
use crate::primitives::bytes::to_vec;
use crate::primitives::serialize::views;
use crate::storage::utxo_set::{
    clip, spec_balance, spec_utxos_for_script, utxo_views, OutPoint, OutPointView, Utxo, UtxoSet,
    UtxoView,
};
use crate::wallet::keystore::{Address, KeyPair, KeyPairView, Keystore, KeystoreView};
use vstd::prelude::*;

verus! {

/// The sum of the values of some unspent outputs.
pub open spec fn input_total(utxos: Seq<(OutPointView, UtxoView)>) -> nat
    decreases utxos.len(),
{
    if utxos.len() == 0 {
        0
    } else {
        input_total(utxos.drop_last()) + utxos.last().1.output.value as nat
    }
}

/// How many outputs, from position `taken` on, must be added to the first
/// `taken` until their total reaches `target`; `None` where all of them do
/// not reach it. At least one is added.
pub open spec fn select_count(utxos: Seq<(OutPointView, UtxoView)>, target: nat, taken: nat) -> Option<
    nat,
>
    decreases utxos.len() - taken,
{
    if taken >= utxos.len() {
        None
    } else if input_total(utxos.take(taken as int + 1)) >= target {
        Some((taken + 1) as nat)
    } else {
        select_count(utxos, target, taken + 1)
    }
}

/// Coin selection: the shortest non-empty prefix of the outputs whose total
/// reaches `target`.
pub open spec fn spec_select(utxos: Seq<(OutPointView, UtxoView)>, target: nat) -> Option<nat> {
    select_count(utxos, target, 0)
}

/// The inputs that spend some outputs, not yet signed.
pub open spec fn unsigned_inputs(selected: Seq<(OutPointView, UtxoView)>) -> Seq<TxInputView> {
    Seq::new(
        selected.len(),
        |i: int|
            TxInputView {
                prev_tx_hash: selected[i].0.txid,
                prev_index: selected[i].0.vout,
                script_sig: Seq::empty(),
                sequence: 0xffff_ffff,
            },
    )
}

/// The payment output and, where change is left, the change output.
pub open spec fn payment_outputs(
    amount: u64,
    recipient_script: Seq<u8>,
    change: u64,
    sender_script: Seq<u8>,
) -> Seq<TxOutputView> {
    if change > 0 {
        seq![
            TxOutputView { value: amount, script_pubkey: recipient_script },
            TxOutputView { value: change, script_pubkey: sender_script },
        ]
    } else {
        seq![TxOutputView { value: amount, script_pubkey: recipient_script }]
    }
}

/// A transaction with the same unlocking script in every input.
pub open spec fn with_script_sig(tx: TransactionView, script_sig: Seq<u8>) -> TransactionView {
    TransactionView {
        inputs: Seq::new(tx.inputs.len(), |i: int| TxInputView { script_sig, ..tx.inputs[i] }),
        ..tx
    }
}

/// The transaction that a key pair signs: the unsigned transaction with the
/// key pair's unlocking script for its id in every input.
pub open spec fn spec_sign(tx: TransactionView, pair: KeyPairView) -> TransactionView {
    with_script_sig(tx, pair.script_sig(tx.txid()))
}

/// What `build_from` returns for the sender's key pair and the unspent
/// outputs that its script locks: the selected outputs as inputs, the payment
/// and the change as outputs, signed by the sender.
pub open spec fn spec_build_from(
    pair: KeyPairView,
    utxos: Seq<(OutPointView, UtxoView)>,
    to: Seq<char>,
    amount: u64,
    fee: u64,
) -> Result<TransactionView, ErrorKind> {
    match spec_select(utxos, (amount + fee) as nat) {
        None => Err(
            ErrorKind::InsufficientFunds {
                have: clip(input_total(utxos)),
                need: clip((amount + fee) as nat),
            },
        ),
        Some(count) => match Address::spec_to_pubkey_hash(to) {
            None => Err(ErrorKind::MalformedInput),
            Some(recipient_hash) => {
                let selected = utxos.take(count as int);
                let change = (input_total(selected) - amount - fee) as u64;
                let unsigned = TransactionView {
                    version: 1,
                    inputs: unsigned_inputs(selected),
                    outputs: payment_outputs(
                        amount,
                        spec_script_pubkey(recipient_hash),
                        change,
                        pair.script_pubkey(),
                    ),
                    lock_time: 0,
                };
                Ok(spec_sign(unsigned, pair))
            },
        },
    }
}

/// What `build` returns for a keystore and a set of unspent outputs.
pub open spec fn spec_build(
    keystore: KeystoreView,
    entries: Seq<(Seq<u8>, Seq<u8>)>,
    from: Seq<char>,
    to: Seq<char>,
    amount: u64,
    fee: u64,
) -> Result<TransactionView, ErrorKind> {
    match keystore.find(from) {
        None => Err(ErrorKind::AddressNotFound),
        Some(pair) => match spec_utxos_for_script(entries, pair.script_pubkey()) {
            None => Err(ErrorKind::MalformedInput),
            Some(utxos) => spec_build_from(pair, utxos, to, amount, fee),
        },
    }
}

/// What a build returned, over views.
pub open spec fn build_outcome(r: Result<Transaction, ErrorKind>) -> Result<
    TransactionView,
    ErrorKind,
> {
    match r {
        Ok(tx) => Ok(tx@),
        Err(e) => Err(e),
    }
}

/// The outputs and the fee add up to the inputs exactly, and the change
/// output is there if and only if change is left.
pub proof fn lemma_outputs_and_fee_equal_inputs(
    selected: Seq<(OutPointView, UtxoView)>,
    amount: u64,
    fee: u64,
    change: u64,
    recipient_script: Seq<u8>,
    sender_script: Seq<u8>,
)
    requires
        input_total(selected) == amount + fee + change,
    ensures
        ({
            let outputs = payment_outputs(amount, recipient_script, change, sender_script);
            &&& total_value(outputs) + fee == input_total(selected)
            &&& outputs[0].value == amount
            &&& change == 0 <==> outputs.len() == 1
            &&& change > 0 <==> outputs.len() == 2
            &&& change > 0 ==> outputs[1].value == change
        }),
{
    let outputs = payment_outputs(amount, recipient_script, change, sender_script);
    if change > 0 {
        assert(outputs.drop_last() =~= seq![outputs[0]]);
        assert(outputs.drop_last().drop_last() =~= Seq::<TxOutputView>::empty());
        assert(total_value(outputs.drop_last()) == amount) by {
            assert(total_value(outputs.drop_last().drop_last()) == 0);
        }
    } else {
        assert(outputs.drop_last() =~= Seq::<TxOutputView>::empty());
        assert(total_value(outputs.drop_last()) == 0);
    }
}

/// The balance of a script is the sum of the values of the unspent outputs
/// that the script locks.
pub proof fn lemma_balance_is_sum_of_utxos(entries: Seq<(Seq<u8>, Seq<u8>)>, script: Seq<u8>)
    requires
        spec_utxos_for_script(entries, script) is Some,
    ensures
        spec_balance(entries, script) == Some(
            input_total(spec_utxos_for_script(entries, script)->Some_0),
        ),
        forall|i: int|
            0 <= i < spec_utxos_for_script(entries, script)->Some_0.len() ==> (
            #[trigger] spec_utxos_for_script(entries, script)->Some_0[i]).1.output.script_pubkey
                == script,
    decreases entries.len(),
{
    if entries.len() > 0 {
        lemma_balance_is_sum_of_utxos(entries.drop_last(), script);
        let before = spec_utxos_for_script(entries.drop_last(), script)->Some_0;
        let utxo = crate::storage::utxo_set::Utxo::spec_from_bytes(entries.last().1)->Some_0;
        if utxo.output.script_pubkey == script {
            let all = spec_utxos_for_script(entries, script)->Some_0;
            assert(all.drop_last() =~= before);
        }
    }
}

/// What coin selection takes reaches the target, and no shorter prefix
/// behind the first `taken` outputs does.
proof fn lemma_select_covers(utxos: Seq<(OutPointView, UtxoView)>, target: nat, taken: nat)
    requires
        select_count(utxos, target, taken) is Some,
    ensures
        ({
            let count = select_count(utxos, target, taken)->Some_0;
            &&& taken < count <= utxos.len()
            &&& input_total(utxos.take(count as int)) >= target
            &&& forall|n: int| taken < n < count ==> input_total(#[trigger] utxos.take(n)) < target
        }),
    decreases utxos.len() - taken,
{
    if taken >= utxos.len() {
    } else if input_total(utxos.take(taken as int + 1)) >= target {
    } else {
        lemma_select_covers(utxos, target, taken + 1);
    }
}

/// A transaction that `build` returns spends the selected outputs and no
/// others; its outputs and the fee add up to the value of those outputs
/// exactly; it pays `amount` first; and it has a change output if and only
/// if change is left.
pub proof fn lemma_build_conserves_value(
    keystore: KeystoreView,
    entries: Seq<(Seq<u8>, Seq<u8>)>,
    from: Seq<char>,
    to: Seq<char>,
    amount: u64,
    fee: u64,
)
    requires
        spec_build(keystore, entries, from, to, amount, fee) is Ok,
    ensures
        ({
            let tx = spec_build(keystore, entries, from, to, amount, fee)->Ok_0;
            let sender = keystore.find(from)->Some_0;
            let utxos = spec_utxos_for_script(entries, sender.script_pubkey())->Some_0;
            let count = spec_select(utxos, (amount + fee) as nat)->Some_0;
            let spent = input_total(utxos.take(count as int));
            &&& 1 <= count <= utxos.len()
            &&& tx.inputs.len() == count
            &&& forall|i: int|
                0 <= i < count ==> (#[trigger] tx.inputs[i]).prev_tx_hash == utxos[i].0.txid
                    && tx.inputs[i].prev_index == utxos[i].0.vout
            &&& total_value(tx.outputs) + fee == spent
            &&& tx.outputs[0].value == amount
            &&& spent == amount + fee <==> tx.outputs.len() == 1
            &&& spent > amount + fee <==> tx.outputs.len() == 2
            &&& tx.outputs.len() == 2 ==> tx.outputs[1].value == spent - amount - fee
                && tx.outputs[1].script_pubkey == sender.script_pubkey()
        }),
{
    let sender = keystore.find(from)->Some_0;
    let utxos = spec_utxos_for_script(entries, sender.script_pubkey())->Some_0;
    let target = (amount + fee) as nat;
    lemma_select_covers(utxos, target, 0);
    let count = spec_select(utxos, target)->Some_0;
    let selected = utxos.take(count as int);
    let spent = input_total(selected);
    assert(selected.drop_last() =~= utxos.take(count - 1));
    if count > 1 {
        assert(input_total(utxos.take(count - 1)) < target);
    } else {
        assert(utxos.take(0) =~= Seq::<(OutPointView, UtxoView)>::empty());
    }
    assert(spent - target <= u64::MAX);
    let change = (spent - amount - fee) as u64;
    let recipient_hash = Address::spec_to_pubkey_hash(to)->Some_0;
    lemma_outputs_and_fee_equal_inputs(
        selected,
        amount,
        fee,
        change,
        spec_script_pubkey(recipient_hash),
        sender.script_pubkey(),
    );
}

/// Where the first outputs do not reach the target, selection goes on behind
/// them.
proof fn lemma_select_skips(utxos: Seq<(OutPointView, UtxoView)>, target: nat, taken: nat)
    requires
        taken <= utxos.len(),
        forall|n: int| 1 <= n <= taken ==> input_total(#[trigger] utxos.take(n)) < target,
    ensures
        spec_select(utxos, target) == select_count(utxos, target, taken),
    decreases taken,
{
    if taken > 0 {
        lemma_select_skips(utxos, target, (taken - 1) as nat);
        assert(input_total(utxos.take(taken as int)) < target);
    }
}

/// The builder of a wallet's transactions.
pub struct TransactionBuilder<'a> {
    keystore: &'a Keystore,
    utxo_set: &'a UtxoSet,
}

impl<'a> TransactionBuilder<'a> {
    /// The keystore that the builder signs with.
    pub closed spec fn keystore(&self) -> KeystoreView {
        self.keystore@
    }

    /// The entries of the set of unspent outputs that the builder spends
    /// from.
    pub closed spec fn entries(&self) -> Seq<(Seq<u8>, Seq<u8>)> {
        self.utxo_set@
    }

    /// A builder over a keystore and a set of unspent outputs.
    pub fn new(keystore: &'a Keystore, utxo_set: &'a UtxoSet) -> (builder: Self)
        ensures
            builder.keystore() == keystore@,
            builder.entries() == utxo_set@,
    {
        TransactionBuilder { keystore, utxo_set }
    }

    /// Builds and signs a transaction that pays `amount` from `from` to `to`
    /// and leaves `fee` to the miner.
    ///
    /// The outputs of `from` are taken in key order until they cover
    /// `amount + fee`; what they carry beyond goes back to `from` as change.
    /// Every input carries the sender's signature of the id of the unsigned
    /// transaction, and verifies against the sender's locking script. An
    /// address that the keystore does not hold is refused before the set of
    /// unspent outputs is read.
    pub fn build(&self, from: &Address, to: &Address, amount: u64, fee: u64) -> (r: Result<
        Transaction,
        ErrorKind,
    >)
        ensures
            self.keystore().find(from@) is None ==> r == Err::<Transaction, ErrorKind>(
                ErrorKind::AddressNotFound,
            ),
            r == Err::<Transaction, ErrorKind>(ErrorKind::StorageError) || build_outcome(r)
                == spec_build(self.keystore(), self.entries(), from@, to@, amount, fee),
            r matches Ok(tx) ==> {
                let sender_script = self.keystore().find(from@)->Some_0.script_pubkey();
                forall|i: int|
                    0 <= i < tx@.inputs.len() ==> #[trigger] spec_validate_signature(
                        tx@,
                        i,
                        sender_script,
                    ) is Ok
            },
    {
        let keypair = match self.keystore.get_keypair(from) {
            Some(pair) => pair,
            None => {
                return Err(ErrorKind::AddressNotFound);
            },
        };
        let sender_script = keypair.script_pubkey();
        let utxos = self.utxo_set.get_utxos_for_script(sender_script.as_slice())?;
        Self::build_from(keypair, utxos.as_slice(), to, amount, fee)
    }

    /// Builds and signs a transaction from the sender's key pair and the
    /// unspent outputs that its script locks.
    ///
    /// Outputs are taken from the first on until they cover `amount + fee`;
    /// where all of them do not, and so where there is none, the funds are
    /// insufficient. The inputs spend the outputs taken; the first output
    /// pays `amount` to `to`; a second returns the change to the sender where
    /// change is left. The sender signs the id of the transaction once, and
    /// every input carries that signature.
    pub fn build_from(
        keypair: &KeyPair,
        utxos: &[(OutPoint, Utxo)],
        to: &Address,
        amount: u64,
        fee: u64,
    ) -> (r: Result<Transaction, ErrorKind>)
        ensures
            build_outcome(r) == spec_build_from(keypair@, utxo_views(utxos@), to@, amount, fee),
            r matches Ok(tx) ==> forall|i: int|
                0 <= i < tx@.inputs.len() ==> #[trigger] spec_validate_signature(
                    tx@,
                    i,
                    keypair@.script_pubkey(),
                ) is Ok,
    {
        let sender_script = keypair.script_pubkey();
        let (selected, change) = Self::select_utxos(utxos, amount, fee)?;
        let ghost chosen = utxo_views(selected@);

        let mut inputs: Vec<TxInput> = Vec::new();
        let mut i: usize = 0;
        while i < selected.len()
            invariant
                i <= selected@.len(),
                chosen == utxo_views(selected@),
                views(inputs@) == unsigned_inputs(chosen).take(i as int),
            decreases selected@.len() - i,
        {
            let ghost before = views(inputs@);
            let input = TxInput::new(selected[i].0.txid, selected[i].0.vout, Vec::new());
            inputs.push(input);
            i = i + 1;
            assert(views(inputs@) =~= before.push(input@));
            assert(unsigned_inputs(chosen).take(i as int) =~= before.push(input@));
        }
        assert(views(inputs@) =~= unsigned_inputs(chosen));

        let recipient_hash = to.to_pubkey_hash()?;
        let recipient_script = Script::p2pkh_script_pubkey(&recipient_hash);
        let mut outputs: Vec<TxOutput> = Vec::new();
        outputs.push(TxOutput::new(amount, recipient_script));
        if change > 0 {
            outputs.push(TxOutput::new(change, sender_script));
        }
        assert(views(outputs@) =~= payment_outputs(
            amount,
            recipient_script@,
            change,
            sender_script@,
        ));

        let mut tx = Transaction::new(inputs, outputs);
        proof {
            assert(spec_unsigned(tx@).inputs =~= tx@.inputs);
            assert(spec_unsigned(tx@) == tx@);
        }
        Self::sign_transaction(&mut tx, keypair);
        Ok(tx)
    }

    /// Takes outputs from the first on until their total covers
    /// `amount + fee`, and returns them with the change they leave. Fails
    /// where all of them do not cover it.
    pub fn select_utxos(utxos: &[(OutPoint, Utxo)], amount: u64, fee: u64) -> (r: Result<
        (Vec<(OutPoint, Utxo)>, u64),
        ErrorKind,
    >)
        ensures
            match spec_select(utxo_views(utxos@), (amount + fee) as nat) {
                Some(count) => r is Ok && utxo_views(r->Ok_0.0@) == utxo_views(utxos@).take(
                    count as int,
                ) && input_total(utxo_views(r->Ok_0.0@)) == amount + fee + r->Ok_0.1,
                None => r is Err && r->Err_0 == (ErrorKind::InsufficientFunds {
                    have: clip(input_total(utxo_views(utxos@))),
                    need: clip((amount + fee) as nat),
                }),
            },
    {
        let ghost all = utxo_views(utxos@);
        let target: u128 = amount as u128 + fee as u128;
        let mut selected: Vec<(OutPoint, Utxo)> = Vec::new();
        let mut total: u128 = 0;
        let mut i: usize = 0;
        assert(all.take(0) =~= Seq::<(OutPointView, UtxoView)>::empty());
        while i < utxos.len()
            invariant
                i <= utxos@.len(),
                all == utxo_views(utxos@),
                target == amount + fee,
                utxo_views(selected@) == all.take(i as int),
                total == input_total(all.take(i as int)),
                total <= i * 0xffff_ffff_ffff_ffff,
                forall|n: int| 1 <= n <= i ==> input_total(#[trigger] all.take(n)) < target,
            decreases utxos@.len() - i,
        {
            let ghost before = utxo_views(selected@);
            let outpoint = utxos[i].0.clone();
            let utxo = utxos[i].1.clone();
            let value: u64 = utxo.output.value;
            proof {
                assert(all.take(i + 1).drop_last() =~= all.take(i as int));
                assert(all.take(i + 1).last() == all[i as int]);
                assert((i + 1) * 0xffff_ffff_ffff_ffff <= 0x1_0000_0000_0000_0000
                    * 0xffff_ffff_ffff_ffff) by (nonlinear_arith)
                    requires
                        i + 1 <= 0x1_0000_0000_0000_0000,
                ;
                assert(total + value <= (i + 1) * 0xffff_ffff_ffff_ffff) by (nonlinear_arith)
                    requires
                        total <= i * 0xffff_ffff_ffff_ffff,
                        value <= 0xffff_ffff_ffff_ffff,
                ;
            }
            selected.push((outpoint, utxo));
            total = total + value as u128;
            i = i + 1;
            assert(utxo_views(selected@) =~= before.push((outpoint@, utxo@)));
            assert(all.take(i as int) =~= before.push((outpoint@, utxo@)));
            if total >= target {
                proof {
                    lemma_select_skips(all, target as nat, (i - 1) as nat);
                }
                let change: u64 = (total - target) as u64;
                return Ok((selected, change));
            }
        }
        proof {
            lemma_select_skips(all, target as nat, utxos@.len());
            assert(all.take(utxos@.len() as int) =~= all);
        }
        let have: u64 = if total > u64::MAX as u128 {
            u64::MAX
        } else {
            total as u64
        };
        let need: u64 = if target > u64::MAX as u128 {
            u64::MAX
        } else {
            target as u64
        };
        Err(ErrorKind::InsufficientFunds { have, need })
    }

    /// Signs the id of an unsigned transaction once and puts the unlocking
    /// script into every input.
    pub fn sign_transaction(tx: &mut Transaction, keypair: &KeyPair)
        ensures
            final(tx)@ == spec_sign(old(tx)@, keypair@),
            spec_unsigned(old(tx)@) == old(tx)@ ==> forall|i: int|
                0 <= i < final(tx)@.inputs.len() ==> #[trigger] spec_validate_signature(
                    final(tx)@,
                    i,
                    keypair@.script_pubkey(),
                ) is Ok,
    {
        let ghost before = tx@;
        let tx_hash = tx.txid();
        let script_sig = keypair.sign(tx_hash.as_bytes());
        let mut inputs: Vec<TxInput> = Vec::new();
        let mut i: usize = 0;
        while i < tx.inputs.len()
            invariant
                i <= tx.inputs@.len(),
                tx@ == before,
                views(inputs@) == with_script_sig(before, script_sig@).inputs.take(i as int),
            decreases tx.inputs@.len() - i,
        {
            let ghost done = views(inputs@);
            let input = &tx.inputs[i];
            let signed = TxInput {
                prev_tx_hash: input.prev_tx_hash,
                prev_index: input.prev_index,
                script_sig: to_vec(script_sig.as_slice()),
                sequence: input.sequence,
            };
            inputs.push(signed);
            i = i + 1;
            assert(views(inputs@) =~= done.push(signed@));
            assert(with_script_sig(before, script_sig@).inputs.take(i as int) =~= done.push(
                signed@,
            ));
        }
        assert(views(inputs@) =~= with_script_sig(before, script_sig@).inputs);
        tx.inputs = inputs;
        proof {
            if spec_unsigned(before) == before {
                assert(spec_unsigned(tx@).inputs =~= before.inputs);
                assert(spec_unsigned(tx@) == before);
            }
        }
    }

    /// The balance of an address of the keystore: the sum of the values of
    /// the unspent outputs that its script locks, or `u64::MAX` where the sum
    /// is larger. An address that the keystore does not hold is refused
    /// before the set is read.
    pub fn get_balance(&self, address: &Address) -> (r: Result<u64, ErrorKind>)
        ensures
            self.keystore().find(address@) is None ==> r == Err::<u64, ErrorKind>(
                ErrorKind::AddressNotFound,
            ),
            r == Err::<u64, ErrorKind>(ErrorKind::StorageError) || match self.keystore().find(
                address@,
            ) {
                None => r == Err::<u64, ErrorKind>(ErrorKind::AddressNotFound),
                Some(pair) => match spec_balance(self.entries(), pair.script_pubkey()) {
                    Some(total) => r == Ok::<u64, ErrorKind>(clip(total)),
                    None => r == Err::<u64, ErrorKind>(ErrorKind::MalformedInput),
                },
            },
    {
        let keypair = match self.keystore.get_keypair(address) {
            Some(pair) => pair,
            None => {
                return Err(ErrorKind::AddressNotFound);
            },
        };
        let script_pubkey = keypair.script_pubkey();
        self.utxo_set.get_balance(script_pubkey.as_slice())
    }

    /// The unspent outputs of an address of the keystore, in key order. An
    /// address that the keystore does not hold is refused before the set is
    /// read.
    pub fn list_utxos(&self, address: &Address) -> (r: Result<Vec<(OutPoint, Utxo)>, ErrorKind>)
        ensures
            self.keystore().find(address@) is None ==> r is Err && r->Err_0
                == ErrorKind::AddressNotFound,
            r == Err::<Vec<(OutPoint, Utxo)>, ErrorKind>(ErrorKind::StorageError)
                || match self.keystore().find(address@) {
                None => r matches Err(e) && e == ErrorKind::AddressNotFound,
                Some(pair) => match spec_utxos_for_script(self.entries(), pair.script_pubkey()) {
                    Some(pairs) => r matches Ok(found) && utxo_views(found@) == pairs,
                    None => r matches Err(e) && e == ErrorKind::MalformedInput,
                },
            },
    {
        let keypair = match self.keystore.get_keypair(address) {
            Some(pair) => pair,
            None => {
                return Err(ErrorKind::AddressNotFound);
            },
        };
        let script_pubkey = keypair.script_pubkey();
        self.utxo_set.get_utxos_for_script(script_pubkey.as_slice())
    }
}

} // verus!
