//! Key pairs, their addresses, and the keystore that holds them.

use crate::chain::script::{
    lemma_script_pubkey_round_trip, lemma_script_sig_round_trip, spec_script_pubkey,
    spec_script_sig, spec_verify_p2pkh, Script,
};
use crate::error::ErrorKind;
use crate::primitives::bytes::{array20, to_vec};
use crate::primitives::ecdsa::{
    derive_public_key, ecdsa_sign, ecdsa_signature, public_key_of, public_key_parses,
    random_secret_key, secret_key_is_valid, secret_key_valid,
};
use crate::primitives::hash::{hash160, spec_hash160};
use crate::primitives::hexcode::{decode_hex, encode_hex, hex_decode, hex_encode, lemma_hex_round_trip};
use vstd::prelude::*;
use vstd::std_specs::cmp::PartialEqSpecImpl;

verus! {

/// An address: the hash of a public key, as 40 hexadecimal digits.
#[derive(Debug, Eq, Hash)]
pub struct Address(pub String);

impl View for Address {
    type V = Seq<char>;

    open spec fn view(&self) -> Seq<char> {
        self.0@
    }
}

impl PartialEq for Address {
    fn eq(&self, other: &Self) -> (r: bool) {
        self.0 == other.0
    }
}

impl PartialEqSpecImpl for Address {
    open spec fn obeys_eq_spec() -> bool {
        true
    }

    open spec fn eq_spec(&self, other: &Self) -> bool {
        self@ == other@
    }
}

impl Clone for Address {
    fn clone(&self) -> (copy: Self)
        ensures
            copy@ == self@,
    {
        Address(self.0.clone())
    }
}

impl Address {
    /// The public-key hash that an address text stands for: it must be the
    /// hexadecimal form of 20 bytes.
    pub open spec fn spec_to_pubkey_hash(text: Seq<char>) -> Option<Seq<u8>> {
        match hex_decode(text) {
            Some(bytes) => if bytes.len() == 20 {
                Some(bytes)
            } else {
                None
            },
            None => None,
        }
    }

    /// The address of a public-key hash: its lower-case hexadecimal form.
    pub fn from_pubkey_hash(hash: &[u8; 20]) -> (address: Self)
        ensures
            address@ == hex_encode(hash@),
    {
        Address(encode_hex(hash.as_slice()))
    }

    /// The text of the address.
    pub fn as_str(&self) -> (text: &str)
        ensures
            text@ == self@,
    {
        self.0.as_str()
    }

    /// The public-key hash that the address stands for.
    pub fn to_pubkey_hash(&self) -> (r: Result<[u8; 20], ErrorKind>)
        ensures
            match Self::spec_to_pubkey_hash(self@) {
                Some(hash) => r is Ok && r->Ok_0@ == hash,
                None => r is Err && r->Err_0 == ErrorKind::MalformedInput,
            },
    {
        match decode_hex(self.0.as_str()) {
            Some(bytes) => {
                if bytes.len() != 20 {
                    return Err(ErrorKind::MalformedInput);
                }
                let hash = array20(bytes.as_slice(), 0);
                assert(bytes@.subrange(0, 20) =~= bytes@);
                Ok(hash)
            },
            None => Err(ErrorKind::MalformedInput),
        }
    }

    /// The address of a hash stands for that hash.
    pub proof fn lemma_pubkey_hash_round_trip(hash: Seq<u8>)
        requires
            hash.len() == 20,
        ensures
            Self::spec_to_pubkey_hash(hex_encode(hash)) == Some(hash),
    {
        lemma_hex_round_trip(hash);
    }
}

/// A key pair as it is kept on file: the secret and the address derived
/// from it.
#[derive(Debug)]
pub struct KeyRecord {
    /// The 32-byte secret scalar.
    pub secret_key_bytes: [u8; 32],
    /// The address.
    pub address: Address,
}

/// A secret key with its public key and address.
pub struct KeyPair {
    secret_key: [u8; 32],
    public_key: [u8; 33],
    address: Address,
}

/// What a [`KeyPair`] holds.
pub struct KeyPairView {
    pub secret_key: Seq<u8>,
    pub public_key: Seq<u8>,
    pub address: Seq<char>,
}

impl KeyPairView {
    /// The hash of the public key.
    pub open spec fn pubkey_hash(self) -> Seq<u8> {
        spec_hash160(self.public_key)
    }

    /// The script that locks value to the key pair.
    pub open spec fn script_pubkey(self) -> Seq<u8> {
        spec_script_pubkey(self.pubkey_hash())
    }

    /// The unlocking script that the key pair makes for a digest.
    pub open spec fn script_sig(self, digest: Seq<u8>) -> Seq<u8> {
        spec_script_sig(ecdsa_signature(self.secret_key, digest), self.public_key)
    }

    /// Whether the public key and the address are the ones of the secret key.
    pub open spec fn derived(self) -> bool {
        &&& secret_key_valid(self.secret_key)
        &&& self.public_key == public_key_of(self.secret_key)
        &&& self.address == hex_encode(spec_hash160(self.public_key))
    }
}

impl View for KeyPair {
    type V = KeyPairView;

    closed spec fn view(&self) -> KeyPairView {
        KeyPairView {
            secret_key: self.secret_key@,
            public_key: self.public_key@,
            address: self.address@,
        }
    }
}

impl Clone for KeyPair {
    fn clone(&self) -> (copy: Self)
        ensures
            copy@ == self@,
    {
        proof {
            use_type_invariant(self);
        }
        KeyPair {
            secret_key: self.secret_key,
            public_key: self.public_key,
            address: self.address.clone(),
        }
    }
}

impl KeyPair {
    #[verifier::type_invariant]
    spec fn well_formed(self) -> bool {
        &&& self@.derived()
        &&& public_key_parses(self.public_key@)
    }

    /// A key pair of a fresh random secret.
    pub fn generate() -> (pair: Self)
        ensures
            pair@.derived(),
    {
        let secret_key = random_secret_key();
        Self::derive(secret_key)
    }

    /// The key pair of a secret key that is known to be valid.
    fn derive(secret_key: [u8; 32]) -> (pair: Self)
        requires
            secret_key_valid(secret_key@),
        ensures
            pair@.derived(),
            pair@.secret_key == secret_key@,
    {
        let public_key = derive_public_key(&secret_key);
        let pubkey_hash = hash160(public_key.as_slice());
        let address = Address::from_pubkey_hash(&pubkey_hash);
        KeyPair { secret_key, public_key, address }
    }

    /// The key pair of a secret key, or an error where the bytes are no
    /// secret key of the curve.
    pub fn from_secret_bytes(bytes: &[u8; 32]) -> (r: Result<Self, ErrorKind>)
        ensures
            secret_key_valid(bytes@) ==> r is Ok && r->Ok_0@.derived() && r->Ok_0@.secret_key
                == bytes@,
            !secret_key_valid(bytes@) ==> r is Err && r->Err_0 == ErrorKind::InvalidSecretKey,
    {
        if !secret_key_is_valid(bytes.as_slice()) {
            return Err(ErrorKind::InvalidSecretKey);
        }
        Ok(Self::derive(*bytes))
    }

    /// The key pair as it is kept on file.
    pub fn to_record(&self) -> (record: KeyRecord)
        ensures
            record.secret_key_bytes@ == self@.secret_key,
            record.address@ == self@.address,
            self@.derived(),
    {
        proof {
            use_type_invariant(self);
        }
        KeyRecord { secret_key_bytes: self.secret_key, address: self.address.clone() }
    }

    /// The address.
    pub fn address(&self) -> (address: &Address)
        ensures
            address@ == self@.address,
            self@.derived(),
    {
        proof {
            use_type_invariant(self);
        }
        &self.address
    }

    /// The public key, in its 33-byte compressed form.
    pub fn pubkey_bytes(&self) -> (bytes: Vec<u8>)
        ensures
            bytes@ == self@.public_key,
            bytes@.len() == 33,
            self@.derived(),
    {
        proof {
            use_type_invariant(self);
        }
        to_vec(self.public_key.as_slice())
    }

    /// The hash of the public key.
    pub fn pubkey_hash(&self) -> (hash: [u8; 20])
        ensures
            hash@ == self@.pubkey_hash(),
            self@.derived(),
    {
        proof {
            use_type_invariant(self);
        }
        hash160(self.public_key.as_slice())
    }

    /// The script that locks value to the key pair.
    pub fn script_pubkey(&self) -> (script: Vec<u8>)
        ensures
            script@ == self@.script_pubkey(),
            script@.len() == 25,
            self@.derived(),
    {
        Script::p2pkh_script_pubkey(&self.pubkey_hash())
    }

    /// Signs a digest and returns the unlocking script: the DER signature and
    /// the public key. The script verifies against the key pair's locking
    /// script for the same digest.
    pub fn sign(&self, digest: &[u8; 32]) -> (script_sig: Vec<u8>)
        ensures
            script_sig@ == self@.script_sig(digest@),
            spec_verify_p2pkh(script_sig@, self@.script_pubkey(), digest@) == Ok::<bool, ErrorKind>(
                true,
            ),
            self@.derived(),
    {
        proof {
            use_type_invariant(self);
        }
        let signature = ecdsa_sign(&self.secret_key, digest);
        let script_sig = Script::p2pkh_script_sig(signature.as_slice(), self.public_key.as_slice());
        // That the hash is 20 bytes long is learnt from computing it.
        let pubkey_hash = hash160(self.public_key.as_slice());
        proof {
            lemma_script_sig_round_trip(signature@, self.public_key@);
            lemma_script_pubkey_round_trip(pubkey_hash@);
        }
        script_sig
    }
}

/// What a [`Keystore`] holds: its key pairs, in the order they came, and the
/// default address.
pub struct KeystoreView {
    pub keys: Seq<KeyPairView>,
    pub default_address: Option<Seq<char>>,
}

/// The key pair that a secret key determines.
pub open spec fn pair_of_secret(secret: Seq<u8>) -> KeyPairView {
    KeyPairView {
        secret_key: secret,
        public_key: public_key_of(secret),
        address: hex_encode(spec_hash160(public_key_of(secret))),
    }
}

/// Whether some key pair has the address.
pub open spec fn has_address(keys: Seq<KeyPairView>, address: Seq<char>) -> bool {
    exists|i: int| 0 <= i < keys.len() && (#[trigger] keys[i]).address == address
}

/// The position of a key pair that has the address.
pub open spec fn index_of_address(keys: Seq<KeyPairView>, address: Seq<char>) -> int {
    choose|i: int| 0 <= i < keys.len() && (#[trigger] keys[i]).address == address
}

/// Whether no two key pairs share an address.
pub open spec fn unique_addresses(keys: Seq<KeyPairView>) -> bool {
    forall|i: int, j: int|
        0 <= i < keys.len() && 0 <= j < keys.len() && (#[trigger] keys[i]).address == (
        #[trigger] keys[j]).address ==> i == j
}

/// The key pairs after `pair` is put in: it takes the place of the pair with
/// its address, or goes to the end.
pub open spec fn put_pair(keys: Seq<KeyPairView>, pair: KeyPairView) -> Seq<KeyPairView> {
    if has_address(keys, pair.address) {
        keys.update(index_of_address(keys, pair.address), pair)
    } else {
        keys.push(pair)
    }
}

/// The key pairs that a list of secrets gives, put in one after another;
/// `None` where a secret is no secret key of the curve.
pub open spec fn spec_import(secrets: Seq<Seq<u8>>) -> Option<Seq<KeyPairView>>
    decreases secrets.len(),
{
    if secrets.len() == 0 {
        Some(Seq::empty())
    } else {
        match spec_import(secrets.drop_last()) {
            None => None,
            Some(keys) => if secret_key_valid(secrets.last()) {
                Some(put_pair(keys, pair_of_secret(secrets.last())))
            } else {
                None
            },
        }
    }
}

/// The secrets of some records.
pub open spec fn record_secrets(records: Seq<KeyRecord>) -> Seq<Seq<u8>> {
    Seq::new(records.len(), |i: int| records[i].secret_key_bytes@)
}

impl KeystoreView {
    /// The key pair of an address, if the keystore holds one.
    pub open spec fn find(self, address: Seq<char>) -> Option<KeyPairView> {
        if has_address(self.keys, address) {
            Some(self.keys[index_of_address(self.keys, address)])
        } else {
            None
        }
    }
}

/// An import that fails on the first secrets fails on all of them.
proof fn lemma_import_prefix(secrets: Seq<Seq<u8>>, n: int)
    requires
        0 <= n <= secrets.len(),
        spec_import(secrets.take(n)) is None,
    ensures
        spec_import(secrets) is None,
    decreases secrets.len() - n,
{
    if n < secrets.len() {
        assert(secrets.take(n + 1).drop_last() =~= secrets.take(n));
        lemma_import_prefix(secrets, n + 1);
    } else {
        assert(secrets.take(n) =~= secrets);
    }
}

/// The key pairs of a wallet, by address.
pub struct Keystore {
    keys: Vec<KeyPair>,
    default_address: Option<Address>,
}

impl View for Keystore {
    type V = KeystoreView;

    closed spec fn view(&self) -> KeystoreView {
        KeystoreView {
            keys: Seq::new(self.keys@.len(), |i: int| self.keys@[i]@),
            default_address: match self.default_address {
                Some(address) => Some(address@),
                None => None,
            },
        }
    }
}

impl Default for Keystore {
    fn default() -> (keystore: Self)
        ensures
            keystore@.keys.len() == 0,
            keystore@.default_address is None,
    {
        Keystore::new()
    }
}

impl Keystore {
    #[verifier::type_invariant]
    spec fn well_formed(self) -> bool {
        unique_addresses(self@.keys)
    }

    /// An empty keystore.
    pub fn new() -> (keystore: Self)
        ensures
            keystore@.keys.len() == 0,
            keystore@.default_address is None,
    {
        Keystore { keys: Vec::new(), default_address: None }
    }

    /// The position of the key pair of an address.
    fn position(&self, address: &Address) -> (r: Option<usize>)
        ensures
            unique_addresses(self@.keys),
            match r {
                Some(i) => i < self.keys@.len() && self@.keys[i as int].address == address@
                    && has_address(self@.keys, address@) && index_of_address(
                    self@.keys,
                    address@,
                ) == i,
                None => !has_address(self@.keys, address@),
            },
    {
        proof {
            use_type_invariant(self);
        }
        let mut i: usize = 0;
        while i < self.keys.len()
            invariant
                i <= self.keys@.len(),
                unique_addresses(self@.keys),
                forall|j: int| 0 <= j < i ==> (#[trigger] self@.keys[j]).address != address@,
            decreases self.keys@.len() - i,
        {
            if *self.keys[i].address() == *address {
                assert(self@.keys[i as int].address == address@);
                return Some(i);
            }
            i = i + 1;
        }
        None
    }

    /// Puts a key pair in: in place of the pair with its address, or at the
    /// end.
    fn put(&mut self, pair: KeyPair)
        ensures
            final(self)@.keys == put_pair(old(self)@.keys, pair@),
            final(self)@.default_address == old(self)@.default_address,
            unique_addresses(final(self)@.keys),
    {
        proof {
            use_type_invariant(&*self);
        }
        let ghost before = self@.keys;
        let place = self.position(pair.address());
        let mut keys: Vec<KeyPair> = Vec::new();
        core::mem::swap(&mut self.keys, &mut keys);
        match place {
            Some(i) => {
                keys.set(i, pair);
            },
            None => {
                keys.push(pair);
            },
        }
        proof {
            let after = Seq::new(keys@.len(), |i: int| keys@[i]@);
            assert(after =~= put_pair(before, pair@));
            assert(unique_addresses(after)) by {
                assert forall|i: int, j: int|
                    0 <= i < after.len() && 0 <= j < after.len() && (#[trigger] after[i]).address
                        == (#[trigger] after[j]).address implies i == j by {
                    if has_address(before, pair@.address) {
                        let at = index_of_address(before, pair@.address);
                        if i != at {
                            assert(after[i] == before[i]);
                        }
                        if j != at {
                            assert(after[j] == before[j]);
                        }
                    } else {
                        if i < before.len() {
                            assert(after[i] == before[i]);
                        }
                        if j < before.len() {
                            assert(after[j] == before[j]);
                        }
                    }
                }
            }
        }
        self.keys = keys;
        assert(self@.keys =~= put_pair(before, pair@));
    }

    /// Makes a key pair of a fresh random secret, puts it in, and returns its
    /// address. The first address becomes the default.
    pub fn new_address(&mut self) -> (address: Address)
        ensures
            exists|pair: KeyPairView|
                pair.derived() && pair.address == address@ && #[trigger] put_pair(
                    old(self)@.keys,
                    pair,
                ) == final(self)@.keys,
            final(self)@.default_address == match old(self)@.default_address {
                Some(default) => Some(default),
                None => Some(address@),
            },
            final(self)@.find(address@) is Some,
    {
        proof {
            use_type_invariant(&*self);
        }
        let keypair = KeyPair::generate();
        let address = keypair.address().clone();
        if self.default_address.is_none() {
            self.default_address = Some(address.clone());
        }
        let ghost pair = keypair@;
        let ghost before = self@.keys;
        self.put(keypair);
        proof {
            if has_address(before, pair.address) {
                let i = index_of_address(before, pair.address);
                assert(self@.keys[i].address == address@);
            } else {
                assert(self@.keys[before.len() as int].address == address@);
            }
            assert(put_pair(before, pair) == self@.keys);
        }
        address
    }

    /// The key pair of an address.
    pub fn get_keypair(&self, address: &Address) -> (r: Option<&KeyPair>)
        ensures
            match r {
                Some(pair) => self@.find(address@) == Some(pair@) && pair@.address == address@,
                None => self@.find(address@) is None,
            },
    {
        match self.position(address) {
            Some(i) => Some(&self.keys[i]),
            None => None,
        }
    }

    /// The addresses, in the order their key pairs came.
    pub fn list_addresses(&self) -> (addresses: Vec<Address>)
        ensures
            addresses@.len() == self@.keys.len(),
            forall|i: int|
                0 <= i < addresses@.len() ==> (#[trigger] addresses@[i])@ == self@.keys[i].address,
    {
        let mut addresses: Vec<Address> = Vec::new();
        let mut i: usize = 0;
        while i < self.keys.len()
            invariant
                i <= self.keys@.len(),
                addresses@.len() == i,
                forall|j: int|
                    0 <= j < i ==> (#[trigger] addresses@[j])@ == self@.keys[j].address,
            decreases self.keys@.len() - i,
        {
            addresses.push(self.keys[i].address().clone());
            i = i + 1;
        }
        addresses
    }

    /// The default address, if one is set.
    pub fn default_address(&self) -> (r: Option<&Address>)
        ensures
            match r {
                Some(address) => self@.default_address == Some(address@),
                None => self@.default_address is None,
            },
    {
        self.default_address.as_ref()
    }

    /// Makes an address of the keystore the default.
    pub fn set_default(&mut self, address: Address) -> (r: Result<(), ErrorKind>)
        ensures
            final(self)@.keys == old(self)@.keys,
            has_address(old(self)@.keys, address@) ==> r is Ok && final(self)@.default_address
                == Some(address@),
            !has_address(old(self)@.keys, address@) ==> r is Err && r->Err_0
                == ErrorKind::AddressNotFound && final(self)@.default_address
                == old(self)@.default_address,
    {
        if self.position(&address).is_none() {
            return Err(ErrorKind::AddressNotFound);
        }
        proof {
            use_type_invariant(&*self);
        }
        self.default_address = Some(address);
        Ok(())
    }

    /// The locking script of an address of the keystore.
    pub fn get_script_pubkey(&self, address: &Address) -> (r: Option<Vec<u8>>)
        ensures
            match r {
                Some(script) => self@.find(address@) is Some && script@ == self@.find(
                    address@,
                )->Some_0.script_pubkey(),
                None => self@.find(address@) is None,
            },
    {
        match self.get_keypair(address) {
            Some(pair) => Some(pair.script_pubkey()),
            None => None,
        }
    }

    /// The number of key pairs.
    pub fn count(&self) -> (n: usize)
        ensures
            n == self@.keys.len(),
    {
        self.keys.len()
    }

    /// The key pairs as they are kept on file, and the default address.
    pub fn export(&self) -> (r: (Vec<KeyRecord>, Option<Address>))
        ensures
            r.0@.len() == self@.keys.len(),
            forall|i: int|
                0 <= i < r.0@.len() ==> (#[trigger] r.0@[i]).secret_key_bytes@
                    == self@.keys[i].secret_key && r.0@[i].address@ == self@.keys[i].address,
            match r.1 {
                Some(address) => self@.default_address == Some(address@),
                None => self@.default_address is None,
            },
    {
        let mut records: Vec<KeyRecord> = Vec::new();
        let mut i: usize = 0;
        while i < self.keys.len()
            invariant
                i <= self.keys@.len(),
                records@.len() == i,
                forall|j: int|
                    0 <= j < i ==> (#[trigger] records@[j]).secret_key_bytes@
                        == self@.keys[j].secret_key && records@[j].address@
                        == self@.keys[j].address,
            decreases self.keys@.len() - i,
        {
            records.push(self.keys[i].to_record());
            i = i + 1;
        }
        let default_address = match &self.default_address {
            Some(address) => Some(address.clone()),
            None => None,
        };
        (records, default_address)
    }

    /// Rebuilds a keystore from records: each public key and address is
    /// derived again from the secret, and the address in the record is not
    /// consulted. Fails where a secret is no secret key of the curve.
    pub fn import(records: &Vec<KeyRecord>, default_address: Option<Address>) -> (r: Result<
        Self,
        ErrorKind,
    >)
        ensures
            match spec_import(record_secrets(records@)) {
                Some(keys) => r is Ok && r->Ok_0@.keys == keys && r->Ok_0@.default_address
                    == match default_address {
                    Some(address) => Some(address@),
                    None => None,
                },
                None => r is Err && r->Err_0 == ErrorKind::InvalidSecretKey,
            },
    {
        let ghost secrets = record_secrets(records@);
        let mut keystore = Keystore { keys: Vec::new(), default_address };
        assert(keystore@.keys =~= Seq::<KeyPairView>::empty());
        let mut i: usize = 0;
        while i < records.len()
            invariant
                i <= records@.len(),
                secrets == record_secrets(records@),
                spec_import(secrets.take(i as int)) == Some(keystore@.keys),
                keystore@.default_address == match default_address {
                    Some(address) => Some(address@),
                    None => None,
                },
            decreases records@.len() - i,
        {
            proof {
                assert(secrets.take(i + 1).drop_last() =~= secrets.take(i as int));
                assert(secrets.take(i + 1).last() == records@[i as int].secret_key_bytes@);
            }
            let pair = match KeyPair::from_secret_bytes(&records[i].secret_key_bytes) {
                Ok(pair) => pair,
                Err(e) => {
                    proof {
                        lemma_import_prefix(secrets, i + 1);
                    }
                    return Err(e);
                },
            };
            keystore.put(pair);
            i = i + 1;
        }
        assert(secrets.take(records@.len() as int) =~= secrets);
        Ok(keystore)
    }
}

} // verus!
