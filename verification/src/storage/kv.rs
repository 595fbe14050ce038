//! The key-value backend: a `sled` database, seen as the sequence of its
//! entries in key order.

use crate::error::ErrorKind;
use vstd::prelude::*;

verus! {

/// `sled::Db`, the handle of an open database. What it holds is named by
/// [`stored`].
#[verifier::external_type_specification]
#[verifier::external_body]
pub struct ExDb(sled::Db);

/// `sled::Error`, the failure of a database call. Nothing is read from it.
#[verifier::external_type_specification]
#[verifier::external_body]
pub struct ExDbError(sled::Error);

/// The entries of a database, as `sled` walks them: each key once, in the
/// lexicographic order of the key bytes.
pub uninterp spec fn stored(db: sled::Db) -> Seq<(Seq<u8>, Seq<u8>)>;

/// Whether key `a` comes before key `b`: byte by byte, a proper prefix first.
pub open spec fn key_before(a: Seq<u8>, b: Seq<u8>) -> bool
    decreases a.len(),
{
    if b.len() == 0 {
        false
    } else if a.len() == 0 {
        true
    } else if a[0] != b[0] {
        a[0] < b[0]
    } else {
        key_before(a.skip(1), b.skip(1))
    }
}

/// The value under a key, if the key is present.
pub open spec fn lookup(entries: Seq<(Seq<u8>, Seq<u8>)>, key: Seq<u8>) -> Option<Seq<u8>>
    decreases entries.len(),
{
    if entries.len() == 0 {
        None
    } else if entries[0].0 == key {
        Some(entries[0].1)
    } else {
        lookup(entries.skip(1), key)
    }
}

/// The entries after `key` is set to `value`: the value replaces the one
/// under the key, or the pair goes before the first greater key.
pub open spec fn upsert(entries: Seq<(Seq<u8>, Seq<u8>)>, key: Seq<u8>, value: Seq<u8>) -> Seq<
    (Seq<u8>, Seq<u8>),
>
    decreases entries.len(),
{
    if entries.len() == 0 {
        seq![(key, value)]
    } else if entries[0].0 == key {
        seq![(key, value)] + entries.skip(1)
    } else if key_before(key, entries[0].0) {
        seq![(key, value)] + entries
    } else {
        seq![entries[0]] + upsert(entries.skip(1), key, value)
    }
}

/// The entries without the one under `key`.
pub open spec fn without(entries: Seq<(Seq<u8>, Seq<u8>)>, key: Seq<u8>) -> Seq<(Seq<u8>, Seq<u8>)>
    decreases entries.len(),
{
    if entries.len() == 0 {
        entries
    } else if entries[0].0 == key {
        without(entries.skip(1), key)
    } else {
        seq![entries[0]] + without(entries.skip(1), key)
    }
}

/// The views of some owned entries.
pub open spec fn entry_views(entries: Seq<(Vec<u8>, Vec<u8>)>) -> Seq<(Seq<u8>, Seq<u8>)> {
    Seq::new(entries.len(), |i: int| (entries[i].0@, entries[i].1@))
}

/// What was set under a key is found under it.
pub proof fn lemma_lookup_upsert_same(entries: Seq<(Seq<u8>, Seq<u8>)>, key: Seq<u8>, value: Seq<u8>)
    ensures
        lookup(upsert(entries, key, value), key) == Some(value),
    decreases entries.len(),
{
    if entries.len() == 0 {
    } else if entries[0].0 == key {
    } else if key_before(key, entries[0].0) {
    } else {
        lemma_lookup_upsert_same(entries.skip(1), key, value);
        let after = upsert(entries, key, value);
        assert(after.skip(1) =~= upsert(entries.skip(1), key, value));
    }
}

/// Setting one key leaves what is found under every other key.
pub proof fn lemma_lookup_upsert_other(
    entries: Seq<(Seq<u8>, Seq<u8>)>,
    key: Seq<u8>,
    value: Seq<u8>,
    other: Seq<u8>,
)
    requires
        other != key,
    ensures
        lookup(upsert(entries, key, value), other) == lookup(entries, other),
    decreases entries.len(),
{
    let after = upsert(entries, key, value);
    if entries.len() == 0 {
        assert(after.skip(1) =~= entries);
    } else if entries[0].0 == key {
        assert(after.skip(1) =~= entries.skip(1));
    } else if key_before(key, entries[0].0) {
        assert(after.skip(1) =~= entries);
    } else {
        lemma_lookup_upsert_other(entries.skip(1), key, value, other);
        assert(after.skip(1) =~= upsert(entries.skip(1), key, value));
    }
}

/// Nothing is found under a key that was removed.
pub proof fn lemma_lookup_without_same(entries: Seq<(Seq<u8>, Seq<u8>)>, key: Seq<u8>)
    ensures
        lookup(without(entries, key), key) is None,
    decreases entries.len(),
{
    if entries.len() == 0 {
    } else if entries[0].0 == key {
        lemma_lookup_without_same(entries.skip(1), key);
    } else {
        lemma_lookup_without_same(entries.skip(1), key);
        assert(without(entries, key).skip(1) =~= without(entries.skip(1), key));
    }
}

/// Removing one key leaves what is found under every other key.
pub proof fn lemma_lookup_without_other(entries: Seq<(Seq<u8>, Seq<u8>)>, key: Seq<u8>, other: Seq<u8>)
    requires
        other != key,
    ensures
        lookup(without(entries, key), other) == lookup(entries, other),
    decreases entries.len(),
{
    if entries.len() == 0 {
    } else if entries[0].0 == key {
        lemma_lookup_without_other(entries.skip(1), key, other);
    } else {
        lemma_lookup_without_other(entries.skip(1), key, other);
        assert(without(entries, key).skip(1) =~= without(entries.skip(1), key));
    }
}

/// Turns a failure of the backend into the library's storage error.
pub(crate) fn or_storage_error<T>(r: Result<T, sled::Error>) -> (out: Result<T, ErrorKind>)
    ensures
        match r {
            Ok(value) => out == Ok::<T, ErrorKind>(value),
            Err(_) => out == Err::<T, ErrorKind>(ErrorKind::StorageError),
        },
{
    match r {
        Ok(value) => Ok(value),
        Err(_) => Err(ErrorKind::StorageError),
    }
}

/// Calls `sled::open`. Nothing is claimed of what an opened database holds:
/// that is what the directory held.
#[verifier::external_body]
pub(crate) fn db_open(path: &str) -> (r: Result<sled::Db, sled::Error>) {
    sled::open(path)
}

/// Calls `Config::temporary` and `Config::open` of `sled`. Trusted: the
/// database is made at a fresh path, so it holds no entry.
#[verifier::external_body]
pub(crate) fn db_open_temporary() -> (r: Result<sled::Db, sled::Error>)
    ensures
        r matches Ok(db) ==> stored(db) == Seq::<(Seq<u8>, Seq<u8>)>::empty(),
{
    sled::Config::new().temporary(true).open()
}

/// Calls `Tree::insert` of `sled`. Trusted: on success the key holds the new
/// value, at its place in key order, and the value it held before is
/// returned. Nothing is claimed of the entries after a failure.
#[verifier::external_body]
pub(crate) fn db_insert(db: &mut sled::Db, key: &[u8], value: &[u8]) -> (r: Result<
    Option<Vec<u8>>,
    sled::Error,
>)
    ensures
        r matches Ok(previous) ==> {
            &&& stored(*final(db)) == upsert(stored(*old(db)), key@, value@)
            &&& match previous {
                Some(bytes) => lookup(stored(*old(db)), key@) == Some(bytes@),
                None => lookup(stored(*old(db)), key@) is None,
            }
        },
{
    db.insert(key, value).map(|previous| previous.map(|bytes| bytes.to_vec()))
}

/// Calls `Tree::get` of `sled`. Trusted: on success the value under the key
/// is returned, if there is one.
#[verifier::external_body]
pub(crate) fn db_get(db: &sled::Db, key: &[u8]) -> (r: Result<Option<Vec<u8>>, sled::Error>)
    ensures
        r matches Ok(found) ==> match found {
            Some(bytes) => lookup(stored(*db), key@) == Some(bytes@),
            None => lookup(stored(*db), key@) is None,
        },
{
    db.get(key).map(|found| found.map(|bytes| bytes.to_vec()))
}

/// Calls `Tree::remove` of `sled`. Trusted: on success the key is gone and
/// the value it held is returned. Nothing is claimed of the entries after a
/// failure.
#[verifier::external_body]
pub(crate) fn db_remove(db: &mut sled::Db, key: &[u8]) -> (r: Result<Option<Vec<u8>>, sled::Error>)
    ensures
        r matches Ok(previous) ==> {
            &&& stored(*final(db)) == without(stored(*old(db)), key@)
            &&& match previous {
                Some(bytes) => lookup(stored(*old(db)), key@) == Some(bytes@),
                None => lookup(stored(*old(db)), key@) is None,
            }
        },
{
    db.remove(key).map(|previous| previous.map(|bytes| bytes.to_vec()))
}

/// Calls `Tree::contains_key` of `sled`. Trusted: on success the answer is
/// whether the key holds a value.
#[verifier::external_body]
pub(crate) fn db_contains_key(db: &sled::Db, key: &[u8]) -> (r: Result<bool, sled::Error>)
    ensures
        r matches Ok(present) ==> present == (lookup(stored(*db), key@) is Some),
{
    db.contains_key(key)
}

/// Calls `Tree::iter` of `sled` and collects what it yields. Trusted: on
/// success the pairs are the entries of the database, in key order.
#[verifier::external_body]
pub(crate) fn db_entries(db: &sled::Db) -> (r: Result<Vec<(Vec<u8>, Vec<u8>)>, sled::Error>)
    ensures
        r matches Ok(entries) ==> entry_views(entries@) == stored(*db),
{
    db.iter().map(|item| item.map(|(key, value)| (key.to_vec(), value.to_vec()))).collect()
}

/// Calls `Tree::flush` of `sled`, which writes buffered entries to disk. It
/// changes no entry.
#[verifier::external_body]
pub(crate) fn db_flush(db: &sled::Db) -> (r: Result<(), sled::Error>) {
    db.flush().map(|_| ())
}

} // verus!
