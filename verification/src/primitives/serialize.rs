//! The wire codec: little-endian integers, the variable-length integer and
//! length-prefixed byte strings, written to a vector and read from a [`Reader`].
//!
//! Every decoder is specified as a function from the bytes that are left to
//! the decoded value and the bytes after it.

use crate::error::ErrorKind;
use crate::primitives::bytes::{append, array32, to_vec};
use vstd::bytes::{
    lemma_auto_spec_u16_to_from_le_bytes, lemma_auto_spec_u32_to_from_le_bytes,
    lemma_auto_spec_u64_to_from_le_bytes, spec_u16_from_le_bytes, spec_u16_to_le_bytes,
    spec_u32_from_le_bytes, spec_u32_to_le_bytes, spec_u64_from_le_bytes, spec_u64_to_le_bytes,
    u16_from_le_bytes, u16_to_le_bytes, u32_from_le_bytes, u32_to_le_bytes, u64_from_le_bytes,
    u64_to_le_bytes,
};
use vstd::prelude::*;
use vstd::slice::slice_subrange;

verus! {

/// A type with a wire form.
pub trait Serializable: Sized + View {
    /// The wire form of a value.
    spec fn spec_serialize(value: Self::V) -> Seq<u8>;

    /// The value that a byte string starts with, if it starts with one.
    spec fn spec_deserialize(data: Seq<u8>) -> Option<Self::V>;

    /// Writes the wire form.
    fn serialize(&self) -> (out: Vec<u8>)
        ensures
            out@ == Self::spec_serialize(self@),
    ;

    /// Reads a value from the start of `data`; bytes after it are ignored.
    fn deserialize(data: &[u8]) -> (r: Result<Self, ErrorKind>)
        ensures
            match Self::spec_deserialize(data@) {
                Some(value) => r is Ok && r->Ok_0@ == value,
                None => r is Err && r->Err_0 == ErrorKind::MalformedInput,
            },
    ;
}

/// A type that is written to and read from a byte stream, one value after
/// another.
pub trait Wire: Sized + View {
    /// What every value of the type satisfies: its lengths fit their fields.
    spec fn valid(value: Self::V) -> bool;

    /// The bytes of a value.
    spec fn wire(value: Self::V) -> Seq<u8>;

    /// The value at the start of a byte string, and the bytes after it.
    spec fn parse(s: Seq<u8>) -> Option<(Self::V, Seq<u8>)>;

    /// A value is read back from its bytes, whatever follows them.
    proof fn lemma_round_trip(value: Self::V, tail: Seq<u8>)
        requires
            Self::valid(value),
        ensures
            Self::parse(Self::wire(value) + tail) == Some((value, tail)),
    ;

    /// Appends the bytes of the value.
    fn write(&self, writer: &mut Vec<u8>)
        ensures
            Self::valid(self@),
            final(writer)@ == old(writer)@ + Self::wire(self@),
    ;

    /// Reads one value, or fails and reads nothing.
    fn read(reader: &mut Reader) -> (r: Result<Self, ErrorKind>)
        ensures
            match Self::parse(old(reader).remaining()) {
                Some((value, rest)) => r is Ok && r->Ok_0@ == value && final(reader).remaining()
                    == rest,
                None => r is Err && r->Err_0 == ErrorKind::MalformedInput && final(reader).remaining()
                    == old(reader).remaining(),
            },
    ;
}

/// The views of the items of a vector.
pub open spec fn views<T: View>(items: Seq<T>) -> Seq<T::V> {
    Seq::new(items.len(), |i: int| items[i]@)
}

/// The bytes of several values, one after another.
pub open spec fn wire_list<T: Wire>(items: Seq<T::V>) -> Seq<u8>
    decreases items.len(),
{
    if items.len() == 0 {
        Seq::empty()
    } else {
        T::wire(items[0]) + wire_list::<T>(items.skip(1))
    }
}

/// Reads `count` values, one after another.
pub open spec fn parse_list<T: Wire>(s: Seq<u8>, count: nat) -> Option<(Seq<T::V>, Seq<u8>)>
    decreases count,
{
    if count == 0 {
        Some((Seq::empty(), s))
    } else {
        match T::parse(s) {
            Some((first, rest)) => match parse_list::<T>(rest, (count - 1) as nat) {
                Some((others, after)) => Some((seq![first] + others, after)),
                None => None,
            },
            None => None,
        }
    }
}

/// Whether every item is valid.
pub open spec fn all_valid<T: Wire>(items: Seq<T::V>) -> bool {
    forall|i: int| 0 <= i < items.len() ==> T::valid(#[trigger] items[i])
}

/// A count and as many values.
#[verifier::opaque]
pub open spec fn wire_counted<T: Wire>(items: Seq<T::V>) -> Seq<u8> {
    spec_varint(items.len() as u64) + wire_list::<T>(items)
}

/// Reads a count and as many values.
#[verifier::opaque]
pub open spec fn parse_counted<T: Wire>(s: Seq<u8>) -> Option<(Seq<T::V>, Seq<u8>)> {
    match parse_varint(s) {
        Some((count, rest)) => parse_list::<T>(rest, count as nat),
        None => None,
    }
}

/// Writing one more value appends its bytes.
pub proof fn lemma_wire_list_push<T: Wire>(items: Seq<T::V>, last: T::V)
    ensures
        wire_list::<T>(items.push(last)) == wire_list::<T>(items) + T::wire(last),
    decreases items.len(),
{
    if items.len() == 0 {
        let one = items.push(last);
        assert(one.skip(1) =~= Seq::<T::V>::empty());
        assert(wire_list::<T>(one.skip(1)) =~= Seq::<u8>::empty());
        assert(one[0] == last);
        assert(wire_list::<T>(one) =~= T::wire(last));
        assert(wire_list::<T>(items) =~= Seq::<u8>::empty());
    } else {
        lemma_wire_list_push::<T>(items.skip(1), last);
        assert(items.push(last).skip(1) =~= items.skip(1).push(last));
        assert(wire_list::<T>(items.push(last)) =~= wire_list::<T>(items) + T::wire(last));
    }
}

/// Several values are read back from their bytes, whatever follows them.
pub proof fn lemma_list_round_trip<T: Wire>(items: Seq<T::V>, tail: Seq<u8>)
    requires
        all_valid::<T>(items),
    ensures
        parse_list::<T>(wire_list::<T>(items) + tail, items.len()) == Some((items, tail)),
    decreases items.len(),
{
    if items.len() == 0 {
        assert(wire_list::<T>(items) + tail =~= tail);
        assert(items =~= Seq::<T::V>::empty());
    } else {
        let rest = items.skip(1);
        assert(T::valid(items[0]));
        assert forall|i: int| 0 <= i < rest.len() implies T::valid(#[trigger] rest[i]) by {
            assert(rest[i] == items[i + 1]);
        }
        T::lemma_round_trip(items[0], wire_list::<T>(rest) + tail);
        lemma_list_round_trip::<T>(rest, tail);
        assert(wire_list::<T>(items) + tail =~= T::wire(items[0]) + (wire_list::<T>(rest) + tail));
        assert(seq![items[0]] + rest =~= items);
    }
}

/// A counted list is read back from its bytes, whatever follows them.
pub proof fn lemma_counted_round_trip<T: Wire>(items: Seq<T::V>, tail: Seq<u8>)
    requires
        all_valid::<T>(items),
        items.len() <= u64::MAX,
    ensures
        parse_counted::<T>(wire_counted::<T>(items) + tail) == Some((items, tail)),
{
    reveal(wire_counted);
    reveal(parse_counted);
    lemma_varint_round_trip(items.len() as u64, wire_list::<T>(items) + tail);
    lemma_list_round_trip::<T>(items, tail);
    assert(wire_counted::<T>(items) + tail =~= spec_varint(items.len() as u64) + (wire_list::<T>(
        items,
    ) + tail));
}

/// The shortest variable-length form of an integer.
pub open spec fn spec_varint(value: u64) -> Seq<u8> {
    if value <= 0xfc {
        seq![value as u8]
    } else if value <= 0xffff {
        seq![0xfdu8] + spec_u16_to_le_bytes(value as u16)
    } else if value <= 0xffff_ffff {
        seq![0xfeu8] + spec_u32_to_le_bytes(value as u32)
    } else {
        seq![0xffu8] + spec_u64_to_le_bytes(value)
    }
}

/// Decodes a variable-length integer. Any well-formed tag is accepted, also
/// where a shorter form exists.
pub open spec fn parse_varint(s: Seq<u8>) -> Option<(u64, Seq<u8>)> {
    if s.len() < 1 {
        None
    } else if s[0] <= 0xfc {
        Some((s[0] as u64, s.skip(1)))
    } else if s[0] == 0xfd {
        if s.len() < 3 {
            None
        } else {
            Some((spec_u16_from_le_bytes(s.subrange(1, 3)) as u64, s.skip(3)))
        }
    } else if s[0] == 0xfe {
        if s.len() < 5 {
            None
        } else {
            Some((spec_u32_from_le_bytes(s.subrange(1, 5)) as u64, s.skip(5)))
        }
    } else {
        if s.len() < 9 {
            None
        } else {
            Some((spec_u64_from_le_bytes(s.subrange(1, 9)), s.skip(9)))
        }
    }
}

/// A byte string behind its length.
pub open spec fn spec_var_bytes(data: Seq<u8>) -> Seq<u8> {
    spec_varint(data.len() as u64) + data
}

/// Decodes a length and as many bytes after it.
pub open spec fn parse_var_bytes(s: Seq<u8>) -> Option<(Seq<u8>, Seq<u8>)> {
    match parse_varint(s) {
        Some((len, rest)) => if rest.len() >= len {
            Some((rest.take(len as int), rest.skip(len as int)))
        } else {
            None
        },
        None => None,
    }
}

/// Decodes a little-endian `u32`.
pub open spec fn parse_u32(s: Seq<u8>) -> Option<(u32, Seq<u8>)> {
    if s.len() >= 4 {
        Some((spec_u32_from_le_bytes(s.take(4)), s.skip(4)))
    } else {
        None
    }
}

/// Decodes a little-endian `u64`.
pub open spec fn parse_u64(s: Seq<u8>) -> Option<(u64, Seq<u8>)> {
    if s.len() >= 8 {
        Some((spec_u64_from_le_bytes(s.take(8)), s.skip(8)))
    } else {
        None
    }
}

/// Takes 32 bytes.
pub open spec fn parse_hash(s: Seq<u8>) -> Option<(Seq<u8>, Seq<u8>)> {
    if s.len() >= 32 {
        Some((s.take(32), s.skip(32)))
    } else {
        None
    }
}

/// The encoded length is 1, 3, 5 or 9 bytes, by the size of the value.
pub proof fn lemma_varint_len(value: u64)
    ensures
        spec_varint(value).len() == if value <= 0xfc {
            1int
        } else if value <= 0xffff {
            3
        } else if value <= 0xffff_ffff {
            5
        } else {
            9
        },
{
    lemma_auto_spec_u16_to_from_le_bytes();
    lemma_auto_spec_u32_to_from_le_bytes();
    lemma_auto_spec_u64_to_from_le_bytes();
}

/// Every `u64` decodes to itself, whatever follows its encoding.
pub proof fn lemma_varint_round_trip(value: u64, tail: Seq<u8>)
    ensures
        parse_varint(spec_varint(value) + tail) == Some((value, tail)),
{
    lemma_auto_spec_u16_to_from_le_bytes();
    lemma_auto_spec_u32_to_from_le_bytes();
    lemma_auto_spec_u64_to_from_le_bytes();
    lemma_varint_len(value);
    let s = spec_varint(value) + tail;
    let n = spec_varint(value).len() as int;
    assert(s.skip(n) =~= tail);
    if value <= 0xfc {
    } else if value <= 0xffff {
        assert(s.subrange(1, 3) =~= spec_u16_to_le_bytes(value as u16));
    } else if value <= 0xffff_ffff {
        assert(s.subrange(1, 5) =~= spec_u32_to_le_bytes(value as u32));
    } else {
        assert(s.subrange(1, 9) =~= spec_u64_to_le_bytes(value));
    }
}

/// A byte string decodes to itself, whatever follows its encoding.
pub proof fn lemma_var_bytes_round_trip(data: Seq<u8>, tail: Seq<u8>)
    requires
        data.len() <= u64::MAX,
    ensures
        parse_var_bytes(spec_var_bytes(data) + tail) == Some((data, tail)),
{
    let len = data.len() as u64;
    lemma_varint_round_trip(len, data + tail);
    assert(spec_var_bytes(data) + tail =~= spec_varint(len) + (data + tail));
    assert((data + tail).take(len as int) =~= data);
    assert((data + tail).skip(len as int) =~= tail);
}

/// A little-endian `u32` decodes to itself.
pub proof fn lemma_u32_round_trip(value: u32, tail: Seq<u8>)
    ensures
        spec_u32_to_le_bytes(value).len() == 4,
        parse_u32(spec_u32_to_le_bytes(value) + tail) == Some((value, tail)),
{
    lemma_auto_spec_u32_to_from_le_bytes();
    let s = spec_u32_to_le_bytes(value) + tail;
    assert(s.take(4) =~= spec_u32_to_le_bytes(value));
    assert(s.skip(4) =~= tail);
}

/// A little-endian `u64` decodes to itself.
pub proof fn lemma_u64_round_trip(value: u64, tail: Seq<u8>)
    ensures
        spec_u64_to_le_bytes(value).len() == 8,
        parse_u64(spec_u64_to_le_bytes(value) + tail) == Some((value, tail)),
{
    lemma_auto_spec_u64_to_from_le_bytes();
    let s = spec_u64_to_le_bytes(value) + tail;
    assert(s.take(8) =~= spec_u64_to_le_bytes(value));
    assert(s.skip(8) =~= tail);
}

/// Thirty-two bytes decode to themselves.
pub proof fn lemma_hash_round_trip(hash: Seq<u8>, tail: Seq<u8>)
    requires
        hash.len() == 32,
    ensures
        parse_hash(hash + tail) == Some((hash, tail)),
{
    assert((hash + tail).take(32) =~= hash);
    assert((hash + tail).skip(32) =~= tail);
}

/// A cursor over a byte string.
#[derive(Clone, Copy, Debug)]
pub struct Reader<'a> {
    data: &'a [u8],
    pos: usize,
}

impl<'a> Reader<'a> {
    #[verifier::type_invariant]
    spec fn in_bounds(self) -> bool {
        self.pos <= self.data@.len()
    }

    /// The bytes that have not been read yet.
    pub closed spec fn remaining(&self) -> Seq<u8> {
        self.data@.skip(self.pos as int)
    }

    /// A reader at the start of `data`.
    pub fn new(data: &'a [u8]) -> (reader: Self)
        ensures
            reader.remaining() == data@,
    {
        Reader { data, pos: 0 }
    }

    /// How many bytes are left.
    pub fn remaining_len(&self) -> (n: usize)
        ensures
            n == self.remaining().len(),
    {
        proof {
            use_type_invariant(self);
        }
        self.data.len() - self.pos
    }

    /// Takes the next `n` bytes, or fails and reads nothing.
    pub fn read_exact(&mut self, n: usize) -> (r: Result<&'a [u8], ErrorKind>)
        ensures
            old(self).remaining().len() >= n ==> r is Ok && r->Ok_0@ == old(self).remaining().take(
                n as int,
            ) && final(self).remaining() == old(self).remaining().skip(n as int),
            old(self).remaining().len() < n ==> r is Err && r->Err_0 == ErrorKind::MalformedInput
                && final(self).remaining() == old(self).remaining(),
    {
        proof {
            use_type_invariant(&*self);
        }
        if self.data.len() - self.pos < n {
            return Err(ErrorKind::MalformedInput);
        }
        let out = slice_subrange(self.data, self.pos, self.pos + n);
        assert(out@ =~= self.remaining().take(n as int));
        assert(self.data@.skip(self.pos + n) =~= self.remaining().skip(n as int));
        self.pos = self.pos + n;
        Ok(out)
    }

    /// Reads one byte.
    pub fn read_u8(&mut self) -> (r: Result<u8, ErrorKind>)
        ensures
            old(self).remaining().len() >= 1 ==> r == Ok::<u8, ErrorKind>(old(self).remaining()[0])
                && final(self).remaining() == old(self).remaining().skip(1),
            old(self).remaining().len() < 1 ==> r is Err && r->Err_0 == ErrorKind::MalformedInput
                && final(self).remaining() == old(self).remaining(),
    {
        let bytes = self.read_exact(1)?;
        Ok(bytes[0])
    }

    /// Reads a little-endian `u32`.
    pub fn read_u32(&mut self) -> (r: Result<u32, ErrorKind>)
        ensures
            match parse_u32(old(self).remaining()) {
                Some((value, rest)) => r == Ok::<u32, ErrorKind>(value) && final(self).remaining()
                    == rest,
                None => r is Err && r->Err_0 == ErrorKind::MalformedInput && final(self).remaining()
                    == old(self).remaining(),
            },
    {
        let bytes = self.read_exact(4)?;
        Ok(u32_from_le_bytes(bytes))
    }

    /// Reads a little-endian `u64`.
    pub fn read_u64(&mut self) -> (r: Result<u64, ErrorKind>)
        ensures
            match parse_u64(old(self).remaining()) {
                Some((value, rest)) => r == Ok::<u64, ErrorKind>(value) && final(self).remaining()
                    == rest,
                None => r is Err && r->Err_0 == ErrorKind::MalformedInput && final(self).remaining()
                    == old(self).remaining(),
            },
    {
        let bytes = self.read_exact(8)?;
        Ok(u64_from_le_bytes(bytes))
    }

    /// Reads 32 bytes.
    pub fn read_hash(&mut self) -> (r: Result<[u8; 32], ErrorKind>)
        ensures
            match parse_hash(old(self).remaining()) {
                Some((value, rest)) => r is Ok && r->Ok_0@ == value && final(self).remaining()
                    == rest,
                None => r is Err && r->Err_0 == ErrorKind::MalformedInput && final(self).remaining()
                    == old(self).remaining(),
            },
    {
        let bytes = self.read_exact(32)?;
        let out = array32(bytes, 0);
        assert(bytes@.subrange(0, 32) =~= bytes@);
        Ok(out)
    }
}

/// Appends a little-endian `u32`.
pub fn write_u32(writer: &mut Vec<u8>, value: u32)
    ensures
        final(writer)@ == old(writer)@ + spec_u32_to_le_bytes(value),
{
    let bytes = u32_to_le_bytes(value);
    append(writer, bytes.as_slice());
}

/// Appends a little-endian `u64`.
pub fn write_u64(writer: &mut Vec<u8>, value: u64)
    ensures
        final(writer)@ == old(writer)@ + spec_u64_to_le_bytes(value),
{
    let bytes = u64_to_le_bytes(value);
    append(writer, bytes.as_slice());
}

/// Appends the shortest variable-length form of `value`.
pub fn write_varint(writer: &mut Vec<u8>, value: u64)
    ensures
        final(writer)@ == old(writer)@ + spec_varint(value),
{
    if value <= 0xfc {
        writer.push(value as u8);
        assert(writer@ =~= old(writer)@ + spec_varint(value));
    } else if value <= 0xffff {
        writer.push(0xfd);
        let bytes = u16_to_le_bytes(value as u16);
        append(writer, bytes.as_slice());
        assert(writer@ =~= old(writer)@ + spec_varint(value));
    } else if value <= 0xffff_ffff {
        writer.push(0xfe);
        let bytes = u32_to_le_bytes(value as u32);
        append(writer, bytes.as_slice());
        assert(writer@ =~= old(writer)@ + spec_varint(value));
    } else {
        writer.push(0xff);
        let bytes = u64_to_le_bytes(value);
        append(writer, bytes.as_slice());
        assert(writer@ =~= old(writer)@ + spec_varint(value));
    }
}

/// Reads a variable-length integer, or fails and reads nothing.
pub fn read_varint(reader: &mut Reader) -> (r: Result<u64, ErrorKind>)
    ensures
        match parse_varint(old(reader).remaining()) {
            Some((value, rest)) => r == Ok::<u64, ErrorKind>(value) && final(reader).remaining()
                == rest,
            None => r is Err && r->Err_0 == ErrorKind::MalformedInput && final(reader).remaining()
                == old(reader).remaining(),
        },
{
    let mut probe = *reader;
    let ghost s = reader.remaining();
    let tag = probe.read_u8()?;
    let value: u64 = if tag <= 0xfc {
        tag as u64
    } else if tag == 0xfd {
        let bytes = probe.read_exact(2)?;
        assert(bytes@ =~= s.subrange(1, 3));
        assert(s.skip(1).skip(2) =~= s.skip(3));
        u16_from_le_bytes(bytes) as u64
    } else if tag == 0xfe {
        let bytes = probe.read_exact(4)?;
        assert(bytes@ =~= s.subrange(1, 5));
        assert(s.skip(1).skip(4) =~= s.skip(5));
        u32_from_le_bytes(bytes) as u64
    } else {
        let bytes = probe.read_exact(8)?;
        assert(bytes@ =~= s.subrange(1, 9));
        assert(s.skip(1).skip(8) =~= s.skip(9));
        u64_from_le_bytes(bytes)
    };
    *reader = probe;
    Ok(value)
}

/// Appends the length of `data` and then `data`.
pub fn write_var_bytes(writer: &mut Vec<u8>, data: &[u8])
    ensures
        final(writer)@ == old(writer)@ + spec_var_bytes(data@),
{
    write_varint(writer, data.len() as u64);
    append(writer, data);
    assert(writer@ =~= old(writer)@ + spec_var_bytes(data@));
}

/// Reads a length and as many bytes, or fails and reads nothing.
pub fn read_var_bytes(reader: &mut Reader) -> (r: Result<Vec<u8>, ErrorKind>)
    ensures
        match parse_var_bytes(old(reader).remaining()) {
            Some((data, rest)) => r is Ok && r->Ok_0@ == data && final(reader).remaining() == rest,
            None => r is Err && r->Err_0 == ErrorKind::MalformedInput && final(reader).remaining()
                == old(reader).remaining(),
        },
{
    let mut probe = *reader;
    let len = read_varint(&mut probe)?;
    if len > probe.remaining_len() as u64 {
        return Err(ErrorKind::MalformedInput);
    }
    let bytes = probe.read_exact(len as usize)?;
    *reader = probe;
    Ok(to_vec(bytes))
}

/// Appends the count of `items` and then each item.
pub fn write_counted<T: Wire>(writer: &mut Vec<u8>, items: &Vec<T>)
    ensures
        all_valid::<T>(views(items@)),
        final(writer)@ == old(writer)@ + wire_counted::<T>(views(items@)),
{
    write_varint(writer, items.len() as u64);
    let ghost all = views(items@);
    let ghost start = writer@;
    let mut i: usize = 0;
    while i < items.len()
        invariant
            i <= items@.len(),
            all == views(items@),
            all_valid::<T>(all.take(i as int)),
            writer@ == start + wire_list::<T>(all.take(i as int)),
        decreases items@.len() - i,
    {
        items[i].write(writer);
        proof {
            let done = all.take(i as int);
            lemma_wire_list_push::<T>(done, all[i as int]);
            assert(all.take(i + 1) =~= done.push(all[i as int]));
            assert forall|j: int| 0 <= j < i + 1 implies T::valid(#[trigger] all.take(i + 1)[j]) by {
                if j < i {
                    assert(all.take(i + 1)[j] == done[j]);
                }
            }
        }
        i = i + 1;
    }
    proof {
        reveal(wire_counted);
        assert(all.take(items@.len() as int) =~= all);
        assert(writer@ =~= old(writer)@ + wire_counted::<T>(all));
    }
}

/// Reads a count and as many items, or fails and reads nothing.
pub fn read_counted<T: Wire>(reader: &mut Reader) -> (r: Result<Vec<T>, ErrorKind>)
    ensures
        match parse_counted::<T>(old(reader).remaining()) {
            Some((items, rest)) => r is Ok && views(r->Ok_0@) == items && final(reader).remaining()
                == rest,
            None => r is Err && r->Err_0 == ErrorKind::MalformedInput && final(reader).remaining()
                == old(reader).remaining(),
        },
{
    proof {
        reveal(parse_counted);
    }
    let mut probe = *reader;
    let count = read_varint(&mut probe)?;
    let ghost whole = reader.remaining();
    let ghost start = probe.remaining();
    let mut items: Vec<T> = Vec::new();
    let mut i: u64 = 0;
    while i < count
        invariant
            i <= count,
            reader.remaining() == whole,
            whole == old(reader).remaining(),
            parse_counted::<T>(whole) == parse_list::<T>(start, count as nat),
            parse_list::<T>(start, count as nat) == match parse_list::<T>(
                probe.remaining(),
                (count - i) as nat,
            ) {
                Some((others, rest)) => Some((views(items@) + others, rest)),
                None => None,
            },
        decreases count - i,
    {
        let ghost before = views(items@);
        let item = T::read(&mut probe)?;
        items.push(item);
        proof {
            assert(views(items@) =~= before.push(item@));
            match parse_list::<T>(probe.remaining(), (count - i - 1) as nat) {
                Some((others, rest)) => {
                    assert(before + (seq![item@] + others) =~= views(items@) + others);
                },
                None => {},
            }
        }
        i = i + 1;
    }
    proof {
        assert(views(items@) + Seq::<T::V>::empty() =~= views(items@));
    }
    *reader = probe;
    Ok(items)
}

} // verus!
