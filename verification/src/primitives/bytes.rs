//! Small verified helpers on byte slices and vectors.

use vstd::prelude::*;

verus! {

/// Appends `src` to `buf`.
pub(crate) fn append(buf: &mut Vec<u8>, src: &[u8])
    ensures
        final(buf)@ == old(buf)@ + src@,
{
    let mut i: usize = 0;
    while i < src.len()
        invariant
            i <= src@.len(),
            buf@ == old(buf)@ + src@.take(i as int),
        decreases src@.len() - i,
    {
        buf.push(src[i]);
        i = i + 1;
        assert(src@.take(i as int) == src@.take(i - 1).push(src@[i - 1]));
    }
    assert(src@.take(src@.len() as int) == src@);
}

/// Whether two byte strings are the same.
pub(crate) fn bytes_equal(a: &[u8], b: &[u8]) -> (r: bool)
    ensures
        r == (a@ == b@),
{
    if a.len() != b.len() {
        return false;
    }
    let mut i: usize = 0;
    while i < a.len()
        invariant
            i <= a@.len(),
            a@.len() == b@.len(),
            forall|j: int| 0 <= j < i ==> a@[j] == b@[j],
        decreases a@.len() - i,
    {
        if a[i] != b[i] {
            return false;
        }
        i = i + 1;
    }
    assert(a@ =~= b@);
    true
}

/// The bytes of `src` as an owned vector.
pub(crate) fn to_vec(src: &[u8]) -> (v: Vec<u8>)
    ensures
        v@ == src@,
{
    let mut v: Vec<u8> = Vec::new();
    append(&mut v, src);
    assert(Seq::<u8>::empty() + src@ == src@);
    v
}

/// The 32 bytes of `src` that start at `at`.
pub(crate) fn array32(src: &[u8], at: usize) -> (out: [u8; 32])
    requires
        at + 32 <= src@.len(),
    ensures
        out@ == src@.subrange(at as int, at + 32),
{
    let len: usize = src.len();
    let mut out = [0u8; 32];
    let mut i: usize = 0;
    while i < 32
        invariant
            i <= 32,
            at + 32 <= src@.len() == len,
            forall|j: int| 0 <= j < i ==> out[j] == src@[at + j],
        decreases 32 - i,
    {
        out[i] = src[at + i];
        i = i + 1;
    }
    assert(out@ =~= src@.subrange(at as int, at + 32));
    out
}

/// The 20 bytes of `src` that start at `at`.
pub(crate) fn array20(src: &[u8], at: usize) -> (out: [u8; 20])
    requires
        at + 20 <= src@.len(),
    ensures
        out@ == src@.subrange(at as int, at + 20),
{
    let len: usize = src.len();
    let mut out = [0u8; 20];
    let mut i: usize = 0;
    while i < 20
        invariant
            i <= 20,
            at + 20 <= src@.len() == len,
            forall|j: int| 0 <= j < i ==> out[j] == src@[at + j],
        decreases 20 - i,
    {
        out[i] = src[at + i];
        i = i + 1;
    }
    assert(out@ =~= src@.subrange(at as int, at + 20));
    out
}

/// The 32 bytes of `src` in the opposite order.
pub(crate) fn reversed32(src: &[u8; 32]) -> (out: [u8; 32])
    ensures
        out@ == src@.reverse(),
{
    let mut out = [0u8; 32];
    let mut i: usize = 0;
    while i < 32
        invariant
            i <= 32,
            forall|j: int| 0 <= j < i ==> out[j] == src[31 - j],
        decreases 32 - i,
    {
        out[i] = src[31 - i];
        i = i + 1;
    }
    assert(out@ =~= src@.reverse());
    out
}

} // verus!
