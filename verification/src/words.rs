//! Byte-level building blocks of the wire format: little-endian 64-bit words,
//! zero padding, and in-place replacement of a region of a buffer.

use vstd::bytes::*;
use vstd::prelude::*;

verus! {

/// The little-endian bytes of one descriptor word.
pub open spec fn spec_word(n: u64) -> Seq<u8> {
    spec_u64_to_le_bytes(n)
}

/// The word stored at offset `at` of `image`.
pub open spec fn spec_word_at(image: Seq<u8>, at: int) -> u64 {
    spec_u64_from_le_bytes(image.subrange(at, at + 8))
}

/// `n` zero bytes.
pub open spec fn zeros(n: nat) -> Seq<u8> {
    Seq::new(n, |i: int| 0u8)
}

/// `buf` with the bytes from `at` on replaced by `image`.
pub open spec fn splice(buf: Seq<u8>, at: int, image: Seq<u8>) -> Seq<u8> {
    buf.subrange(0, at) + image + buf.subrange(at + image.len(), buf.len() as int)
}

/// A word is eight bytes long and reading it back gives the number it was made from.
pub proof fn lemma_word(n: u64)
    ensures
        spec_word(n).len() == 8,
        spec_u64_from_le_bytes(spec_word(n)) == n,
{
    lemma_auto_spec_u64_to_from_le_bytes();
}

/// Appends `src` to `bytes`.
pub fn push_all(bytes: &mut Vec<u8>, src: &[u8])
    ensures
        final(bytes)@ == old(bytes)@ + src@,
{
    let mut i: usize = 0;
    while i < src.len()
        invariant
            i <= src@.len(),
            bytes@ == old(bytes)@ + src@.take(i as int),
        decreases src@.len() - i,
    {
        bytes.push(src[i]);
        i += 1;
        assert(bytes@ =~= old(bytes)@ + src@.take(i as int));
    }
    assert(src@.take(i as int) =~= src@);
}

/// Appends `n` zero bytes to `bytes`.
pub fn push_zeros(bytes: &mut Vec<u8>, n: usize)
    ensures
        final(bytes)@ == old(bytes)@ + zeros(n as nat),
{
    let mut i: usize = 0;
    while i < n
        invariant
            i <= n,
            bytes@ == old(bytes)@ + zeros(i as nat),
        decreases n - i,
    {
        bytes.push(0u8);
        i += 1;
        assert(bytes@ =~= old(bytes)@ + zeros(i as nat));
    }
}

/// Appends the word `n` to `bytes`.
pub fn push_word(bytes: &mut Vec<u8>, n: u64)
    ensures
        final(bytes)@ == old(bytes)@ + spec_word(n),
{
    let word = u64_to_le_bytes(n);
    push_all(bytes, word.as_slice());
}

/// Reads the word stored at offset `at` of `image`.
pub fn word_at(image: &[u8], at: usize) -> (n: u64)
    requires
        at + 8 <= image@.len(),
    ensures
        n == spec_word_at(image@, at as int),
{
    let end = image.len();
    assert(at + 8 <= end);
    u64_from_le_bytes(&image[at..at + 8])
}

/// Overwrites the bytes of `bytes` from `at` on with `src`.
pub fn write_at(bytes: &mut Vec<u8>, at: usize, src: &[u8])
    requires
        at + src@.len() <= old(bytes)@.len(),
    ensures
        final(bytes)@ == splice(old(bytes)@, at as int, src@),
{
    let len = bytes.len();
    let mut i: usize = 0;
    assert(bytes@ =~= splice(old(bytes)@, at as int, src@.take(0)));
    while i < src.len()
        invariant
            i <= src@.len(),
            at + src@.len() <= len,
            bytes@.len() == len,
            old(bytes)@.len() == len,
            bytes@ == splice(old(bytes)@, at as int, src@.take(i as int)),
        decreases src@.len() - i,
    {
        bytes[at + i] = src[i];
        i += 1;
        assert(bytes@ =~= splice(old(bytes)@, at as int, src@.take(i as int)));
    }
    assert(src@.take(i as int) =~= src@);
}

/// Number of bytes in the descriptor of an owned buffer.
pub const DESCRIPTOR: usize = 24;

/// Number of bytes in the descriptor of a borrowed sequence.
pub const HEADER: usize = 16;

/// The reference of a value at rest, which is bound to storage of its own.
/// Addresses have no place in a buffer: whatever the storage, a bound
/// reference is this one word, and a stripped reference is the word 0.
pub const BOUND: u64 = 1;

/// The descriptor of an owned buffer of `len` items at rest: a bound
/// reference, then the capacity and the length, both `len`.
pub open spec fn spec_descriptor(len: u64) -> Seq<u8> {
    spec_word(BOUND) + spec_word(len) + spec_word(len)
}

/// The length that the descriptor `image` declares.
pub open spec fn spec_declared(image: Seq<u8>) -> u64 {
    spec_word_at(image, 16)
}

/// The descriptor `image` with its reference made null and its capacity
/// made its length. The declared length stays.
pub open spec fn spec_strip(image: Seq<u8>) -> Seq<u8> {
    spec_word(0) + image.subrange(16, 24) + image.subrange(16, 24)
}

/// The descriptor of a borrowed sequence of `len` items at rest: a bound
/// reference, then the length.
pub open spec fn spec_header(len: u64) -> Seq<u8> {
    spec_word(BOUND) + spec_word(len)
}

/// The header `image` with its reference made null. The length stays.
pub open spec fn spec_strip_header(image: Seq<u8>) -> Seq<u8> {
    spec_word(0) + image.subrange(8, 16)
}

/// A descriptor is three words long. Stripped, it is a null reference and
/// twice the length it was made with, and that is the length it declares.
pub proof fn lemma_descriptor(len: u64)
    ensures
        spec_descriptor(len).len() == 24,
        spec_strip(spec_descriptor(len)) == spec_word(0) + spec_word(len) + spec_word(len),
        spec_strip(spec_descriptor(len)).len() == 24,
        spec_declared(spec_strip(spec_descriptor(len))) == len,
{
    lemma_word(0);
    lemma_word(BOUND);
    lemma_word(len);
    let d = spec_descriptor(len);
    let s = spec_word(0) + spec_word(len) + spec_word(len);
    assert(d.subrange(16, 24) =~= spec_word(len));
    assert(spec_strip(d) =~= s);
    assert(s.subrange(16, 24) =~= spec_word(len));
}

/// A header is two words long. Stripped, it is a null reference and the
/// length it was made with, and that is the length it declares.
pub proof fn lemma_header(len: u64)
    ensures
        spec_header(len).len() == 16,
        spec_strip_header(spec_header(len)) == spec_word(0) + spec_word(len),
        spec_strip_header(spec_header(len)).len() == 16,
        spec_word_at(spec_strip_header(spec_header(len)), 8) == len,
{
    lemma_word(0);
    lemma_word(BOUND);
    lemma_word(len);
    let h = spec_header(len);
    let s = spec_word(0) + spec_word(len);
    assert(h.subrange(8, 16) =~= spec_word(len));
    assert(spec_strip_header(h) =~= s);
    assert(s.subrange(8, 16) =~= spec_word(len));
}

/// Appends the descriptor of an owned buffer of `len` items at rest to
/// `bytes`.
pub fn push_descriptor(bytes: &mut Vec<u8>, len: u64)
    ensures
        final(bytes)@ == old(bytes)@ + spec_descriptor(len),
{
    push_word(bytes, BOUND);
    push_word(bytes, len);
    push_word(bytes, len);
    assert(bytes@ =~= old(bytes)@ + spec_descriptor(len));
}

/// Appends the descriptor of a borrowed sequence of `len` items at rest to
/// `bytes`.
pub fn push_header(bytes: &mut Vec<u8>, len: u64)
    ensures
        final(bytes)@ == old(bytes)@ + spec_header(len),
{
    push_word(bytes, BOUND);
    push_word(bytes, len);
    assert(bytes@ =~= old(bytes)@ + spec_header(len));
}

/// The length that the descriptor `image` declares.
pub fn declared(image: &[u8]) -> (len: u64)
    requires
        image@.len() == 24,
    ensures
        len == spec_declared(image@),
{
    word_at(image, 16)
}

/// Strips the descriptor that starts at `at` in `bytes`.
pub fn strip(bytes: &mut Vec<u8>, at: usize)
    requires
        at + 24 <= old(bytes)@.len(),
    ensures
        final(bytes)@ == splice(old(bytes)@, at as int, spec_strip(old(bytes)@.subrange(at as int, at + 24))),
{
    let end = bytes.len();
    assert(at + 24 <= end);
    let len = word_at(bytes.as_slice(), at + 16);
    let null = u64_to_le_bytes(0);
    let capacity = u64_to_le_bytes(len);
    proof {
        lemma_auto_spec_u64_to_from_le_bytes();
        assert(old(bytes)@.subrange(at + 16, at + 24).len() == 8);
        assert(capacity@ == old(bytes)@.subrange(at + 16, at + 24));
    }
    write_at(bytes, at, null.as_slice());
    write_at(bytes, at + 8, capacity.as_slice());
    proof {
        let image = old(bytes)@.subrange(at as int, at + 24);
        assert(image.subrange(16, 24) =~= old(bytes)@.subrange(at + 16, at + 24));
        assert(bytes@ =~= splice(old(bytes)@, at as int, spec_strip(image)));
    }
}

/// Strips the header that starts at `at` in `bytes`.
pub fn strip_header(bytes: &mut Vec<u8>, at: usize)
    requires
        at + 16 <= old(bytes)@.len(),
    ensures
        final(bytes)@ == splice(
            old(bytes)@,
            at as int,
            spec_strip_header(old(bytes)@.subrange(at as int, at + 16)),
        ),
{
    let null = u64_to_le_bytes(0);
    write_at(bytes, at, null.as_slice());
    proof {
        let image = old(bytes)@.subrange(at as int, at + 16);
        assert(bytes@ =~= splice(old(bytes)@, at as int, spec_strip_header(image)));
    }
}

} // verus!
