//! A serialization mechanism in three phases.
//!
//! A sequence of values is written as the fixed-size image of every value,
//! followed by whatever the values own beyond their image. Reading goes the
//! same way: the images are taken first, and each image then claims, front to
//! back, the bytes that restore what its value owned.
//!
//! An encoded sequence is, in this order:
//!
//! - a header of two words: a null reference and the number of elements;
//! - the images of the elements, each of the size of its type, with every
//!   reference in them made null;
//! - the tombs of the elements: for a text its UTF-8 bytes, for a sequence
//!   the images and then the tombs of its own elements, for a pair the tomb of
//!   the first field and then that of the second, and nothing for a number.
//!
//! All numbers are little-endian; a word has 64 bits.

use vstd::prelude::*;

pub mod elements;
pub mod laws;
pub mod optional;
pub mod pair;
pub mod primitive;
pub mod sequence;
pub mod text;
pub mod words;

use crate::elements::{entomb_slice, exhume_slice, spec_entomb_slice, spec_exhume_slice};
use crate::words::{
    lemma_header, push_header, spec_header, spec_strip_header, spec_word_at, splice, strip_header,
    word_at, HEADER,
};

verus! {

/// The three-phase protocol of a type that can appear in a serialized sequence.
///
/// Every value has an *image* of `spec_size()` bytes and a *tomb*: the bytes,
/// beyond the image, that hold what the value owns. The image is taken from
/// the value at rest, with its references bound to the value's own storage.
/// `entomb` appends the tomb, `embalm` strips from an image in a buffer the
/// references that must not be written out, and `exhume` rebuilds a value from
/// its embalmed image and a prefix of the bytes that follow.
///
/// The model of a value is its deep view. The defaults of `spec_tomb`,
/// `spec_embalm` and `spec_exhume` describe a type that owns nothing: an empty
/// tomb, an image without references, and a value that its image alone
/// determines.
pub trait Abomonation: DeepView + Sized {
    /// Length in bytes of the image of every value of this type.
    spec fn spec_size() -> nat;

    /// Whether the images of this type, and of the element types of the
    /// sequences it holds, are short enough to be addressed.
    spec fn spec_fits() -> bool;

    /// Whether `v` is the model of a value that can exist in memory.
    spec fn spec_valid(v: Self::V) -> bool;

    /// Whether values of this type own nothing beyond their image.
    spec fn spec_plain() -> bool;

    /// Whether writing a value of this type and reading it back restores it.
    spec fn spec_supported() -> bool;

    /// The image of `v`.
    spec fn spec_image(v: Self::V) -> Seq<u8>;

    /// The value that `image` alone determines, with nothing restored that
    /// the value would own.
    spec fn spec_read(image: Seq<u8>) -> Self::V;

    /// The tomb of `v`.
    open spec fn spec_tomb(v: Self::V) -> Seq<u8> {
        Seq::empty()
    }

    /// `image` with its references stripped.
    open spec fn spec_embalm(image: Seq<u8>) -> Seq<u8> {
        image
    }

    /// The value rebuilt from `image` and a prefix of `bytes`, with the bytes
    /// left over; or, where `bytes` does not hold what `image` asks for, the
    /// bytes that were left when that was found.
    open spec fn spec_exhume(image: Seq<u8>, bytes: Seq<u8>) -> Result<
        (Self::V, Seq<u8>),
        Seq<u8>,
    > {
        Ok((Self::spec_read(image), bytes))
    }

    /// An image is never empty, and one that fits can be addressed.
    proof fn lemma_size()
        ensures
            Self::spec_size() > 0,
            Self::spec_fits() ==> Self::spec_size() <= usize::MAX,
    ;

    /// An image has the length of its type.
    proof fn lemma_image(v: Self::V)
        ensures
            Self::spec_image(v).len() == Self::spec_size(),
    ;

    /// Stripping the references of an image keeps its length.
    proof fn lemma_embalm(image: Seq<u8>)
        requires
            image.len() == Self::spec_size(),
        ensures
            Self::spec_embalm(image).len() == Self::spec_size(),
    ;

    /// A plain type is supported, and a value of it has an empty tomb and is
    /// what its image reads as.
    proof fn lemma_plain(v: Self::V)
        ensures
            Self::spec_plain() ==> {
                &&& Self::spec_supported()
                &&& Self::spec_tomb(v) == Seq::<u8>::empty()
                &&& Self::spec_read(Self::spec_image(v)) == v
            },
    ;

    /// Exhuming the embalmed image of `v` from its tomb, whatever follows the
    /// tomb, consumes exactly the tomb; for a supported type it gives `v` back.
    proof fn lemma_exhume_entombed(v: Self::V, rest: Seq<u8>)
        requires
            Self::spec_valid(v),
        ensures
            Self::spec_exhume(
                Self::spec_embalm(Self::spec_image(v)),
                Self::spec_tomb(v) + rest,
            ) matches Ok((w, r)) && r == rest && (Self::spec_supported() ==> w == v),
    ;

    /// Exhuming the embalmed image of `v` from less than its whole tomb fails.
    proof fn lemma_exhume_truncated(v: Self::V, k: int)
        requires
            Self::spec_valid(v),
        ensures
            0 <= k < Self::spec_tomb(v).len() ==> Self::spec_exhume(
                Self::spec_embalm(Self::spec_image(v)),
                Self::spec_tomb(v).take(k),
            ) is Err,
    ;

    /// The length of an image of this type.
    fn size() -> (n: usize)
        requires
            Self::spec_fits(),
        ensures
            n == Self::spec_size(),
    ;

    /// Appends the image of `self` to `bytes`.
    fn write_image(&self, bytes: &mut Vec<u8>)
        requires
            Self::spec_fits(),
        ensures
            final(bytes)@ == old(bytes)@ + Self::spec_image(self.deep_view()),
    ;

    /// Reads `image` as a value, restoring nothing that the value would own.
    fn read_image(image: &[u8]) -> (v: Self)
        requires
            Self::spec_fits(),
            image@.len() == Self::spec_size(),
        ensures
            v.deep_view() == Self::spec_read(image@),
    ;

    /// Appends the tomb of `self` to `bytes`.
    fn entomb(&self, bytes: &mut Vec<u8>)
        requires
            Self::spec_fits(),
        ensures
            final(bytes)@ == old(bytes)@ + Self::spec_tomb(self.deep_view()),
    ;

    /// Strips the references of the image that starts at `at` in `bytes`.
    fn embalm(bytes: &mut Vec<u8>, at: usize)
        requires
            Self::spec_fits(),
            at + Self::spec_size() <= old(bytes)@.len(),
        ensures
            final(bytes)@ == splice(
                old(bytes)@,
                at as int,
                Self::spec_embalm(old(bytes)@.subrange(at as int, at + Self::spec_size())),
            ),
    ;

    /// Rebuilds a value from `image` and a prefix of `bytes`, and returns it
    /// with the bytes left over; fails with the bytes left at that point where
    /// `bytes` does not hold what `image` asks for.
    fn exhume<'a>(image: &[u8], bytes: &'a [u8]) -> (r: Result<(Self, &'a [u8]), &'a [u8]>)
        requires
            Self::spec_fits(),
            image@.len() == Self::spec_size(),
        ensures
            match r {
                Ok((v, rest)) => Self::spec_exhume(image@, bytes@) == Ok::<
                    (Self::V, Seq<u8>),
                    Seq<u8>,
                >((v.deep_view(), rest@)),
                Err(rest) => Self::spec_exhume(image@, bytes@) == Err::<
                    (Self::V, Seq<u8>),
                    Seq<u8>,
                >(rest@),
            },
    ;
}

/// What `encode` appends for a sequence `vs`: the header of the sequence,
/// stripped of its reference; the embalmed images of the elements; the tombs
/// of the elements.
pub open spec fn spec_encode<T: Abomonation>(vs: Seq<T::V>) -> Seq<u8> {
    spec_strip_header(spec_header(vs.len() as u64)) + spec_entomb_slice::<T>(vs)
}

/// What `decode` makes of `bytes`: the sequence that the header announces,
/// exhumed from the bytes behind the header; or, where the bytes run out,
/// the bytes that were left there. A buffer too short to hold a header is
/// left whole.
pub open spec fn spec_decode<T: Abomonation>(bytes: Seq<u8>) -> Result<Seq<T::V>, Seq<u8>> {
    if bytes.len() < 16 {
        Err(bytes)
    } else {
        match spec_exhume_slice::<T>(spec_word_at(bytes, 8) as nat, bytes.skip(16)) {
            Ok((vs, _)) => Ok(vs),
            Err(rest) => Err(rest),
        }
    }
}

/// Encodes the sequence `typed` at the end of `bytes`.
///
/// Writes the header of the sequence, strips the reference from the header
/// where it lies in the buffer, and appends what the sequence owns.
pub fn encode<T: Abomonation>(typed: &[T], bytes: &mut Vec<u8>)
    requires
        T::spec_fits(),
    ensures
        final(bytes)@ == old(bytes)@ + spec_encode::<T>(typed.deep_view()),
{
    let start = bytes.len();
    push_header(bytes, typed.len() as u64);
    proof {
        lemma_header(typed@.len() as u64);
        assert(bytes@.subrange(start as int, start + 16) =~= spec_header(typed@.len() as u64));
    }
    strip_header(bytes, start);
    assert(bytes@ =~= old(bytes)@ + spec_strip_header(spec_header(typed@.len() as u64)));
    entomb_slice(typed, bytes);
    assert(bytes@ =~= old(bytes)@ + spec_encode::<T>(typed.deep_view()));
}

/// Decodes the sequence that `bytes` holds.
///
/// Fails where `bytes` is shorter than what the header and the images
/// announce, with the bytes that were left at that point.
pub fn decode<T: Abomonation>(bytes: &[u8]) -> (r: Result<Vec<T>, &[u8]>)
    requires
        T::spec_fits(),
    ensures
        match r {
            Ok(typed) => spec_decode::<T>(bytes@) == Ok::<Seq<T::V>, Seq<u8>>(typed.deep_view()),
            Err(rest) => spec_decode::<T>(bytes@) == Err::<Seq<T::V>, Seq<u8>>(rest@),
        },
{
    if bytes.len() < HEADER {
        return Err(bytes);
    }
    let (header, tombs) = bytes.split_at(HEADER);
    assert(tombs@ =~= bytes@.skip(16));
    assert(header@.subrange(8, 16) =~= bytes@.subrange(8, 16));
    let count = word_at(header, 8);
    match exhume_slice::<T>(count, tombs) {
        Ok((typed, _)) => Ok(typed),
        Err(rest) => Err(rest),
    }
}

} // verus!
