//! What holds of `encode` and `decode` together.

use crate::elements::{
    lemma_exhume_slice_entombed, lemma_exhume_slice_truncated, spec_all_valid, spec_entomb_slice,
    spec_exhume_each, spec_images, spec_tombs,
};
use crate::words::{lemma_header, spec_header, spec_strip_header, spec_word};
use crate::{spec_decode, spec_encode, Abomonation};
use vstd::prelude::*;

verus! {

/// Decoding what was encoded, for a supported element type, succeeds and
/// gives the encoded sequence back, element by element.
pub proof fn lemma_decode_encode<T: Abomonation>(vs: Seq<T::V>)
    requires
        T::spec_supported(),
        spec_all_valid::<T>(vs),
    ensures
        spec_decode::<T>(spec_encode::<T>(vs)) == Ok::<Seq<T::V>, Seq<u8>>(vs),
{
    let count = vs.len() as u64;
    let bytes = spec_encode::<T>(vs);
    let owned = spec_entomb_slice::<T>(vs);
    lemma_header(count);
    assert(bytes.subrange(8, 16) =~= spec_strip_header(spec_header(count)).subrange(8, 16));
    assert(bytes.skip(16) =~= owned + Seq::<u8>::empty());
    lemma_exhume_slice_entombed::<T>(vs, Seq::empty());
}

/// Encoding what was decoded from an encoding, for a supported element
/// type, gives the same bytes as the first encoding.
pub proof fn lemma_encode_decode_encode<T: Abomonation>(vs: Seq<T::V>)
    requires
        T::spec_supported(),
        spec_all_valid::<T>(vs),
    ensures
        spec_decode::<T>(spec_encode::<T>(vs)) matches Ok(ws) && spec_encode::<T>(ws)
            == spec_encode::<T>(vs),
{
    lemma_decode_encode::<T>(vs);
}

/// Decoding an encoding cut short at any length fails.
pub proof fn lemma_decode_truncated<T: Abomonation>(vs: Seq<T::V>, k: int)
    requires
        spec_all_valid::<T>(vs),
        0 <= k < spec_encode::<T>(vs).len(),
    ensures
        spec_decode::<T>(spec_encode::<T>(vs).take(k)) is Err,
{
    let count = vs.len() as u64;
    let whole = spec_encode::<T>(vs);
    let bytes = whole.take(k);
    let owned = spec_entomb_slice::<T>(vs);
    lemma_header(count);
    if k >= 16 {
        assert(bytes.subrange(8, 16) =~= spec_strip_header(spec_header(count)).subrange(8, 16));
        assert(bytes.skip(16) =~= owned.take(k - 16));
        lemma_exhume_slice_truncated::<T>(vs, k - 16);
    }
}

/// The encoding of the empty sequence is a header alone, with a null
/// reference and no element announced, and decodes to the empty sequence.
pub proof fn lemma_encode_empty<T: Abomonation>()
    ensures
        spec_encode::<T>(Seq::empty()) == spec_word(0) + spec_word(0),
        spec_decode::<T>(spec_word(0) + spec_word(0)) == Ok::<Seq<T::V>, Seq<u8>>(Seq::empty()),
{
    let bytes = spec_word(0) + spec_word(0);
    lemma_header(0);
    assert(spec_encode::<T>(Seq::empty()) =~= bytes);
    assert(bytes.skip(16) =~= Seq::<u8>::empty());
    assert(bytes.skip(16).take(0) =~= Seq::<u8>::empty());
    assert(bytes.skip(16).skip(0) =~= Seq::<u8>::empty());
}

/// An optional text does not come back: its content is not written, and
/// what is decoded in its place is the empty text.
pub proof fn lemma_optional_text_is_lost(text: Seq<char>)
    ensures
        spec_decode::<Option<String>>(spec_encode::<Option<String>>(seq![Some(text)])) == Ok::<
            Seq<Option<Seq<char>>>,
            Seq<u8>,
        >(seq![Some(Seq::<char>::empty())]),
        text.len() > 0 ==> spec_decode::<Option<String>>(
            spec_encode::<Option<String>>(seq![Some(text)]),
        ) != Ok::<Seq<Option<Seq<char>>>, Seq<u8>>(seq![Some(text)]),
{
    let vs: Seq<Option<Seq<char>>> = seq![Some(text)];
    let image = <Option<String>>::spec_image(Some(text));
    let bytes = spec_encode::<Option<String>>(vs);
    let nothing = Seq::<u8>::empty();
    let header = spec_strip_header(spec_header(1));
    lemma_header(1);
    <Option<String>>::lemma_image(Some(text));
    assert(vs.drop_first() =~= Seq::empty());
    assert(spec_images::<Option<String>>(vs.drop_first()) =~= nothing);
    assert(spec_tombs::<Option<String>>(vs.drop_first()) =~= nothing);
    assert(spec_images::<Option<String>>(vs) =~= image);
    assert(spec_tombs::<Option<String>>(vs) =~= nothing);
    assert(bytes =~= header + image);
    assert(bytes.subrange(8, 16) =~= header.subrange(8, 16));
    assert(bytes.skip(16) =~= image);
    assert(image.take(25) =~= image);
    assert(image.skip(25) =~= nothing);
    let last = spec_exhume_each::<Option<String>>(nothing, 0, nothing);
    assert(last == Ok::<(Seq<Option<Seq<char>>>, Seq<u8>), Seq<u8>>((Seq::empty(), nothing)));
    let lost: Seq<Option<Seq<char>>> = seq![Some(Seq::<char>::empty())];
    assert(seq![Some(Seq::<char>::empty())] + Seq::<Option<Seq<char>>>::empty() =~= lost);
    assert(spec_exhume_each::<Option<String>>(image, 1, nothing) == Ok::<
        (Seq<Option<Seq<char>>>, Seq<u8>),
        Seq<u8>,
    >((lost, nothing)));
    if text.len() > 0 {
        assert(lost[0] != vs[0]);
    }
}

} // verus!
