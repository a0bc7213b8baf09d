//! The protocol for an owned text: its image is a descriptor, and it owns
//! its UTF-8 bytes. Exhuming fails only where bytes are missing. Bytes that
//! are no UTF-8 are claimed all the same, and the text made of them holds a
//! replacement character wherever they are malformed.

use crate::words::{
    declared, lemma_descriptor, lemma_word, push_all, push_descriptor, spec_declared,
    spec_descriptor, spec_strip, strip, DESCRIPTOR,
};
use crate::Abomonation;
use vstd::prelude::*;
use vstd::utf8::*;

verus! {

/// [`std::str::from_utf8`], which accepts exactly the byte sequences that are
/// well-formed UTF-8 and then gives the text whose encoding is those very
/// bytes. `None` stands for its error.
#[verifier::external_body]
fn text_from_utf8(bytes: &[u8]) -> (text: Option<&str>)
    ensures
        text is Some <==> valid_utf8(bytes@),
        text matches Some(s) ==> encode_utf8(s@) == bytes@,
{
    match std::str::from_utf8(bytes) {
        Ok(s) => Some(s),
        Err(_) => None,
    }
}

/// The text that [`String::from_utf8_lossy`] makes of `bytes`.
pub uninterp spec fn spec_lossy_text(bytes: Seq<u8>) -> Seq<char>;

/// [`String::from_utf8_lossy`], which makes a text of any bytes, with a
/// replacement character in the place of what is no UTF-8. Nothing is claimed
/// of the text but that the bytes alone determine it.
#[verifier::external_body]
fn text_from_utf8_lossy(bytes: &[u8]) -> (text: String)
    ensures
        text@ == spec_lossy_text(bytes@),
{
    String::from_utf8_lossy(bytes).into_owned()
}

impl Abomonation for String {
    open spec fn spec_size() -> nat {
        24
    }

    open spec fn spec_fits() -> bool {
        true
    }

    open spec fn spec_valid(v: Seq<char>) -> bool {
        encode_utf8(v).len() <= u64::MAX
    }

    open spec fn spec_plain() -> bool {
        false
    }

    open spec fn spec_supported() -> bool {
        true
    }

    open spec fn spec_image(v: Seq<char>) -> Seq<u8> {
        spec_descriptor(encode_utf8(v).len() as u64)
    }

    open spec fn spec_read(image: Seq<u8>) -> Seq<char> {
        Seq::empty()
    }

    open spec fn spec_tomb(v: Seq<char>) -> Seq<u8> {
        encode_utf8(v)
    }

    open spec fn spec_embalm(image: Seq<u8>) -> Seq<u8> {
        spec_strip(image)
    }

    open spec fn spec_exhume(image: Seq<u8>, bytes: Seq<u8>) -> Result<
        (Seq<char>, Seq<u8>),
        Seq<u8>,
    > {
        let len = spec_declared(image) as int;
        if len > bytes.len() {
            Err(bytes)
        } else if valid_utf8(bytes.take(len)) {
            Ok((decode_utf8(bytes.take(len)), bytes.skip(len)))
        } else {
            Ok((spec_lossy_text(bytes.take(len)), bytes.skip(len)))
        }
    }

    proof fn lemma_size() {
    }

    proof fn lemma_image(v: Seq<char>) {
        lemma_descriptor(encode_utf8(v).len() as u64);
    }

    proof fn lemma_embalm(image: Seq<u8>) {
        lemma_word(0);
    }

    proof fn lemma_plain(v: Seq<char>) {
    }

    proof fn lemma_exhume_entombed(v: Seq<char>, rest: Seq<u8>) {
        let tomb = encode_utf8(v);
        lemma_descriptor(tomb.len() as u64);
        encode_utf8_valid_utf8(v);
        encode_utf8_decode_utf8(v);
        assert((tomb + rest).take(tomb.len() as int) =~= tomb);
        assert((tomb + rest).skip(tomb.len() as int) =~= rest);
    }

    proof fn lemma_exhume_truncated(v: Seq<char>, k: int) {
        lemma_descriptor(encode_utf8(v).len() as u64);
    }

    fn size() -> (n: usize) {
        DESCRIPTOR
    }

    fn write_image(&self, bytes: &mut Vec<u8>) {
        let content = self.as_str().as_bytes();
        push_descriptor(bytes, content.len() as u64);
    }

    fn read_image(image: &[u8]) -> (v: Self) {
        String::new()
    }

    fn entomb(&self, bytes: &mut Vec<u8>) {
        push_all(bytes, self.as_str().as_bytes());
    }

    fn embalm(bytes: &mut Vec<u8>, at: usize) {
        strip(bytes, at);
    }

    fn exhume<'a>(image: &[u8], bytes: &'a [u8]) -> (r: Result<(Self, &'a [u8]), &'a [u8]>)
        ensures
            r is Err <==> spec_declared(image@) > bytes@.len(),
    {
        let len = declared(image);
        if len > bytes.len() as u64 {
            return Err(bytes);
        }
        let (mine, rest) = bytes.split_at(len as usize);
        assert(mine@ =~= bytes@.take(len as int));
        assert(rest@ =~= bytes@.skip(len as int));
        match text_from_utf8(mine) {
            Some(text) => {
                proof {
                    encode_utf8_decode_utf8(text@);
                }
                Ok((text.to_owned(), rest))
            },
            None => Ok((text_from_utf8_lossy(mine), rest)),
        }
    }
}

} // verus!
