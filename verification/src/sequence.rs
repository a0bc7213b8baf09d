//! The protocol for an owned sequence: its image is a descriptor, and it
//! owns the images and the tombs of its elements.

use crate::elements::{
    entomb_slice, exhume_slice, lemma_exhume_slice_entombed, lemma_exhume_slice_truncated,
    spec_all_valid, spec_entomb_slice, spec_exhume_slice,
};
use crate::words::{
    declared, lemma_descriptor, lemma_word, push_descriptor, spec_declared, spec_descriptor,
    spec_strip, strip, DESCRIPTOR,
};
use crate::Abomonation;
use vstd::prelude::*;

verus! {

impl<T: Abomonation> Abomonation for Vec<T> {
    open spec fn spec_size() -> nat {
        24
    }

    open spec fn spec_fits() -> bool {
        T::spec_fits()
    }

    open spec fn spec_valid(v: Seq<T::V>) -> bool {
        spec_all_valid::<T>(v)
    }

    open spec fn spec_plain() -> bool {
        false
    }

    open spec fn spec_supported() -> bool {
        T::spec_supported()
    }

    open spec fn spec_image(v: Seq<T::V>) -> Seq<u8> {
        spec_descriptor(v.len() as u64)
    }

    open spec fn spec_read(image: Seq<u8>) -> Seq<T::V> {
        Seq::empty()
    }

    open spec fn spec_tomb(v: Seq<T::V>) -> Seq<u8> {
        spec_entomb_slice::<T>(v)
    }

    open spec fn spec_embalm(image: Seq<u8>) -> Seq<u8> {
        spec_strip(image)
    }

    open spec fn spec_exhume(image: Seq<u8>, bytes: Seq<u8>) -> Result<
        (Seq<T::V>, Seq<u8>),
        Seq<u8>,
    > {
        spec_exhume_slice::<T>(spec_declared(image) as nat, bytes)
    }

    proof fn lemma_size() {
    }

    proof fn lemma_image(v: Seq<T::V>) {
        lemma_descriptor(v.len() as u64);
    }

    proof fn lemma_embalm(image: Seq<u8>) {
        lemma_word(0);
    }

    proof fn lemma_plain(v: Seq<T::V>) {
    }

    proof fn lemma_exhume_entombed(v: Seq<T::V>, rest: Seq<u8>) {
        lemma_descriptor(v.len() as u64);
        lemma_exhume_slice_entombed::<T>(v, rest);
    }

    proof fn lemma_exhume_truncated(v: Seq<T::V>, k: int) {
        if 0 <= k < Self::spec_tomb(v).len() {
            lemma_descriptor(v.len() as u64);
            lemma_exhume_slice_truncated::<T>(v, k);
        }
    }

    fn size() -> (n: usize) {
        DESCRIPTOR
    }

    fn write_image(&self, bytes: &mut Vec<u8>) {
        push_descriptor(bytes, self.len() as u64);
    }

    fn read_image(image: &[u8]) -> (v: Self) {
        let v: Vec<T> = Vec::new();
        assert(v.deep_view() =~= Seq::<T::V>::empty());
        v
    }

    fn entomb(&self, bytes: &mut Vec<u8>) {
        let typed = self.as_slice();
        assert(typed.deep_view() =~= self.deep_view());
        entomb_slice(typed, bytes);
    }

    fn embalm(bytes: &mut Vec<u8>, at: usize) {
        strip(bytes, at);
    }

    fn exhume<'a>(image: &[u8], bytes: &'a [u8]) -> (r: Result<(Self, &'a [u8]), &'a [u8]>) {
        let count = declared(image);
        exhume_slice::<T>(count, bytes)
    }
}

} // verus!
