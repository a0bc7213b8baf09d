//! The protocol for an optional value: one byte that tells whether a value
//! is there, then the image of the value. No phase goes into that image: its
//! references stay as they were at rest, and what the value would own is
//! neither appended nor restored. Only an optional value of a plain type
//! comes back as it was.

use crate::words::{push_zeros, splice, zeros};
use crate::Abomonation;
use vstd::prelude::*;

verus! {

impl<T: Abomonation> Abomonation for Option<T> {
    open spec fn spec_size() -> nat {
        1 + T::spec_size()
    }

    open spec fn spec_fits() -> bool {
        &&& T::spec_fits()
        &&& 1 + T::spec_size() <= usize::MAX
    }

    open spec fn spec_valid(v: Option<T::V>) -> bool {
        v matches Some(inner) ==> T::spec_valid(inner)
    }

    open spec fn spec_plain() -> bool {
        T::spec_plain()
    }

    open spec fn spec_supported() -> bool {
        T::spec_plain()
    }

    open spec fn spec_image(v: Option<T::V>) -> Seq<u8> {
        match v {
            None => seq![0u8] + zeros(T::spec_size()),
            Some(inner) => seq![1u8] + T::spec_image(inner),
        }
    }

    open spec fn spec_read(image: Seq<u8>) -> Option<T::V> {
        if image[0] == 0 {
            None
        } else {
            Some(T::spec_read(image.skip(1)))
        }
    }

    proof fn lemma_size() {
        T::lemma_size();
    }

    proof fn lemma_image(v: Option<T::V>) {
        if let Some(inner) = v {
            T::lemma_image(inner);
        }
    }

    proof fn lemma_embalm(image: Seq<u8>) {
    }

    proof fn lemma_plain(v: Option<T::V>) {
        if let Some(inner) = v {
            T::lemma_plain(inner);
            assert(Self::spec_image(v).skip(1) =~= T::spec_image(inner));
        }
    }

    proof fn lemma_exhume_entombed(v: Option<T::V>, rest: Seq<u8>) {
        assert(Self::spec_tomb(v) + rest =~= rest);
        Self::lemma_plain(v);
    }

    proof fn lemma_exhume_truncated(v: Option<T::V>, k: int) {
    }

    fn size() -> (n: usize) {
        1 + T::size()
    }

    fn write_image(&self, bytes: &mut Vec<u8>) {
        match self {
            None => {
                bytes.push(0u8);
                push_zeros(bytes, T::size());
            },
            Some(inner) => {
                bytes.push(1u8);
                inner.write_image(bytes);
            },
        }
        assert(bytes@ =~= old(bytes)@ + Self::spec_image(self.deep_view()));
    }

    fn read_image(image: &[u8]) -> (v: Self) {
        if image[0] == 0 {
            None
        } else {
            let inner = &image[1..image.len()];
            assert(inner@ =~= image@.skip(1));
            Some(T::read_image(inner))
        }
    }

    fn entomb(&self, bytes: &mut Vec<u8>) {
        assert(bytes@ =~= old(bytes)@ + Self::spec_tomb(self.deep_view()));
    }

    fn embalm(bytes: &mut Vec<u8>, at: usize) {
        assert(bytes@ =~= splice(
            old(bytes)@,
            at as int,
            old(bytes)@.subrange(at as int, at + Self::spec_size()),
        ));
    }

    fn exhume<'a>(image: &[u8], bytes: &'a [u8]) -> (r: Result<(Self, &'a [u8]), &'a [u8]>) {
        Ok((Self::read_image(image), bytes))
    }
}

} // verus!
