//! The protocol for a pair: every phase handles the first field, then the
//! second.

use crate::words::splice;
use crate::Abomonation;
use vstd::prelude::*;

verus! {

impl<A: Abomonation, B: Abomonation> Abomonation for (A, B) {
    open spec fn spec_size() -> nat {
        A::spec_size() + B::spec_size()
    }

    open spec fn spec_fits() -> bool {
        &&& A::spec_fits()
        &&& B::spec_fits()
        &&& A::spec_size() + B::spec_size() <= usize::MAX
    }

    open spec fn spec_valid(v: (A::V, B::V)) -> bool {
        A::spec_valid(v.0) && B::spec_valid(v.1)
    }

    open spec fn spec_plain() -> bool {
        A::spec_plain() && B::spec_plain()
    }

    open spec fn spec_supported() -> bool {
        A::spec_supported() && B::spec_supported()
    }

    open spec fn spec_image(v: (A::V, B::V)) -> Seq<u8> {
        A::spec_image(v.0) + B::spec_image(v.1)
    }

    open spec fn spec_read(image: Seq<u8>) -> (A::V, B::V) {
        (
            A::spec_read(image.take(A::spec_size() as int)),
            B::spec_read(image.skip(A::spec_size() as int)),
        )
    }

    open spec fn spec_tomb(v: (A::V, B::V)) -> Seq<u8> {
        A::spec_tomb(v.0) + B::spec_tomb(v.1)
    }

    open spec fn spec_embalm(image: Seq<u8>) -> Seq<u8> {
        A::spec_embalm(image.take(A::spec_size() as int)) + B::spec_embalm(
            image.skip(A::spec_size() as int),
        )
    }

    open spec fn spec_exhume(image: Seq<u8>, bytes: Seq<u8>) -> Result<
        ((A::V, B::V), Seq<u8>),
        Seq<u8>,
    > {
        match A::spec_exhume(image.take(A::spec_size() as int), bytes) {
            Err(rest) => Err(rest),
            Ok((a, rest)) => match B::spec_exhume(image.skip(A::spec_size() as int), rest) {
                Err(rest) => Err(rest),
                Ok((b, rest)) => Ok(((a, b), rest)),
            },
        }
    }

    proof fn lemma_size() {
        A::lemma_size();
        B::lemma_size();
    }

    proof fn lemma_image(v: (A::V, B::V)) {
        let image = Self::spec_image(v);
        let mid = A::spec_size() as int;
        A::lemma_image(v.0);
        B::lemma_image(v.1);
        assert(image.take(mid) =~= A::spec_image(v.0));
        assert(image.skip(mid) =~= B::spec_image(v.1));
    }

    proof fn lemma_embalm(image: Seq<u8>) {
        let mid = A::spec_size() as int;
        A::lemma_embalm(image.take(mid));
        B::lemma_embalm(image.skip(mid));
    }

    proof fn lemma_plain(v: (A::V, B::V)) {
        let image = Self::spec_image(v);
        let mid = A::spec_size() as int;
        A::lemma_image(v.0);
        A::lemma_plain(v.0);
        B::lemma_plain(v.1);
        assert(image.take(mid) =~= A::spec_image(v.0));
        assert(image.skip(mid) =~= B::spec_image(v.1));
        if Self::spec_plain() {
            assert(Self::spec_tomb(v) =~= Seq::<u8>::empty());
        }
    }

    proof fn lemma_exhume_entombed(v: (A::V, B::V), rest: Seq<u8>) {
        let image = Self::spec_image(v);
        let embalmed = Self::spec_embalm(image);
        let mid = A::spec_size() as int;
        let after = B::spec_tomb(v.1) + rest;
        A::lemma_image(v.0);
        A::lemma_embalm(A::spec_image(v.0));
        assert(image.take(mid) =~= A::spec_image(v.0));
        assert(image.skip(mid) =~= B::spec_image(v.1));
        assert(embalmed.take(mid) =~= A::spec_embalm(A::spec_image(v.0)));
        assert(embalmed.skip(mid) =~= B::spec_embalm(B::spec_image(v.1)));
        assert(Self::spec_tomb(v) + rest =~= A::spec_tomb(v.0) + after);
        A::lemma_exhume_entombed(v.0, after);
        B::lemma_exhume_entombed(v.1, rest);
    }

    proof fn lemma_exhume_truncated(v: (A::V, B::V), k: int) {
        let image = Self::spec_image(v);
        let embalmed = Self::spec_embalm(image);
        let mid = A::spec_size() as int;
        let first = A::spec_tomb(v.0);
        A::lemma_image(v.0);
        A::lemma_embalm(A::spec_image(v.0));
        assert(image.take(mid) =~= A::spec_image(v.0));
        assert(image.skip(mid) =~= B::spec_image(v.1));
        assert(embalmed.take(mid) =~= A::spec_embalm(A::spec_image(v.0)));
        assert(embalmed.skip(mid) =~= B::spec_embalm(B::spec_image(v.1)));
        if k < 0 || k >= Self::spec_tomb(v).len() {
        } else if k < first.len() {
            assert(Self::spec_tomb(v).take(k) =~= first.take(k));
            A::lemma_exhume_truncated(v.0, k);
        } else {
            let after = B::spec_tomb(v.1).take(k - first.len());
            assert(Self::spec_tomb(v).take(k) =~= first + after);
            A::lemma_exhume_entombed(v.0, after);
            B::lemma_exhume_truncated(v.1, k - first.len());
        }
    }

    fn size() -> (n: usize) {
        A::size() + B::size()
    }

    fn write_image(&self, bytes: &mut Vec<u8>) {
        self.0.write_image(bytes);
        self.1.write_image(bytes);
        assert(bytes@ =~= old(bytes)@ + Self::spec_image(self.deep_view()));
    }

    fn read_image(image: &[u8]) -> (v: Self) {
        let (first, second) = image.split_at(A::size());
        assert(first@ =~= image@.take(A::spec_size() as int));
        assert(second@ =~= image@.skip(A::spec_size() as int));
        (A::read_image(first), B::read_image(second))
    }

    fn entomb(&self, bytes: &mut Vec<u8>) {
        self.0.entomb(bytes);
        self.1.entomb(bytes);
        assert(bytes@ =~= old(bytes)@ + Self::spec_tomb(self.deep_view()));
    }

    fn embalm(bytes: &mut Vec<u8>, at: usize) {
        let len = bytes.len();
        let mid = A::size();
        let ghost image = bytes@.subrange(at as int, at + Self::spec_size());
        proof {
            A::lemma_embalm(image.take(mid as int));
            B::lemma_embalm(image.skip(mid as int));
            assert(bytes@.subrange(at as int, at + mid) =~= image.take(mid as int));
        }
        A::embalm(bytes, at);
        assert(bytes@.subrange(at + mid, at + mid + B::spec_size()) =~= image.skip(mid as int));
        B::embalm(bytes, at + mid);
        assert(bytes@ =~= splice(old(bytes)@, at as int, Self::spec_embalm(image)));
    }

    fn exhume<'a>(image: &[u8], bytes: &'a [u8]) -> (r: Result<(Self, &'a [u8]), &'a [u8]>) {
        let (first, second) = image.split_at(A::size());
        assert(first@ =~= image@.take(A::spec_size() as int));
        assert(second@ =~= image@.skip(A::spec_size() as int));
        match A::exhume(first, bytes) {
            Err(rest) => Err(rest),
            Ok((a, rest)) => match B::exhume(second, rest) {
                Err(rest) => Err(rest),
                Ok((b, rest)) => Ok(((a, b), rest)),
            },
        }
    }
}

} // verus!
