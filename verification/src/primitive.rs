//! The protocol for numbers and booleans: the image is the value, in
//! little-endian order, and nothing is owned beyond it.

use crate::words::{push_all, splice};
use crate::Abomonation;
use vstd::bytes::*;
use vstd::prelude::*;

verus! {

impl Abomonation for u8 {
    open spec fn spec_size() -> nat {
        1
    }

    open spec fn spec_fits() -> bool {
        true
    }

    open spec fn spec_valid(v: u8) -> bool {
        true
    }

    open spec fn spec_plain() -> bool {
        true
    }

    open spec fn spec_supported() -> bool {
        true
    }

    open spec fn spec_image(v: u8) -> Seq<u8> {
        seq![v]
    }

    open spec fn spec_read(image: Seq<u8>) -> u8 {
        image[0]
    }

    proof fn lemma_size() {
    }

    proof fn lemma_image(v: u8) {
    }

    proof fn lemma_embalm(image: Seq<u8>) {
    }

    proof fn lemma_plain(v: u8) {
    }

    proof fn lemma_exhume_entombed(v: u8, rest: Seq<u8>) {
        Self::lemma_plain(v);
        assert(Self::spec_tomb(v) + rest =~= rest);
    }

    proof fn lemma_exhume_truncated(v: u8, k: int) {
    }

    fn size() -> (n: usize) {
        1
    }

    fn write_image(&self, bytes: &mut Vec<u8>) {
        bytes.push(*self);
        assert(bytes@ =~= old(bytes)@ + Self::spec_image(*self));
    }

    fn read_image(image: &[u8]) -> (v: Self) {
        image[0]
    }

    fn entomb(&self, bytes: &mut Vec<u8>) {
        assert(bytes@ =~= old(bytes)@ + Self::spec_tomb(*self));
    }

    fn embalm(bytes: &mut Vec<u8>, at: usize) {
        assert(bytes@ =~= splice(old(bytes)@, at as int, old(bytes)@.subrange(at as int, at + 1)));
    }

    fn exhume<'a>(image: &[u8], bytes: &'a [u8]) -> (r: Result<(Self, &'a [u8]), &'a [u8]>) {
        Ok((Self::read_image(image), bytes))
    }
}

impl Abomonation for u16 {
    open spec fn spec_size() -> nat {
        2
    }

    open spec fn spec_fits() -> bool {
        true
    }

    open spec fn spec_valid(v: u16) -> bool {
        true
    }

    open spec fn spec_plain() -> bool {
        true
    }

    open spec fn spec_supported() -> bool {
        true
    }

    open spec fn spec_image(v: u16) -> Seq<u8> {
        spec_u16_to_le_bytes(v)
    }

    open spec fn spec_read(image: Seq<u8>) -> u16 {
        spec_u16_from_le_bytes(image)
    }

    proof fn lemma_size() {
    }

    proof fn lemma_image(v: u16) {
        lemma_auto_spec_u16_to_from_le_bytes();
    }

    proof fn lemma_embalm(image: Seq<u8>) {
    }

    proof fn lemma_plain(v: u16) {
        lemma_auto_spec_u16_to_from_le_bytes();
        assert(spec_u16_to_le_bytes(v).len() == 2);
    }

    proof fn lemma_exhume_entombed(v: u16, rest: Seq<u8>) {
        Self::lemma_plain(v);
        assert(Self::spec_tomb(v) + rest =~= rest);
    }

    proof fn lemma_exhume_truncated(v: u16, k: int) {
    }

    fn size() -> (n: usize) {
        2
    }

    fn write_image(&self, bytes: &mut Vec<u8>) {
        let image = u16_to_le_bytes(*self);
        push_all(bytes, image.as_slice());
    }

    fn read_image(image: &[u8]) -> (v: Self) {
        u16_from_le_bytes(image)
    }

    fn entomb(&self, bytes: &mut Vec<u8>) {
        assert(bytes@ =~= old(bytes)@ + Self::spec_tomb(*self));
    }

    fn embalm(bytes: &mut Vec<u8>, at: usize) {
        assert(bytes@ =~= splice(old(bytes)@, at as int, old(bytes)@.subrange(at as int, at + 2)));
    }

    fn exhume<'a>(image: &[u8], bytes: &'a [u8]) -> (r: Result<(Self, &'a [u8]), &'a [u8]>) {
        Ok((Self::read_image(image), bytes))
    }
}

impl Abomonation for u32 {
    open spec fn spec_size() -> nat {
        4
    }

    open spec fn spec_fits() -> bool {
        true
    }

    open spec fn spec_valid(v: u32) -> bool {
        true
    }

    open spec fn spec_plain() -> bool {
        true
    }

    open spec fn spec_supported() -> bool {
        true
    }

    open spec fn spec_image(v: u32) -> Seq<u8> {
        spec_u32_to_le_bytes(v)
    }

    open spec fn spec_read(image: Seq<u8>) -> u32 {
        spec_u32_from_le_bytes(image)
    }

    proof fn lemma_size() {
    }

    proof fn lemma_image(v: u32) {
        lemma_auto_spec_u32_to_from_le_bytes();
    }

    proof fn lemma_embalm(image: Seq<u8>) {
    }

    proof fn lemma_plain(v: u32) {
        lemma_auto_spec_u32_to_from_le_bytes();
        assert(spec_u32_to_le_bytes(v).len() == 4);
    }

    proof fn lemma_exhume_entombed(v: u32, rest: Seq<u8>) {
        Self::lemma_plain(v);
        assert(Self::spec_tomb(v) + rest =~= rest);
    }

    proof fn lemma_exhume_truncated(v: u32, k: int) {
    }

    fn size() -> (n: usize) {
        4
    }

    fn write_image(&self, bytes: &mut Vec<u8>) {
        let image = u32_to_le_bytes(*self);
        push_all(bytes, image.as_slice());
    }

    fn read_image(image: &[u8]) -> (v: Self) {
        u32_from_le_bytes(image)
    }

    fn entomb(&self, bytes: &mut Vec<u8>) {
        assert(bytes@ =~= old(bytes)@ + Self::spec_tomb(*self));
    }

    fn embalm(bytes: &mut Vec<u8>, at: usize) {
        assert(bytes@ =~= splice(old(bytes)@, at as int, old(bytes)@.subrange(at as int, at + 4)));
    }

    fn exhume<'a>(image: &[u8], bytes: &'a [u8]) -> (r: Result<(Self, &'a [u8]), &'a [u8]>) {
        Ok((Self::read_image(image), bytes))
    }
}

impl Abomonation for u64 {
    open spec fn spec_size() -> nat {
        8
    }

    open spec fn spec_fits() -> bool {
        true
    }

    open spec fn spec_valid(v: u64) -> bool {
        true
    }

    open spec fn spec_plain() -> bool {
        true
    }

    open spec fn spec_supported() -> bool {
        true
    }

    open spec fn spec_image(v: u64) -> Seq<u8> {
        spec_u64_to_le_bytes(v)
    }

    open spec fn spec_read(image: Seq<u8>) -> u64 {
        spec_u64_from_le_bytes(image)
    }

    proof fn lemma_size() {
    }

    proof fn lemma_image(v: u64) {
        lemma_auto_spec_u64_to_from_le_bytes();
    }

    proof fn lemma_embalm(image: Seq<u8>) {
    }

    proof fn lemma_plain(v: u64) {
        lemma_auto_spec_u64_to_from_le_bytes();
        assert(spec_u64_to_le_bytes(v).len() == 8);
    }

    proof fn lemma_exhume_entombed(v: u64, rest: Seq<u8>) {
        Self::lemma_plain(v);
        assert(Self::spec_tomb(v) + rest =~= rest);
    }

    proof fn lemma_exhume_truncated(v: u64, k: int) {
    }

    fn size() -> (n: usize) {
        8
    }

    fn write_image(&self, bytes: &mut Vec<u8>) {
        let image = u64_to_le_bytes(*self);
        push_all(bytes, image.as_slice());
    }

    fn read_image(image: &[u8]) -> (v: Self) {
        u64_from_le_bytes(image)
    }

    fn entomb(&self, bytes: &mut Vec<u8>) {
        assert(bytes@ =~= old(bytes)@ + Self::spec_tomb(*self));
    }

    fn embalm(bytes: &mut Vec<u8>, at: usize) {
        assert(bytes@ =~= splice(old(bytes)@, at as int, old(bytes)@.subrange(at as int, at + 8)));
    }

    fn exhume<'a>(image: &[u8], bytes: &'a [u8]) -> (r: Result<(Self, &'a [u8]), &'a [u8]>) {
        Ok((Self::read_image(image), bytes))
    }
}

impl Abomonation for i8 {
    open spec fn spec_size() -> nat {
        1
    }

    open spec fn spec_fits() -> bool {
        true
    }

    open spec fn spec_valid(v: i8) -> bool {
        true
    }

    open spec fn spec_plain() -> bool {
        true
    }

    open spec fn spec_supported() -> bool {
        true
    }

    open spec fn spec_image(v: i8) -> Seq<u8> {
        seq![v as u8]
    }

    open spec fn spec_read(image: Seq<u8>) -> i8 {
        image[0] as i8
    }

    proof fn lemma_size() {
    }

    proof fn lemma_image(v: i8) {
    }

    proof fn lemma_embalm(image: Seq<u8>) {
    }

    proof fn lemma_plain(v: i8) {
        assert((v as u8) as i8 == v) by (bit_vector);
    }

    proof fn lemma_exhume_entombed(v: i8, rest: Seq<u8>) {
        Self::lemma_plain(v);
        assert(Self::spec_tomb(v) + rest =~= rest);
    }

    proof fn lemma_exhume_truncated(v: i8, k: int) {
    }

    fn size() -> (n: usize) {
        1
    }

    fn write_image(&self, bytes: &mut Vec<u8>) {
        bytes.push(*self as u8);
        assert(bytes@ =~= old(bytes)@ + Self::spec_image(*self));
    }

    fn read_image(image: &[u8]) -> (v: Self) {
        image[0] as i8
    }

    fn entomb(&self, bytes: &mut Vec<u8>) {
        assert(bytes@ =~= old(bytes)@ + Self::spec_tomb(*self));
    }

    fn embalm(bytes: &mut Vec<u8>, at: usize) {
        assert(bytes@ =~= splice(old(bytes)@, at as int, old(bytes)@.subrange(at as int, at + 1)));
    }

    fn exhume<'a>(image: &[u8], bytes: &'a [u8]) -> (r: Result<(Self, &'a [u8]), &'a [u8]>) {
        Ok((Self::read_image(image), bytes))
    }
}

impl Abomonation for i16 {
    open spec fn spec_size() -> nat {
        2
    }

    open spec fn spec_fits() -> bool {
        true
    }

    open spec fn spec_valid(v: i16) -> bool {
        true
    }

    open spec fn spec_plain() -> bool {
        true
    }

    open spec fn spec_supported() -> bool {
        true
    }

    open spec fn spec_image(v: i16) -> Seq<u8> {
        spec_u16_to_le_bytes(v as u16)
    }

    open spec fn spec_read(image: Seq<u8>) -> i16 {
        spec_u16_from_le_bytes(image) as i16
    }

    proof fn lemma_size() {
    }

    proof fn lemma_image(v: i16) {
        lemma_auto_spec_u16_to_from_le_bytes();
    }

    proof fn lemma_embalm(image: Seq<u8>) {
    }

    proof fn lemma_plain(v: i16) {
        lemma_auto_spec_u16_to_from_le_bytes();
        assert(spec_u16_to_le_bytes(v as u16).len() == 2);
        assert((v as u16) as i16 == v) by (bit_vector);
    }

    proof fn lemma_exhume_entombed(v: i16, rest: Seq<u8>) {
        Self::lemma_plain(v);
        assert(Self::spec_tomb(v) + rest =~= rest);
    }

    proof fn lemma_exhume_truncated(v: i16, k: int) {
    }

    fn size() -> (n: usize) {
        2
    }

    fn write_image(&self, bytes: &mut Vec<u8>) {
        let image = u16_to_le_bytes(*self as u16);
        push_all(bytes, image.as_slice());
    }

    fn read_image(image: &[u8]) -> (v: Self) {
        u16_from_le_bytes(image) as i16
    }

    fn entomb(&self, bytes: &mut Vec<u8>) {
        assert(bytes@ =~= old(bytes)@ + Self::spec_tomb(*self));
    }

    fn embalm(bytes: &mut Vec<u8>, at: usize) {
        assert(bytes@ =~= splice(old(bytes)@, at as int, old(bytes)@.subrange(at as int, at + 2)));
    }

    fn exhume<'a>(image: &[u8], bytes: &'a [u8]) -> (r: Result<(Self, &'a [u8]), &'a [u8]>) {
        Ok((Self::read_image(image), bytes))
    }
}

impl Abomonation for i32 {
    open spec fn spec_size() -> nat {
        4
    }

    open spec fn spec_fits() -> bool {
        true
    }

    open spec fn spec_valid(v: i32) -> bool {
        true
    }

    open spec fn spec_plain() -> bool {
        true
    }

    open spec fn spec_supported() -> bool {
        true
    }

    open spec fn spec_image(v: i32) -> Seq<u8> {
        spec_u32_to_le_bytes(v as u32)
    }

    open spec fn spec_read(image: Seq<u8>) -> i32 {
        spec_u32_from_le_bytes(image) as i32
    }

    proof fn lemma_size() {
    }

    proof fn lemma_image(v: i32) {
        lemma_auto_spec_u32_to_from_le_bytes();
    }

    proof fn lemma_embalm(image: Seq<u8>) {
    }

    proof fn lemma_plain(v: i32) {
        lemma_auto_spec_u32_to_from_le_bytes();
        assert(spec_u32_to_le_bytes(v as u32).len() == 4);
        assert((v as u32) as i32 == v) by (bit_vector);
    }

    proof fn lemma_exhume_entombed(v: i32, rest: Seq<u8>) {
        Self::lemma_plain(v);
        assert(Self::spec_tomb(v) + rest =~= rest);
    }

    proof fn lemma_exhume_truncated(v: i32, k: int) {
    }

    fn size() -> (n: usize) {
        4
    }

    fn write_image(&self, bytes: &mut Vec<u8>) {
        let image = u32_to_le_bytes(*self as u32);
        push_all(bytes, image.as_slice());
    }

    fn read_image(image: &[u8]) -> (v: Self) {
        u32_from_le_bytes(image) as i32
    }

    fn entomb(&self, bytes: &mut Vec<u8>) {
        assert(bytes@ =~= old(bytes)@ + Self::spec_tomb(*self));
    }

    fn embalm(bytes: &mut Vec<u8>, at: usize) {
        assert(bytes@ =~= splice(old(bytes)@, at as int, old(bytes)@.subrange(at as int, at + 4)));
    }

    fn exhume<'a>(image: &[u8], bytes: &'a [u8]) -> (r: Result<(Self, &'a [u8]), &'a [u8]>) {
        Ok((Self::read_image(image), bytes))
    }
}

impl Abomonation for i64 {
    open spec fn spec_size() -> nat {
        8
    }

    open spec fn spec_fits() -> bool {
        true
    }

    open spec fn spec_valid(v: i64) -> bool {
        true
    }

    open spec fn spec_plain() -> bool {
        true
    }

    open spec fn spec_supported() -> bool {
        true
    }

    open spec fn spec_image(v: i64) -> Seq<u8> {
        spec_u64_to_le_bytes(v as u64)
    }

    open spec fn spec_read(image: Seq<u8>) -> i64 {
        spec_u64_from_le_bytes(image) as i64
    }

    proof fn lemma_size() {
    }

    proof fn lemma_image(v: i64) {
        lemma_auto_spec_u64_to_from_le_bytes();
    }

    proof fn lemma_embalm(image: Seq<u8>) {
    }

    proof fn lemma_plain(v: i64) {
        lemma_auto_spec_u64_to_from_le_bytes();
        assert(spec_u64_to_le_bytes(v as u64).len() == 8);
        assert((v as u64) as i64 == v) by (bit_vector);
    }

    proof fn lemma_exhume_entombed(v: i64, rest: Seq<u8>) {
        Self::lemma_plain(v);
        assert(Self::spec_tomb(v) + rest =~= rest);
    }

    proof fn lemma_exhume_truncated(v: i64, k: int) {
    }

    fn size() -> (n: usize) {
        8
    }

    fn write_image(&self, bytes: &mut Vec<u8>) {
        let image = u64_to_le_bytes(*self as u64);
        push_all(bytes, image.as_slice());
    }

    fn read_image(image: &[u8]) -> (v: Self) {
        u64_from_le_bytes(image) as i64
    }

    fn entomb(&self, bytes: &mut Vec<u8>) {
        assert(bytes@ =~= old(bytes)@ + Self::spec_tomb(*self));
    }

    fn embalm(bytes: &mut Vec<u8>, at: usize) {
        assert(bytes@ =~= splice(old(bytes)@, at as int, old(bytes)@.subrange(at as int, at + 8)));
    }

    fn exhume<'a>(image: &[u8], bytes: &'a [u8]) -> (r: Result<(Self, &'a [u8]), &'a [u8]>) {
        Ok((Self::read_image(image), bytes))
    }
}

impl Abomonation for bool {
    open spec fn spec_size() -> nat {
        1
    }

    open spec fn spec_fits() -> bool {
        true
    }

    open spec fn spec_valid(v: bool) -> bool {
        true
    }

    open spec fn spec_plain() -> bool {
        true
    }

    open spec fn spec_supported() -> bool {
        true
    }

    open spec fn spec_image(v: bool) -> Seq<u8> {
        seq![if v { 1u8 } else { 0u8 }]
    }

    open spec fn spec_read(image: Seq<u8>) -> bool {
        image[0] != 0
    }

    proof fn lemma_size() {
    }

    proof fn lemma_image(v: bool) {
    }

    proof fn lemma_embalm(image: Seq<u8>) {
    }

    proof fn lemma_plain(v: bool) {
    }

    proof fn lemma_exhume_entombed(v: bool, rest: Seq<u8>) {
        Self::lemma_plain(v);
        assert(Self::spec_tomb(v) + rest =~= rest);
    }

    proof fn lemma_exhume_truncated(v: bool, k: int) {
    }

    fn size() -> (n: usize) {
        1
    }

    fn write_image(&self, bytes: &mut Vec<u8>) {
        bytes.push(if *self { 1u8 } else { 0u8 });
        assert(bytes@ =~= old(bytes)@ + Self::spec_image(*self));
    }

    fn read_image(image: &[u8]) -> (v: Self) {
        image[0] != 0
    }

    fn entomb(&self, bytes: &mut Vec<u8>) {
        assert(bytes@ =~= old(bytes)@ + Self::spec_tomb(*self));
    }

    fn embalm(bytes: &mut Vec<u8>, at: usize) {
        assert(bytes@ =~= splice(old(bytes)@, at as int, old(bytes)@.subrange(at as int, at + 1)));
    }

    fn exhume<'a>(image: &[u8], bytes: &'a [u8]) -> (r: Result<(Self, &'a [u8]), &'a [u8]>) {
        Ok((Self::read_image(image), bytes))
    }
}

} // verus!
