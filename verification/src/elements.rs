//! The elements of a sequence: their images side by side, then their tombs
//! in the same order.

use crate::Abomonation;
use vstd::prelude::*;

verus! {

/// The images of `vs` as they are taken from the elements at rest, one
/// after the other.
pub open spec fn spec_raw_images<T: Abomonation>(vs: Seq<T::V>) -> Seq<u8>
    decreases vs.len(),
{
    if vs.len() == 0 {
        Seq::empty()
    } else {
        T::spec_image(vs.first()) + spec_raw_images::<T>(vs.drop_first())
    }
}

/// The embalmed images of `vs`, one after the other.
pub open spec fn spec_images<T: Abomonation>(vs: Seq<T::V>) -> Seq<u8>
    decreases vs.len(),
{
    if vs.len() == 0 {
        Seq::empty()
    } else {
        T::spec_embalm(T::spec_image(vs.first())) + spec_images::<T>(vs.drop_first())
    }
}

/// The tombs of `vs`, one after the other.
pub open spec fn spec_tombs<T: Abomonation>(vs: Seq<T::V>) -> Seq<u8>
    decreases vs.len(),
{
    if vs.len() == 0 {
        Seq::empty()
    } else {
        T::spec_tomb(vs.first()) + spec_tombs::<T>(vs.drop_first())
    }
}

/// What a sequence owns: the embalmed images of its elements, then their
/// tombs.
pub open spec fn spec_entomb_slice<T: Abomonation>(vs: Seq<T::V>) -> Seq<u8> {
    spec_images::<T>(vs) + spec_tombs::<T>(vs)
}

/// Whether `vs` models a sequence that can exist in memory.
pub open spec fn spec_all_valid<T: Abomonation>(vs: Seq<T::V>) -> bool {
    &&& vs.len() <= u64::MAX
    &&& forall|i: int| 0 <= i < vs.len() ==> T::spec_valid(#[trigger] vs[i])
}

/// A result of exhuming with `ws` put before its values.
pub open spec fn spec_prepend<V>(ws: Seq<V>, r: Result<(Seq<V>, Seq<u8>), Seq<u8>>) -> Result<
    (Seq<V>, Seq<u8>),
    Seq<u8>,
> {
    match r {
        Ok((vs, rest)) => Ok((ws + vs, rest)),
        Err(rest) => Err(rest),
    }
}

/// Exhumes `count` elements, whose images lie side by side in `images`, from
/// `bytes`, each from what the one before it left. The first failure is the
/// failure of the whole.
pub open spec fn spec_exhume_each<T: Abomonation>(
    images: Seq<u8>,
    count: nat,
    bytes: Seq<u8>,
) -> Result<(Seq<T::V>, Seq<u8>), Seq<u8>>
    decreases count,
{
    if count == 0 {
        Ok((Seq::empty(), bytes))
    } else {
        match T::spec_exhume(images.take(T::spec_size() as int), bytes) {
            Err(rest) => Err(rest),
            Ok((v, rest)) => spec_prepend(
                seq![v],
                spec_exhume_each::<T>(
                    images.skip(T::spec_size() as int),
                    (count - 1) as nat,
                    rest,
                ),
            ),
        }
    }
}

/// Exhumes a sequence of `count` elements from `bytes`: the images come
/// first and must all be there, then each element is exhumed in turn.
pub open spec fn spec_exhume_slice<T: Abomonation>(count: nat, bytes: Seq<u8>) -> Result<
    (Seq<T::V>, Seq<u8>),
    Seq<u8>,
> {
    let need = count * T::spec_size();
    if need > bytes.len() {
        Err(bytes)
    } else {
        spec_exhume_each::<T>(bytes.take(need as int), count, bytes.skip(need as int))
    }
}

/// The images at rest of a sequence with one more element at its end.
pub proof fn lemma_raw_images_push<T: Abomonation>(vs: Seq<T::V>, v: T::V)
    ensures
        spec_raw_images::<T>(vs.push(v)) == spec_raw_images::<T>(vs) + T::spec_image(v),
    decreases vs.len(),
{
    if vs.len() == 0 {
        assert(vs.push(v).drop_first() =~= vs);
        assert(spec_raw_images::<T>(vs.push(v)) =~= spec_raw_images::<T>(vs) + T::spec_image(v));
    } else {
        lemma_raw_images_push::<T>(vs.drop_first(), v);
        assert(vs.push(v).drop_first() =~= vs.drop_first().push(v));
        assert(spec_raw_images::<T>(vs.push(v)) =~= spec_raw_images::<T>(vs) + T::spec_image(v));
    }
}

/// The embalmed images of a sequence with one more element at its end.
pub proof fn lemma_images_push<T: Abomonation>(vs: Seq<T::V>, v: T::V)
    ensures
        spec_images::<T>(vs.push(v)) == spec_images::<T>(vs) + T::spec_embalm(T::spec_image(v)),
    decreases vs.len(),
{
    let image = T::spec_embalm(T::spec_image(v));
    if vs.len() == 0 {
        assert(vs.push(v).drop_first() =~= vs);
        assert(spec_images::<T>(vs.push(v)) =~= spec_images::<T>(vs) + image);
    } else {
        lemma_images_push::<T>(vs.drop_first(), v);
        assert(vs.push(v).drop_first() =~= vs.drop_first().push(v));
        assert(spec_images::<T>(vs.push(v)) =~= spec_images::<T>(vs) + image);
    }
}

/// The tombs of a sequence with one more element at its end.
pub proof fn lemma_tombs_push<T: Abomonation>(vs: Seq<T::V>, v: T::V)
    ensures
        spec_tombs::<T>(vs.push(v)) == spec_tombs::<T>(vs) + T::spec_tomb(v),
    decreases vs.len(),
{
    if vs.len() == 0 {
        assert(vs.push(v).drop_first() =~= vs);
        assert(spec_tombs::<T>(vs.push(v)) =~= spec_tombs::<T>(vs) + T::spec_tomb(v));
    } else {
        lemma_tombs_push::<T>(vs.drop_first(), v);
        assert(vs.push(v).drop_first() =~= vs.drop_first().push(v));
        assert(spec_tombs::<T>(vs.push(v)) =~= spec_tombs::<T>(vs) + T::spec_tomb(v));
    }
}

/// The images of `vs`, embalmed or not, take as many bytes as there are
/// elements times the size of one image.
pub proof fn lemma_images_len<T: Abomonation>(vs: Seq<T::V>)
    ensures
        spec_images::<T>(vs).len() == vs.len() * T::spec_size(),
        spec_raw_images::<T>(vs).len() == vs.len() * T::spec_size(),
    decreases vs.len(),
{
    if vs.len() > 0 {
        T::lemma_image(vs.first());
        T::lemma_embalm(T::spec_image(vs.first()));
        lemma_images_len::<T>(vs.drop_first());
        let n = vs.len() as int;
        let s = T::spec_size() as int;
        assert(s + (n - 1) * s == n * s) by (nonlinear_arith);
    }
}

/// Exhuming the embalmed images of `vs` from their tombs, whatever follows
/// the tombs, consumes exactly the tombs; for a supported type it gives `vs`
/// back.
pub proof fn lemma_exhume_each_entombed<T: Abomonation>(vs: Seq<T::V>, rest: Seq<u8>)
    requires
        spec_all_valid::<T>(vs),
    ensures
        spec_exhume_each::<T>(spec_images::<T>(vs), vs.len(), spec_tombs::<T>(vs) + rest)
            matches Ok((ws, r)) && r == rest && ws.len() == vs.len() && (T::spec_supported()
            ==> ws == vs),
    decreases vs.len(),
{
    if vs.len() > 0 {
        let s = T::spec_size() as int;
        let v = vs.first();
        let tail = vs.drop_first();
        let images = spec_images::<T>(vs);
        let after = spec_tombs::<T>(tail) + rest;
        T::lemma_image(v);
        T::lemma_embalm(T::spec_image(v));
        T::lemma_exhume_entombed(v, after);
        assert(images.take(s) =~= T::spec_embalm(T::spec_image(v)));
        assert(images.skip(s) =~= spec_images::<T>(tail));
        assert(spec_tombs::<T>(vs) + rest =~= T::spec_tomb(v) + after);
        lemma_exhume_each_entombed::<T>(tail, rest);
        let first = T::spec_exhume(images.take(s), spec_tombs::<T>(vs) + rest);
        let others = spec_exhume_each::<T>(images.skip(s), tail.len(), after);
        if T::spec_supported() {
            assert(seq![first->Ok_0.0] + others->Ok_0.0 =~= vs);
        }
    }
}

/// Exhuming the embalmed images of `vs` from less than all of their tombs
/// fails.
pub proof fn lemma_exhume_each_truncated<T: Abomonation>(vs: Seq<T::V>, k: int)
    requires
        spec_all_valid::<T>(vs),
        0 <= k < spec_tombs::<T>(vs).len(),
    ensures
        spec_exhume_each::<T>(spec_images::<T>(vs), vs.len(), spec_tombs::<T>(vs).take(k)) is Err,
    decreases vs.len(),
{
    let s = T::spec_size() as int;
    let v = vs.first();
    let tail = vs.drop_first();
    let images = spec_images::<T>(vs);
    let tomb = T::spec_tomb(v);
    T::lemma_image(v);
    T::lemma_embalm(T::spec_image(v));
    assert(images.take(s) =~= T::spec_embalm(T::spec_image(v)));
    assert(images.skip(s) =~= spec_images::<T>(tail));
    if k < tomb.len() {
        T::lemma_exhume_truncated(v, k);
        assert(spec_tombs::<T>(vs).take(k) =~= tomb.take(k));
    } else {
        let after = spec_tombs::<T>(tail).take(k - tomb.len());
        T::lemma_exhume_entombed(v, after);
        assert(spec_tombs::<T>(vs).take(k) =~= tomb + after);
        lemma_exhume_each_truncated::<T>(tail, k - tomb.len());
    }
}

/// Exhuming a sequence from what it owns, whatever follows, consumes exactly
/// that; for a supported type it gives the sequence back.
pub proof fn lemma_exhume_slice_entombed<T: Abomonation>(vs: Seq<T::V>, rest: Seq<u8>)
    requires
        spec_all_valid::<T>(vs),
    ensures
        spec_exhume_slice::<T>(vs.len(), spec_entomb_slice::<T>(vs) + rest) matches Ok((ws, r))
            && r == rest && ws.len() == vs.len() && (T::spec_supported() ==> ws == vs),
{
    let images = spec_images::<T>(vs);
    let bytes = spec_entomb_slice::<T>(vs) + rest;
    lemma_images_len::<T>(vs);
    lemma_exhume_each_entombed::<T>(vs, rest);
    assert(bytes.take(images.len() as int) =~= images);
    assert(bytes.skip(images.len() as int) =~= spec_tombs::<T>(vs) + rest);
}

/// Exhuming a sequence from less than all it owns fails.
pub proof fn lemma_exhume_slice_truncated<T: Abomonation>(vs: Seq<T::V>, k: int)
    requires
        spec_all_valid::<T>(vs),
        0 <= k < spec_entomb_slice::<T>(vs).len(),
    ensures
        spec_exhume_slice::<T>(vs.len(), spec_entomb_slice::<T>(vs).take(k)) is Err,
{
    let images = spec_images::<T>(vs);
    let bytes = spec_entomb_slice::<T>(vs).take(k);
    lemma_images_len::<T>(vs);
    if k >= images.len() {
        lemma_exhume_each_truncated::<T>(vs, k - images.len());
        assert(bytes.take(images.len() as int) =~= images);
        assert(bytes.skip(images.len() as int) =~= spec_tombs::<T>(vs).take(k - images.len()));
    }
}

/// Appends the images of the elements of `typed`, as they are at rest, to
/// `bytes`, one after the other.
pub fn typed_to_bytes<T: Abomonation>(typed: &[T], bytes: &mut Vec<u8>)
    requires
        T::spec_fits(),
    ensures
        final(bytes)@ == old(bytes)@ + spec_raw_images::<T>(typed.deep_view()),
{
    let ghost vs = typed.deep_view();
    let mut i: usize = 0;
    assert(bytes@ =~= old(bytes)@ + spec_raw_images::<T>(vs.take(0)));
    while i < typed.len()
        invariant
            i <= typed@.len(),
            T::spec_fits(),
            vs == typed.deep_view(),
            bytes@ == old(bytes)@ + spec_raw_images::<T>(vs.take(i as int)),
        decreases typed@.len() - i,
    {
        typed[i].write_image(bytes);
        proof {
            lemma_raw_images_push::<T>(vs.take(i as int), vs[i as int]);
            assert(vs.take(i + 1) =~= vs.take(i as int).push(vs[i as int]));
            assert(bytes@ =~= old(bytes)@ + spec_raw_images::<T>(vs.take(i + 1)));
        }
        i += 1;
    }
    assert(vs.take(i as int) =~= vs);
}

/// Appends what the sequence `typed` owns: the images of its elements, each
/// then embalmed where it lies, and after them the tomb of each element in
/// turn.
pub fn entomb_slice<T: Abomonation>(typed: &[T], bytes: &mut Vec<u8>)
    requires
        T::spec_fits(),
    ensures
        final(bytes)@ == old(bytes)@ + spec_entomb_slice::<T>(typed.deep_view()),
{
    let ghost vs = typed.deep_view();
    let start = bytes.len();
    typed_to_bytes(typed, bytes);
    let end = bytes.len();
    proof {
        lemma_images_len::<T>(vs);
        T::lemma_size();
        assert(vs.skip(0) =~= vs);
        assert(bytes@ =~= old(bytes)@ + spec_images::<T>(vs.take(0)) + spec_raw_images::<T>(
            vs.skip(0),
        ));
    }
    if typed.len() > 0 {
        assert(T::spec_size() <= vs.len() * T::spec_size()) by (nonlinear_arith)
            requires
                vs.len() > 0,
        ;
        let size = T::size();
        let mut i: usize = 0;
        while i < typed.len()
            invariant
                i <= typed@.len(),
                T::spec_fits(),
                size == T::spec_size(),
                vs == typed.deep_view(),
                start == old(bytes)@.len(),
                end == start + vs.len() * size,
                bytes@ == old(bytes)@ + spec_images::<T>(vs.take(i as int))
                    + spec_raw_images::<T>(vs.skip(i as int)),
            decreases typed@.len() - i,
        {
            let ghost done = spec_images::<T>(vs.take(i as int));
            let ghost image = T::spec_image(vs[i as int]);
            let ghost left = spec_raw_images::<T>(vs.skip(i + 1));
            proof {
                lemma_images_len::<T>(vs.take(i as int));
                lemma_images_len::<T>(vs.skip(i + 1));
                lemma_images_push::<T>(vs.take(i as int), vs[i as int]);
                T::lemma_image(vs[i as int]);
                T::lemma_embalm(image);
                assert(vs.skip(i as int).drop_first() =~= vs.skip(i + 1));
                assert(vs.take(i + 1) =~= vs.take(i as int).push(vs[i as int]));
                assert(i * size + size + (vs.len() - i - 1) * size == vs.len() * size)
                    by (nonlinear_arith);
                assert(0 <= i * size) by (nonlinear_arith);
                assert(0 <= (vs.len() - i - 1) * size) by (nonlinear_arith)
                    requires
                        i < vs.len(),
                ;
            }
            let at = start + i * size;
            assert(bytes@ =~= old(bytes)@ + done + image + left);
            assert(bytes@.subrange(at as int, at + size) =~= image);
            T::embalm(bytes, at);
            assert(bytes@ =~= old(bytes)@ + spec_images::<T>(vs.take(i + 1)) + left);
            i += 1;
        }
    }
    let ghost written = bytes@;
    let mut i: usize = 0;
    proof {
        assert(vs.take(vs.len() as int) =~= vs);
        assert(vs.skip(vs.len() as int) =~= Seq::<T::V>::empty());
        assert(written =~= old(bytes)@ + spec_images::<T>(vs));
        assert(bytes@ =~= written + spec_tombs::<T>(vs.take(0)));
    }
    while i < typed.len()
        invariant
            i <= typed@.len(),
            T::spec_fits(),
            vs == typed.deep_view(),
            written == old(bytes)@ + spec_images::<T>(vs),
            bytes@ == written + spec_tombs::<T>(vs.take(i as int)),
        decreases typed@.len() - i,
    {
        typed[i].entomb(bytes);
        proof {
            lemma_tombs_push::<T>(vs.take(i as int), vs[i as int]);
            assert(vs.take(i + 1) =~= vs.take(i as int).push(vs[i as int]));
            assert(bytes@ =~= written + spec_tombs::<T>(vs.take(i + 1)));
        }
        i += 1;
    }
    assert(vs.take(i as int) =~= vs);
    assert(bytes@ =~= old(bytes)@ + spec_entomb_slice::<T>(vs));
}

/// Exhumes a sequence of `count` elements from `bytes`: claims the images,
/// then lets each element claim what it owns from the bytes that the one
/// before it left. Fails where the bytes run out, with the bytes left there.
pub fn exhume_slice<'a, T: Abomonation>(count: u64, bytes: &'a [u8]) -> (r: Result<
    (Vec<T>, &'a [u8]),
    &'a [u8],
>)
    requires
        T::spec_fits(),
    ensures
        match r {
            Ok((vs, rest)) => spec_exhume_slice::<T>(count as nat, bytes@) == Ok::<
                (Seq<T::V>, Seq<u8>),
                Seq<u8>,
            >((vs.deep_view(), rest@)),
            Err(rest) => spec_exhume_slice::<T>(count as nat, bytes@) == Err::<
                (Seq<T::V>, Seq<u8>),
                Seq<u8>,
            >(rest@),
        },
{
    proof {
        T::lemma_size();
    }
    let size = T::size();
    let len = bytes.len();
    let need = match count.checked_mul(size as u64) {
        Some(need) => need,
        None => {
            return Err(bytes);
        },
    };
    if need > len as u64 {
        return Err(bytes);
    }
    assert(count <= need) by (nonlinear_arith)
        requires
            need == count * size,
            size > 0,
    ;
    let n = count as usize;
    let (images, tombs) = bytes.split_at(need as usize);
    assert(images@ =~= bytes@.take(need as int));
    assert(tombs@ =~= bytes@.skip(need as int));
    let mut out: Vec<T> = Vec::new();
    let mut rest: &'a [u8] = tombs;
    let mut i: usize = 0;
    assert(out.deep_view() =~= Seq::<T::V>::empty());
    assert(images@.skip(0) =~= images@);
    assert(spec_exhume_each::<T>(images@, n as nat, tombs@) =~~= spec_prepend(
        out.deep_view(),
        spec_exhume_each::<T>(images@, n as nat, tombs@),
    ));
    while i < n
        invariant
            i <= n,
            T::spec_fits(),
            size == T::spec_size(),
            size > 0,
            images@.len() == n * size,
            n * size <= usize::MAX,
            spec_exhume_slice::<T>(count as nat, bytes@) == spec_exhume_each::<T>(
                images@,
                n as nat,
                tombs@,
            ),
            spec_exhume_each::<T>(images@, n as nat, tombs@) == spec_prepend(
                out.deep_view(),
                spec_exhume_each::<T>(images@.skip(i * size), (n - i) as nat, rest@),
            ),
        decreases n - i,
    {
        proof {
            assert(i * size + size == (i + 1) * size) by (nonlinear_arith);
            assert((i + 1) * size <= n * size) by (nonlinear_arith)
                requires
                    i < n,
            ;
            assert(0 <= i * size) by (nonlinear_arith);
        }
        let image = &images[i * size..i * size + size];
        assert(image@ =~= images@.skip(i * size).take(size as int));
        assert(images@.skip(i * size).skip(size as int) =~= images@.skip((i + 1) * size));
        let ghost before = out.deep_view();
        match T::exhume(image, rest) {
            Err(left) => {
                return Err(left);
            },
            Ok((v, left)) => {
                out.push(v);
                rest = left;
                proof {
                    let next = spec_exhume_each::<T>(
                        images@.skip((i + 1) * size),
                        (n - i - 1) as nat,
                        left@,
                    );
                    assert(out.deep_view() =~= before.push(v.deep_view()));
                    if let Ok((vs, _)) = next {
                        assert(before + (seq![v.deep_view()] + vs) =~= out.deep_view() + vs);
                    }
                }
            },
        }
        i += 1;
    }
    assert(out.deep_view() + Seq::<T::V>::empty() =~= out.deep_view());
    Ok((out, rest))
}

} // verus!
