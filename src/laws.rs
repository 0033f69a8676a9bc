//! The laws that hold across the codecs of every type.
use vstd::prelude::*;
use crate::builder::{Nil, Val};
use crate::traits::{DataSize, ReadError, Readable, RoundTrip, StaticDataSize, Writable};
use crate::option::static_size_of;
use crate::variant::{max_static_size, spec_read_discriminant, Discriminant, Either};
use crate::wire::{all_zero, lemma_be_zero, lemma_pow256_widths, zeros};

verus! {

/// Reading the bytes that a valid value is written as, followed by anything,
/// gives back the value and takes exactly those bytes.
pub proof fn lemma_read_after_write<T: RoundTrip>(v: T, rest: Seq<u8>)
    requires
        v.spec_valid(),
    ensures
        T::spec_read(v.spec_bytes() + rest) == (Ok::<T, ReadError>(v), v.spec_bytes().len()),
        T::spec_read(v.spec_bytes()) == (Ok::<T, ReadError>(v), v.spec_bytes().len()),
{
    v.lemma_round_trip(rest);
    v.lemma_round_trip(Seq::empty());
    assert(v.spec_bytes() + Seq::<u8>::empty() =~= v.spec_bytes());
}

/// Every value is written in exactly as many bytes as its data size.
pub proof fn lemma_written_len_is_data_size<T: Writable>(v: T)
    ensures
        v.spec_bytes().len() == v.spec_data_size(),
{
    v.lemma_bytes_len();
}

/// Every value of a type with a static size has that size as its data size, so
/// any two values have the same size.
pub proof fn lemma_static_is_dynamic<T: StaticDataSize>(a: T, b: T)
    ensures
        T::spec_static_size() == Some(a.spec_data_size()),
        a.spec_data_size() == b.spec_data_size(),
{
    T::lemma_is_static();
    a.lemma_static_size();
    b.lemma_static_size();
}

/// The static size of a sum of three variants is the largest of their static
/// sizes, whatever the order of the variants.
pub proof fn lemma_sum_static_size<A: StaticDataSize, B: StaticDataSize, C: StaticDataSize>()
    ensures
        Either::<A, Either<B, C>>::spec_static_size() == max_static_size(
            max_static_size(A::spec_static_size(), B::spec_static_size()),
            C::spec_static_size(),
        ),
        Either::<A, Either<B, C>>::spec_static_size() == Either::<
            C,
            Either<A, B>,
        >::spec_static_size(),
        Either::<A, Either<B, C>>::spec_static_size() == Either::<
            B,
            Either<C, A>,
        >::spec_static_size(),
        Either::<A, Either<B, C>>::spec_static_size() == Either::<
            C,
            Either<B, A>,
        >::spec_static_size(),
        Either::<A, Either<B, C>>::spec_static_size() == Either::<
            A,
            Either<C, B>,
        >::spec_static_size(),
        Either::<A, Either<B, C>>::spec_static_size() == Either::<
            B,
            Either<A, C>,
        >::spec_static_size(),
{
    A::lemma_is_static();
    B::lemma_is_static();
    C::lemma_is_static();
}

/// With the zero sentinel, an absent value is written as the static size of
/// the wrapped type in zero bytes, with no tag, and is read back as absent; a
/// present valid value whose bytes are not all zero is read back unchanged.
pub proof fn lemma_sentinel_option<T: RoundTrip + StaticDataSize>(v: Option<T>, rest: Seq<u8>)
    requires
        v is Some ==> v->Some_0.spec_valid() && !all_zero(v->Some_0.spec_bytes()),
    ensures
        v is None ==> v.spec_bytes() == zeros(static_size_of::<T>()),
        v.spec_bytes().len() == static_size_of::<T>(),
        Option::<T>::spec_read(v.spec_bytes() + rest) == (
        Ok::<Option<T>, ReadError>(v),
        static_size_of::<T>(),
        ),
{
    T::lemma_is_static();
    v.lemma_bytes_len();
    v.lemma_round_trip(rest);
}

/// A present `u64` is a valid sentinel-coded value exactly when it is not zero.
pub proof fn lemma_sentinel_u64(x: u64)
    ensures
        Some(x).spec_valid() <==> x != 0,
{
    lemma_pow256_widths();
    lemma_be_zero(x as nat, 8);
}

/// Fields pushed as `a`, then `b`, then `c` are written in that order, and
/// reading those bytes back gives a chain whose fields are `a`, `b` and `c`.
pub proof fn lemma_field_order<A: RoundTrip, B: RoundTrip, C: RoundTrip>(
    a: A,
    b: B,
    c: C,
    rest: Seq<u8>,
)
    requires
        a.spec_valid(),
        b.spec_valid(),
        c.spec_valid(),
    ensures
        (Val { value: c, tail: Val { value: b, tail: Val { value: a, tail: Nil } } }).spec_bytes()
            == a.spec_bytes() + b.spec_bytes() + c.spec_bytes(),
        ({
            let (r, n) = Val::<C, Val<B, Val<A, Nil>>>::spec_read(
                a.spec_bytes() + b.spec_bytes() + c.spec_bytes() + rest,
            );
            &&& r is Ok
            &&& r->Ok_0.value == c
            &&& r->Ok_0.tail.value == b
            &&& r->Ok_0.tail.tail.value == a
            &&& n == a.spec_bytes().len() + b.spec_bytes().len() + c.spec_bytes().len()
        }),
{
    let chain = Val { value: c, tail: Val { value: b, tail: Val { value: a, tail: Nil } } };
    assert(Seq::<u8>::empty() + a.spec_bytes() =~= a.spec_bytes());
    assert(chain.spec_bytes() =~= a.spec_bytes() + b.spec_bytes() + c.spec_bytes());
    chain.lemma_round_trip(rest);
}

/// Reading a tag that names no variant fails with that tag, and takes the tag
/// byte alone.
pub proof fn lemma_malformed_discriminant(bytes: Seq<u8>, variants: u8)
    requires
        bytes.len() > 0,
        bytes[0] >= variants,
    ensures
        spec_read_discriminant(bytes, variants) == (
        Err::<u8, ReadError>(ReadError::UnrecognizedDiscriminant(bytes[0])),
        1nat,
        ),
{
}

/// A record field that reads a tag fails on a tag that names no variant with
/// that tag as its error, and takes the tag byte alone: the bytes after it
/// stay unread.
pub proof fn lemma_malformed_discriminant_field<const VARIANTS: u8>(tag: u8, rest: Seq<u8>)
    requires
        tag >= VARIANTS,
    ensures
        Discriminant::<VARIANTS>::spec_read(seq![tag] + rest) == (
        Err::<Discriminant<VARIANTS>, ReadError>(ReadError::UnrecognizedDiscriminant(tag)),
        1nat,
        ),
        Val::<Discriminant<VARIANTS>, Nil>::spec_read(seq![tag] + rest) == (
        Err::<Val<Discriminant<VARIANTS>, Nil>, ReadError>(
            ReadError::UnrecognizedDiscriminant(tag),
        ),
        1nat,
        ),
        (seq![tag] + rest).skip(1) == rest,
{
    let bytes = seq![tag] + rest;
    assert(bytes[0] == tag);
    assert(bytes.skip(0) =~= bytes);
    assert(bytes.skip(1) =~= rest);
}

} // verus!
