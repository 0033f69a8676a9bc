//! Sum types. A type of several variants is a right-nested [`Either`] whose
//! leaves are the variants, each being the chain of its fields ([`Nil`] for a
//! variant without fields). Its static size is the largest static size of its
//! variants; where it has none, a value takes the size of its active variant,
//! a variant without fields counting as its one-byte tag.
//!
//! [`Nil`]: crate::builder::Nil
use vstd::prelude::*;
use crate::traits::{
    lemma_wrote_nothing, CursorError, DataSize, ReadError, Readable, RoundTrip, StaticDataSize,
    WriteError, Writable,
};
use crate::wire::{be_bytes, be_value, get_u8, put_u8};

verus! {

/// A value of one of two shapes.
#[derive(Debug, Clone, Copy, PartialEq, Eq)]
pub enum Either<L, R> {
    Left(L),
    Right(R),
}

/// The larger of two static sizes, where both are static.
pub open spec fn max_static_size(a: Option<nat>, b: Option<nat>) -> Option<nat> {
    match (a, b) {
        (Some(x), Some(y)) => Some(if x >= y { x } else { y }),
        _ => None,
    }
}

/// The size of the active variant `v` of a sum whose size is not static: the
/// size of its fields, or one byte for its tag where it has no fields.
pub open spec fn variant_size<V: DataSize>(v: V) -> nat {
    if V::spec_is_fieldless() {
        1
    } else {
        v.spec_data_size()
    }
}

fn variant_data_size<V: DataSize>(v: &V) -> (r: usize)
    requires
        variant_size(*v) <= usize::MAX,
    ensures
        r as nat == variant_size(*v),
{
    if V::is_fieldless() {
        1
    } else {
        v.data_size()
    }
}

impl<L: DataSize, R: DataSize> DataSize for Either<L, R> {
    open spec fn spec_static_size() -> Option<nat> {
        max_static_size(L::spec_static_size(), R::spec_static_size())
    }

    open spec fn spec_data_size(&self) -> nat {
        match Self::spec_static_size() {
            Some(n) => n,
            None => match self {
                Either::Left(l) => variant_size(*l),
                Either::Right(r) => variant_size(*r),
            },
        }
    }

    proof fn lemma_static_size(&self) {
    }

    fn fixed_data_size() -> (r: Option<usize>) {
        match (L::fixed_data_size(), R::fixed_data_size()) {
            (Some(a), Some(b)) => Some(if a >= b { a } else { b }),
            _ => None,
        }
    }

    open spec fn spec_is_fieldless() -> bool {
        false
    }

    fn is_fieldless() -> (r: bool) {
        false
    }

    fn has_static_size() -> (r: bool) {
        L::has_static_size() && R::has_static_size()
    }

    fn data_size(&self) -> (r: usize) {
        match Self::fixed_data_size() {
            Some(n) => n,
            None => match self {
                Either::Left(l) => variant_data_size(l),
                Either::Right(r) => variant_data_size(r),
            },
        }
    }
}

impl<L: StaticDataSize, R: StaticDataSize> StaticDataSize for Either<L, R> {
    proof fn lemma_is_static() {
        L::lemma_is_static();
        R::lemma_is_static();
    }

    fn static_data_size() -> (r: usize) {
        proof {
            L::lemma_is_static();
            R::lemma_is_static();
        }
        let a = L::static_data_size();
        let b = R::static_data_size();
        if a >= b {
            a
        } else {
            b
        }
    }
}

/// What reading the one-byte tag of a type with `variants` variants from the
/// front of `bytes` gives, and how many bytes it takes.
pub open spec fn spec_read_discriminant(bytes: Seq<u8>, variants: u8) -> (Result<u8, ReadError>, nat) {
    if bytes.len() == 0 {
        (Err(ReadError::Other(CursorError::Exhausted)), 0)
    } else if bytes[0] < variants {
        (Ok(bytes[0]), 1)
    } else {
        (Err(ReadError::UnrecognizedDiscriminant(bytes[0])), 1)
    }
}

/// Reads the one-byte tag of a value of a type whose variants carry no data,
/// numbered from zero: a tag that names no variant is an error, and nothing
/// past the tag is taken.
pub fn read_discriminant(reader: &mut &[u8], variants: u8) -> (r: Result<u8, ReadError>)
    ensures
        r == spec_read_discriminant(old(reader)@, variants).0,
        final(reader)@ == old(reader)@.skip(spec_read_discriminant(old(reader)@, variants).1 as int),
{
    if reader.len() == 0 {
        proof {
            assert((*reader)@.skip(0) =~= (*reader)@);
        }
        return Err(ReadError::Other(CursorError::Exhausted));
    }
    let ghost first = (*reader)@[0];
    let tag = get_u8(reader);
    proof {
        assert(old(reader)@.take(1) =~= seq![first]);
        assert(be_value(seq![first]) == first) by {
            assert(seq![first].drop_last() =~= Seq::<u8>::empty());
        }
    }
    if tag < variants {
        Ok(tag)
    } else {
        Err(ReadError::UnrecognizedDiscriminant(tag))
    }
}

/// A value of a type whose `VARIANTS` variants carry no data: the index of
/// its variant, numbered from zero, written as a one-byte tag.
#[derive(Debug, Clone, Copy, PartialEq, Eq)]
pub struct Discriminant<const VARIANTS: u8> {
    pub index: u8,
}

impl<const VARIANTS: u8> DataSize for Discriminant<VARIANTS> {
    open spec fn spec_static_size() -> Option<nat> {
        Some(1)
    }

    open spec fn spec_data_size(&self) -> nat {
        1
    }

    proof fn lemma_static_size(&self) {
    }

    fn fixed_data_size() -> (r: Option<usize>) {
        Some(1)
    }

    open spec fn spec_is_fieldless() -> bool {
        false
    }

    fn is_fieldless() -> (r: bool) {
        false
    }

    fn has_static_size() -> (r: bool) {
        true
    }

    fn data_size(&self) -> (r: usize) {
        1
    }
}

impl<const VARIANTS: u8> StaticDataSize for Discriminant<VARIANTS> {
    proof fn lemma_is_static() {
    }

    fn static_data_size() -> (r: usize) {
        1
    }
}

impl<const VARIANTS: u8> Writable for Discriminant<VARIANTS> {
    open spec fn spec_bytes(&self) -> Seq<u8> {
        be_bytes(self.index as nat, 1)
    }

    proof fn lemma_bytes_len(&self) {
        reveal_with_fuel(be_bytes, 2);
    }

    fn write_to(&self, writer: &mut Vec<u8>) -> (r: Result<(), WriteError>) {
        proof {
            reveal_with_fuel(be_bytes, 2);
            lemma_wrote_nothing(writer@, self.spec_bytes());
        }
        if writer.len() >= isize::MAX as usize {
            return Err(WriteError::Other(CursorError::Full));
        }
        put_u8(writer, self.index);
        Ok(())
    }
}

impl<const VARIANTS: u8> Readable for Discriminant<VARIANTS> {
    open spec fn spec_read(bytes: Seq<u8>) -> (Result<Self, ReadError>, nat) {
        match spec_read_discriminant(bytes, VARIANTS) {
            (Ok(t), n) => (Ok(Discriminant { index: t }), n),
            (Err(e), n) => (Err(e), n),
        }
    }

    proof fn lemma_read_len(bytes: Seq<u8>) {
    }

    fn read_from(reader: &mut &[u8]) -> (r: Result<Self, ReadError>) {
        match read_discriminant(reader, VARIANTS) {
            Ok(index) => Ok(Discriminant { index }),
            Err(e) => Err(e),
        }
    }
}

/// A tag reads back as written where it names a variant.
impl<const VARIANTS: u8> RoundTrip for Discriminant<VARIANTS> {
    open spec fn spec_valid(&self) -> bool {
        self.index < VARIANTS
    }

    proof fn lemma_read_size(bytes: Seq<u8>) {
    }

    proof fn lemma_round_trip(&self, rest: Seq<u8>) {
        reveal_with_fuel(be_bytes, 2);
        let b = self.spec_bytes();
        assert((b + rest)[0] == self.index);
    }
}

} // verus!
