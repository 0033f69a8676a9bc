//! The four faces of a type that can be laid out as bytes: its size, how it
//! is written, how it is read, and how it is read with outside knowledge.
use vstd::prelude::*;

verus! {

/// What went wrong with the byte cursor itself.
#[derive(Debug, Clone, Copy, PartialEq, Eq, Structural)]
pub enum CursorError {
    /// Fewer bytes were left to read than the value needs.
    Exhausted,
    /// The sink has no room left for the bytes of the value.
    Full,
}

/// Why a value could not be read.
#[derive(Debug, Clone, Copy, PartialEq, Eq, Structural)]
pub enum ReadError {
    /// A tag byte named no variant of the type being read.
    UnrecognizedDiscriminant(u8),
    /// The cursor failed.
    Other(CursorError),
}

/// Why a value could not be written.
#[derive(Debug, Clone, Copy, PartialEq, Eq, Structural)]
pub enum WriteError {
    /// The sink failed.
    Other(CursorError),
}

/// The most bytes that a `Vec<u8>` sink can hold.
pub open spec fn sink_limit() -> nat {
    isize::MAX as nat
}

/// A write that failed part-way left in `after` what stood in `before`,
/// followed by a leading part of `bytes`.
pub open spec fn wrote_prefix(before: Seq<u8>, after: Seq<u8>, bytes: Seq<u8>) -> bool {
    &&& before.len() <= after.len() <= before.len() + bytes.len()
    &&& after == (before + bytes).take(after.len() as int)
}

/// A write that failed before it began left the sink as it was.
pub proof fn lemma_wrote_nothing(before: Seq<u8>, bytes: Seq<u8>)
    ensures
        wrote_prefix(before, before, bytes),
{
    assert(before =~= (before + bytes).take(before.len() as int));
}

/// A static size as a `usize`, where there is one and it fits.
pub open spec fn usize_size(size: Option<nat>) -> Option<usize> {
    match size {
        Some(n) => if n <= usize::MAX {
            Some(n as usize)
        } else {
            None
        },
        None => None,
    }
}

/// The number of bytes that a value takes when written with [`Writable`].
pub trait DataSize {
    /// The size that every value of the type takes, where it does not depend
    /// on the value.
    spec fn spec_static_size() -> Option<nat>;

    /// The size that `self` takes.
    spec fn spec_data_size(&self) -> nat;

    /// A type with a static size has that size in every value.
    proof fn lemma_static_size(&self)
        ensures
            Self::spec_static_size() is Some ==> self.spec_data_size()
                == Self::spec_static_size()->Some_0,
    ;

    /// The static size of the type, or `None` where the size depends on the
    /// value or does not fit in a `usize`.
    fn fixed_data_size() -> (r: Option<usize>)
        ensures
            r == usize_size(Self::spec_static_size()),
    ;

    /// Whether the type is the empty chain of fields, the shape of a variant
    /// that has no fields.
    spec fn spec_is_fieldless() -> bool;

    /// Returns whether the type is the empty chain of fields.
    fn is_fieldless() -> (r: bool)
        ensures
            r == Self::spec_is_fieldless(),
    ;

    /// Returns whether every value of the type takes the same size.
    fn has_static_size() -> (r: bool)
        ensures
            r == (Self::spec_static_size() is Some),
    ;

    /// Returns the size of `self` in bytes when written with [`Writable`].
    fn data_size(&self) -> (r: usize)
        requires
            self.spec_data_size() <= usize::MAX,
        ensures
            r as nat == self.spec_data_size(),
    ;
}

/// A type whose values all take the same number of bytes.
pub trait StaticDataSize: DataSize {
    /// The size is static.
    proof fn lemma_is_static()
        ensures
            Self::spec_static_size() is Some,
    ;

    /// Returns the size that every value of the type takes.
    fn static_data_size() -> (r: usize)
        requires
            Self::spec_static_size() is Some ==> Self::spec_static_size()->Some_0 <= usize::MAX,
        ensures
            Self::spec_static_size() == Some(r as nat),
    ;
}

/// Allows a type to be written as bytes.
pub trait Writable: DataSize {
    /// The bytes that `self` is written as.
    spec fn spec_bytes(&self) -> Seq<u8>;

    /// A value is written in exactly as many bytes as its size says.
    proof fn lemma_bytes_len(&self)
        ensures
            self.spec_bytes().len() == self.spec_data_size(),
    ;

    /// Appends the bytes of `self` to `writer`, where they fit.
    fn write_to(&self, writer: &mut Vec<u8>) -> (r: Result<(), WriteError>)
        ensures
            r is Ok <==> old(writer)@.len() + self.spec_bytes().len() <= sink_limit(),
            r is Ok ==> final(writer)@ == old(writer)@ + self.spec_bytes(),
            r is Err ==> r == Err::<(), WriteError>(WriteError::Other(CursorError::Full))
                && wrote_prefix(old(writer)@, final(writer)@, self.spec_bytes()),
    ;
}

/// Reads a type from bytes.
pub trait Readable: Sized {
    /// What reading from the front of `bytes` gives, and how many bytes it takes.
    spec fn spec_read(bytes: Seq<u8>) -> (Result<Self, ReadError>, nat);

    /// Reading takes no more bytes than there are.
    proof fn lemma_read_len(bytes: Seq<u8>)
        ensures
            Self::spec_read(bytes).1 <= bytes.len(),
    ;

    /// Reads a value from the front of `reader`, and moves past the bytes taken.
    fn read_from(reader: &mut &[u8]) -> (r: Result<Self, ReadError>)
        ensures
            r == Self::spec_read(old(reader)@).0,
            final(reader)@ == old(reader)@.skip(Self::spec_read(old(reader)@).1 as int),
    ;
}

/// Allows the reading of a type from bytes given some additional
/// [`Context`](Self::Context).
pub trait ContextualReadable: Sized {
    /// The type of context with which this type can be read from bytes.
    ///
    /// For example, this might be `usize` for some collection, where that
    /// `usize` context represents the length of the list with which to read.
    type Context;

    /// Whether reading from the front of `bytes` with `context` gives `result`
    /// and takes `consumed` bytes.
    spec fn spec_read_with(
        bytes: Seq<u8>,
        context: Self::Context,
        result: Result<Self, ReadError>,
        consumed: nat,
    ) -> bool;

    /// Reads a value from the front of `reader` with the help of `context`,
    /// and moves past the bytes taken.
    fn read_with(reader: &mut &[u8], context: &Self::Context) -> (r: Result<Self, ReadError>)
        ensures
            final(reader)@.len() <= old(reader)@.len(),
            final(reader)@ == old(reader)@.skip(old(reader)@.len() - final(reader)@.len()),
            Self::spec_read_with(
                old(reader)@,
                *context,
                r,
                (old(reader)@.len() - final(reader)@.len()) as nat,
            ),
    ;
}

/// A type whose values, where valid, are read back unchanged from the bytes
/// they are written as.
pub trait RoundTrip: Readable + Writable {
    /// Whether `self` is a value that its bytes stand for unambiguously.
    spec fn spec_valid(&self) -> bool;

    /// Reading the bytes of a valid value, followed by anything, gives the value
    /// and takes exactly its bytes.
    proof fn lemma_round_trip(&self, rest: Seq<u8>)
        requires
            self.spec_valid(),
        ensures
            Self::spec_read(self.spec_bytes() + rest) == (
            Ok::<Self, ReadError>(*self),
            self.spec_bytes().len(),
            ),
    ;

    /// Whatever the bytes, a value read from them takes exactly as many bytes
    /// as its size.
    proof fn lemma_read_size(bytes: Seq<u8>)
        ensures
            Self::spec_read(bytes).0 is Ok ==> Self::spec_read(bytes).1
                == Self::spec_read(bytes).0->Ok_0.spec_data_size(),
    ;
}

} // verus!
