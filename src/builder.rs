//! Records as chains of fields: [`Nil`] ends a chain, and [`Val`] puts one
//! more field in front of a chain. A chain is written oldest field first, and
//! read back in the same order.
use vstd::prelude::*;
use crate::traits::{
    sink_limit, wrote_prefix, ContextualReadable, CursorError, DataSize, ReadError, Readable,
    RoundTrip, StaticDataSize, WriteError, Writable,
};

verus! {

/// The empty chain, which ends every chain of fields.
#[derive(Debug, Clone, Copy, PartialEq, Eq)]
pub struct Nil;

/// A chain of fields: `value` is the field added last, and `tail` holds every
/// field added before it.
#[derive(Debug, Clone, Copy, PartialEq, Eq)]
pub struct Val<Head, Tail> {
    pub value: Head,
    pub tail: Tail,
}

/// A node of a chain of fields, seen as its newest field and the rest.
pub trait RwInterface: Sized {
    /// The head is the type of the last value added.
    ///
    /// This is the type that created this [`RwInterface`] in particular.
    type Head;
    /// The tail is the type of all the other values added.
    type Tail;

    /// The last value added.
    spec fn spec_head(&self) -> Self::Head;

    /// Every value added other than the last one.
    spec fn spec_tail(&self) -> Self::Tail;

    /// Returns a reference to the last value added.
    fn head(&self) -> (r: &Self::Head)
        ensures
            *r == self.spec_head(),
    ;

    /// Returns a reference to the tail (i.e., every value added other than the
    /// one added most recently).
    fn tail(&self) -> (r: &Self::Tail)
        ensures
            *r == self.spec_tail(),
    ;

    /// Constructs `Self` from the given `tail` and `head`.
    fn new(tail: Self::Tail, head: Self::Head) -> (r: Self)
        ensures
            r.spec_head() == head,
            r.spec_tail() == tail,
    ;

    /// Consumes `self` and returns a tuple containing the head and tail.
    fn pop(self) -> (r: (Self::Head, Self::Tail))
        ensures
            r == (self.spec_head(), self.spec_tail()),
    ;

    /// Adds a `bool` field in front of `self`.
    fn bool(self, value: bool) -> (r: Val<bool, Self>)
        ensures
            r.value == value,
            r.tail == self,
    {
        Val { value, tail: self }
    }

    /// Adds a `char` field in front of `self`.
    fn char(self, value: char) -> (r: Val<char, Self>)
        ensures
            r.value == value,
            r.tail == self,
    {
        Val { value, tail: self }
    }

    /// Adds a `u8` field in front of `self`.
    fn u8(self, value: u8) -> (r: Val<u8, Self>)
        ensures
            r.value == value,
            r.tail == self,
    {
        Val { value, tail: self }
    }

    /// Adds a `u16` field in front of `self`.
    fn u16(self, value: u16) -> (r: Val<u16, Self>)
        ensures
            r.value == value,
            r.tail == self,
    {
        Val { value, tail: self }
    }

    /// Adds a `u32` field in front of `self`.
    fn u32(self, value: u32) -> (r: Val<u32, Self>)
        ensures
            r.value == value,
            r.tail == self,
    {
        Val { value, tail: self }
    }

    /// Adds a `u64` field in front of `self`.
    fn u64(self, value: u64) -> (r: Val<u64, Self>)
        ensures
            r.value == value,
            r.tail == self,
    {
        Val { value, tail: self }
    }

    /// Adds a `u128` field in front of `self`.
    fn u128(self, value: u128) -> (r: Val<u128, Self>)
        ensures
            r.value == value,
            r.tail == self,
    {
        Val { value, tail: self }
    }

    /// Adds an `i8` field in front of `self`.
    fn i8(self, value: i8) -> (r: Val<i8, Self>)
        ensures
            r.value == value,
            r.tail == self,
    {
        Val { value, tail: self }
    }

    /// Adds an `i16` field in front of `self`.
    fn i16(self, value: i16) -> (r: Val<i16, Self>)
        ensures
            r.value == value,
            r.tail == self,
    {
        Val { value, tail: self }
    }

    /// Adds an `i32` field in front of `self`.
    fn i32(self, value: i32) -> (r: Val<i32, Self>)
        ensures
            r.value == value,
            r.tail == self,
    {
        Val { value, tail: self }
    }

    /// Adds an `i64` field in front of `self`.
    fn i64(self, value: i64) -> (r: Val<i64, Self>)
        ensures
            r.value == value,
            r.tail == self,
    {
        Val { value, tail: self }
    }

    /// Adds an `i128` field in front of `self`.
    fn i128(self, value: i128) -> (r: Val<i128, Self>)
        ensures
            r.value == value,
            r.tail == self,
    {
        Val { value, tail: self }
    }
}

/// Values that can start a chain of fields, or be added in front of one.
pub trait ToRwInterface<Tail>: Sized {
    /// The chain that holds `self` in front of a `Tail`.
    type Output: RwInterface<Head = Self, Tail = Tail>;

    /// Creates a new [`RwInterface`] to encode `&self`.
    fn rw(&self) -> (r: Self::Output) where Self::Output: RwInterface<Head = Self, Tail = Nil>
        ensures
            r.spec_head() == *self,
            r.spec_tail() == Nil,
    ;

    /// Wraps the given `interface` with `&self`'s [`RwInterface`].
    fn to_rw(&self, interface: Tail) -> (r: Self::Output)
        ensures
            r.spec_head() == *self,
            r.spec_tail() == interface,
    ;
}

impl<Head, Tail> Val<Head, Tail> {
    /// Adds `value` in front of `self`.
    pub fn push<V>(self, value: V) -> (r: Val<V, Self>)
        ensures
            r.value == value,
            r.tail == self,
    {
        Val { value, tail: self }
    }
}

impl<Head, Tail> RwInterface for Val<Head, Tail> {
    type Head = Head;

    type Tail = Tail;

    open spec fn spec_head(&self) -> Head {
        self.value
    }

    open spec fn spec_tail(&self) -> Tail {
        self.tail
    }

    fn head(&self) -> (r: &Head) {
        &self.value
    }

    fn tail(&self) -> (r: &Tail) {
        &self.tail
    }

    fn new(tail: Tail, head: Head) -> (r: Self) {
        Val { value: head, tail }
    }

    fn pop(self) -> (r: (Head, Tail)) {
        (self.value, self.tail)
    }
}

impl<T: Copy, Tail> ToRwInterface<Tail> for T {
    type Output = Val<T, Tail>;

    fn rw(&self) -> (r: Val<T, Tail>) where Val<T, Tail>: RwInterface<Head = T, Tail = Nil> {
        <Val<T, Tail> as RwInterface>::new(Nil, *self)
    }

    fn to_rw(&self, interface: Tail) -> (r: Val<T, Tail>) {
        Val { value: *self, tail: interface }
    }
}

impl DataSize for Nil {
    open spec fn spec_static_size() -> Option<nat> {
        Some(0)
    }

    open spec fn spec_data_size(&self) -> nat {
        0
    }

    proof fn lemma_static_size(&self) {
    }

    fn fixed_data_size() -> (r: Option<usize>) {
        Some(0)
    }

    open spec fn spec_is_fieldless() -> bool {
        true
    }

    fn is_fieldless() -> (r: bool) {
        true
    }

    fn has_static_size() -> (r: bool) {
        true
    }

    fn data_size(&self) -> (r: usize) {
        0
    }
}

impl StaticDataSize for Nil {
    proof fn lemma_is_static() {
    }

    fn static_data_size() -> (r: usize) {
        0
    }
}

impl Writable for Nil {
    open spec fn spec_bytes(&self) -> Seq<u8> {
        Seq::empty()
    }

    proof fn lemma_bytes_len(&self) {
    }

    fn write_to(&self, writer: &mut Vec<u8>) -> (r: Result<(), WriteError>) {
        proof {
            assert(writer@ + Seq::<u8>::empty() =~= writer@);
            crate::traits::lemma_wrote_nothing(writer@, Seq::empty());
        }
        if writer.len() > isize::MAX as usize {
            return Err(WriteError::Other(CursorError::Full));
        }
        Ok(())
    }
}

impl Readable for Nil {
    open spec fn spec_read(bytes: Seq<u8>) -> (Result<Self, ReadError>, nat) {
        (Ok(Nil), 0)
    }

    proof fn lemma_read_len(bytes: Seq<u8>) {
    }

    fn read_from(reader: &mut &[u8]) -> (r: Result<Self, ReadError>) {
        proof {
            assert((*reader)@.skip(0) =~= (*reader)@);
        }
        Ok(Nil)
    }
}

impl RoundTrip for Nil {
    open spec fn spec_valid(&self) -> bool {
        true
    }

    proof fn lemma_read_size(bytes: Seq<u8>) {
    }

    proof fn lemma_round_trip(&self, rest: Seq<u8>) {
    }
}

/// The sum of two static sizes, where both are static.
pub open spec fn sum_static_size(a: Option<nat>, b: Option<nat>) -> Option<nat> {
    match (a, b) {
        (Some(x), Some(y)) => Some(x + y),
        _ => None,
    }
}

impl<Head: DataSize, Tail: DataSize> DataSize for Val<Head, Tail> {
    open spec fn spec_static_size() -> Option<nat> {
        sum_static_size(Tail::spec_static_size(), Head::spec_static_size())
    }

    open spec fn spec_data_size(&self) -> nat {
        self.tail.spec_data_size() + self.value.spec_data_size()
    }

    proof fn lemma_static_size(&self) {
        self.tail.lemma_static_size();
        self.value.lemma_static_size();
    }

    fn fixed_data_size() -> (r: Option<usize>) {
        match (Tail::fixed_data_size(), Head::fixed_data_size()) {
            (Some(a), Some(b)) => a.checked_add(b),
            _ => None,
        }
    }

    open spec fn spec_is_fieldless() -> bool {
        false
    }

    fn is_fieldless() -> (r: bool) {
        false
    }

    fn has_static_size() -> (r: bool) {
        Tail::has_static_size() && Head::has_static_size()
    }

    fn data_size(&self) -> (r: usize) {
        self.tail.data_size() + self.value.data_size()
    }
}

impl<Head: StaticDataSize, Tail: StaticDataSize> StaticDataSize for Val<Head, Tail> {
    proof fn lemma_is_static() {
        Head::lemma_is_static();
        Tail::lemma_is_static();
    }

    fn static_data_size() -> (r: usize) {
        proof {
            Head::lemma_is_static();
            Tail::lemma_is_static();
        }
        Tail::static_data_size() + Head::static_data_size()
    }
}

impl<Head: Writable, Tail: Writable> Writable for Val<Head, Tail> {
    open spec fn spec_bytes(&self) -> Seq<u8> {
        self.tail.spec_bytes() + self.value.spec_bytes()
    }

    proof fn lemma_bytes_len(&self) {
        self.tail.lemma_bytes_len();
        self.value.lemma_bytes_len();
    }

    fn write_to(&self, writer: &mut Vec<u8>) -> (r: Result<(), WriteError>) {
        let ghost before = writer@;
        let ghost t = self.tail.spec_bytes();
        let ghost h = self.value.spec_bytes();
        proof {
            assert(before + (t + h) =~= before + t + h);
        }
        match self.tail.write_to(writer) {
            Ok(()) => {},
            Err(e) => {
                proof {
                    assert((before + t).take(writer@.len() as int) =~= (before + (t + h)).take(
                        writer@.len() as int,
                    ));
                }
                return Err(e);
            },
        }
        let ghost middle = writer@;
        let r = self.value.write_to(writer);
        proof {
            if r is Err {
                assert((middle + h).take(writer@.len() as int) =~= (before + (t + h)).take(
                    writer@.len() as int,
                ));
            }
        }
        r
    }
}

impl<Head: Readable, Tail: Readable> Readable for Val<Head, Tail> {
    open spec fn spec_read(bytes: Seq<u8>) -> (Result<Self, ReadError>, nat) {
        let (tail, k) = Tail::spec_read(bytes);
        match tail {
            Err(e) => (Err(e), k),
            Ok(t) => {
                let (head, j) = Head::spec_read(bytes.skip(k as int));
                match head {
                    Err(e) => (Err(e), k + j),
                    Ok(h) => (Ok(Val { value: h, tail: t }), k + j),
                }
            },
        }
    }

    proof fn lemma_read_len(bytes: Seq<u8>) {
        Tail::lemma_read_len(bytes);
        let k = Tail::spec_read(bytes).1;
        Head::lemma_read_len(bytes.skip(k as int));
    }

    fn read_from(reader: &mut &[u8]) -> (r: Result<Self, ReadError>) {
        let ghost bytes = (*reader)@;
        proof {
            Tail::lemma_read_len(bytes);
        }
        let tail = match Tail::read_from(reader) {
            Ok(t) => t,
            Err(e) => {
                return Err(e);
            },
        };
        let ghost k = Tail::spec_read(bytes).1;
        proof {
            Head::lemma_read_len(bytes.skip(k as int));
        }
        let head = match Head::read_from(reader) {
            Ok(h) => h,
            Err(e) => {
                proof {
                    let j = Head::spec_read(bytes.skip(k as int)).1;
                    assert(bytes.skip(k as int).skip(j as int) =~= bytes.skip((k + j) as int));
                }
                return Err(e);
            },
        };
        proof {
            let j = Head::spec_read(bytes.skip(k as int)).1;
            assert(bytes.skip(k as int).skip(j as int) =~= bytes.skip((k + j) as int));
        }
        Ok(Val { value: head, tail })
    }
}

/// `result` with the value read, where there is one, cut down to its newest field.
pub open spec fn head_of<Head, Tail>(result: Result<Val<Head, Tail>, ReadError>) -> Result<
    Head,
    ReadError,
> {
    match result {
        Ok(v) => Ok(v.value),
        Err(e) => Err(e),
    }
}

/// Only the newest field of a chain may need context to be read: the older
/// fields are read plainly, then the newest with the context.
impl<Head: ContextualReadable, Tail: Readable> ContextualReadable for Val<Head, Tail> {
    type Context = Head::Context;

    open spec fn spec_read_with(
        bytes: Seq<u8>,
        context: Head::Context,
        result: Result<Self, ReadError>,
        consumed: nat,
    ) -> bool {
        let (tail, k) = Tail::spec_read(bytes);
        match tail {
            Err(e) => result == Err::<Self, ReadError>(e) && consumed == k,
            Ok(t) => {
                &&& k <= consumed
                &&& Head::spec_read_with(
                    bytes.skip(k as int),
                    context,
                    head_of(result),
                    (consumed - k) as nat,
                )
                &&& result is Ok ==> result->Ok_0.tail == t
            },
        }
    }

    fn read_with(reader: &mut &[u8], context: &Head::Context) -> (r: Result<Self, ReadError>) {
        let ghost bytes = (*reader)@;
        proof {
            Tail::lemma_read_len(bytes);
        }
        let tail = match Tail::read_from(reader) {
            Ok(t) => t,
            Err(e) => {
                return Err(e);
            },
        };
        let ghost k = Tail::spec_read(bytes).1;
        let ghost middle = (*reader)@;
        let head = Head::read_with(reader, context);
        proof {
            let j = (middle.len() - (*reader)@.len()) as nat;
            assert(bytes.skip(k as int).skip(j as int) =~= bytes.skip((k + j) as int));
            assert(bytes.len() - (*reader)@.len() == k + j);
        }
        match head {
            Ok(h) => Ok(Val { value: h, tail }),
            Err(e) => Err(e),
        }
    }
}

impl<Head: RoundTrip, Tail: RoundTrip> RoundTrip for Val<Head, Tail> {
    open spec fn spec_valid(&self) -> bool {
        self.tail.spec_valid() && self.value.spec_valid()
    }

    proof fn lemma_read_size(bytes: Seq<u8>) {
        Tail::lemma_read_size(bytes);
        let k = Tail::spec_read(bytes).1;
        Head::lemma_read_size(bytes.skip(k as int));
    }

    proof fn lemma_round_trip(&self, rest: Seq<u8>) {
        let t = self.tail.spec_bytes();
        let h = self.value.spec_bytes();
        let bytes = self.spec_bytes() + rest;
        assert(bytes =~= t + (h + rest));
        self.tail.lemma_round_trip(h + rest);
        assert(bytes.skip(t.len() as int) =~= h + rest);
        self.value.lemma_round_trip(rest);
    }
}

/// Serializes `&self` to bytes.
pub trait Serialize: Writable {
    /// Appends the bytes of `self` to `writer`, where they fit.
    fn write(&self, writer: &mut Vec<u8>) -> (r: Result<(), WriteError>)
        ensures
            r is Ok <==> old(writer)@.len() + self.spec_bytes().len() <= sink_limit(),
            r is Ok ==> final(writer)@ == old(writer)@ + self.spec_bytes(),
            r is Err ==> r == Err::<(), WriteError>(WriteError::Other(CursorError::Full))
                && wrote_prefix(old(writer)@, final(writer)@, self.spec_bytes()),
    ;
}

/// Deserializes `Self` from bytes.
pub trait Deserialize: Readable {
    /// Reads a value from the front of `reader`, and moves past the bytes taken.
    fn read(reader: &mut &[u8]) -> (r: Result<Self, ReadError>)
        ensures
            r == Self::spec_read(old(reader)@).0,
            final(reader)@ == old(reader)@.skip(Self::spec_read(old(reader)@).1 as int),
    ;
}

/// Deserializes `Self` with the given additional contextual information.
///
/// For example, this is used to deserialize lists of values: the length of the
/// list is given by the `context`, allowing the correct number of elements to
/// be read.
pub trait DeserializeWith<Context>: Sized {
    /// Whether reading from the front of `bytes` with `context` gives `result`
    /// and takes `consumed` bytes.
    spec fn spec_reads_as(
        bytes: Seq<u8>,
        context: Context,
        result: Result<Self, ReadError>,
        consumed: nat,
    ) -> bool;

    /// Reads a value from the front of `reader` with the help of `context`,
    /// and moves past the bytes taken.
    fn read_with(reader: &mut &[u8], context: Context) -> (r: Result<Self, ReadError>)
        ensures
            final(reader)@.len() <= old(reader)@.len(),
            final(reader)@ == old(reader)@.skip(old(reader)@.len() - final(reader)@.len()),
            Self::spec_reads_as(
                old(reader)@,
                context,
                r,
                (old(reader)@.len() - final(reader)@.len()) as nat,
            ),
    ;
}

impl<T: Writable> Serialize for T {
    fn write(&self, writer: &mut Vec<u8>) -> (r: Result<(), WriteError>) {
        self.write_to(writer)
    }
}

impl<T: Readable> Deserialize for T {
    fn read(reader: &mut &[u8]) -> (r: Result<T, ReadError>) {
        T::read_from(reader)
    }
}

impl<T: ContextualReadable> DeserializeWith<T::Context> for T {
    open spec fn spec_reads_as(
        bytes: Seq<u8>,
        context: T::Context,
        result: Result<T, ReadError>,
        consumed: nat,
    ) -> bool {
        T::spec_read_with(bytes, context, result, consumed)
    }

    fn read_with(reader: &mut &[u8], context: T::Context) -> (r: Result<T, ReadError>) {
        <T as ContextualReadable>::read_with(reader, &context)
    }
}

} // verus!
