//! Sequences: a `Vec` takes the bytes of its elements one after another, with
//! no length in front; reading one back needs the number of elements as
//! context. A string takes its UTF-8 bytes.
use vstd::prelude::*;
use vstd::utf8::encode_utf8;
use crate::traits::{
    lemma_wrote_nothing, wrote_prefix, ContextualReadable, CursorError, DataSize, ReadError,
    Readable, RoundTrip, WriteError, Writable, sink_limit,
};
use crate::wire::put_slice;

verus! {

/// The sum of the sizes of the elements of `s`.
pub open spec fn sum_sizes<T: DataSize>(s: Seq<T>) -> nat
    decreases s.len(),
{
    if s.len() == 0 {
        0
    } else {
        sum_sizes(s.drop_last()) + s.last().spec_data_size()
    }
}

/// The bytes of the elements of `s`, one after another.
pub open spec fn concat_bytes<T: Writable>(s: Seq<T>) -> Seq<u8>
    decreases s.len(),
{
    if s.len() == 0 {
        Seq::empty()
    } else {
        concat_bytes(s.drop_last()) + s.last().spec_bytes()
    }
}

/// What reading `count` values one after another from the front of `bytes`
/// gives, and how many bytes it takes.
pub open spec fn read_many<T: Readable>(bytes: Seq<u8>, count: nat) -> (
    Result<Seq<T>, ReadError>,
    nat,
)
    decreases count,
{
    if count == 0 {
        (Ok(Seq::empty()), 0)
    } else {
        let (prev, k) = read_many::<T>(bytes, (count - 1) as nat);
        match prev {
            Err(e) => (Err(e), k),
            Ok(s) => {
                let (x, j) = T::spec_read(bytes.skip(k as int));
                match x {
                    Err(e) => (Err(e), k + j),
                    Ok(v) => (Ok(s.push(v)), k + j),
                }
            },
        }
    }
}

pub proof fn lemma_sum_sizes_prefix<T: DataSize>(s: Seq<T>, i: int)
    requires
        0 <= i < s.len(),
    ensures
        sum_sizes(s.take(i + 1)) == sum_sizes(s.take(i)) + s[i].spec_data_size(),
        sum_sizes(s.take(i + 1)) <= sum_sizes(s),
        s[i].spec_data_size() <= sum_sizes(s),
    decreases s.len(),
{
    assert(s.take(i + 1).drop_last() =~= s.take(i));
    if i + 1 < s.len() {
        lemma_sum_sizes_prefix(s.drop_last(), i);
        assert(s.drop_last().take(i + 1) =~= s.take(i + 1));
        assert(s.drop_last().take(i) =~= s.take(i));
    } else {
        assert(s.take(i + 1) =~= s);
    }
}

pub proof fn lemma_concat_len<T: Writable>(s: Seq<T>)
    ensures
        concat_bytes(s).len() == sum_sizes(s),
    decreases s.len(),
{
    if s.len() > 0 {
        lemma_concat_len(s.drop_last());
        s.last().lemma_bytes_len();
    }
}

/// The bytes of a sequence start with the bytes of each of its prefixes.
pub proof fn lemma_concat_split<T: Writable>(s: Seq<T>, i: int)
    requires
        0 <= i <= s.len(),
    ensures
        concat_bytes(s) == concat_bytes(s.take(i)) + concat_bytes(s.skip(i)),
    decreases s.len(),
{
    if i == s.len() {
        assert(s.take(i) =~= s);
        assert(s.skip(i) =~= Seq::<T>::empty());
        assert(concat_bytes(s) + Seq::<u8>::empty() =~= concat_bytes(s));
    } else {
        let t = s.drop_last();
        lemma_concat_split(t, i);
        assert(t.take(i) =~= s.take(i));
        assert(s.skip(i).drop_last() =~= t.skip(i));
        assert(s.skip(i).last() == s.last());
        assert(concat_bytes(s.take(i)) + concat_bytes(t.skip(i)) + s.last().spec_bytes()
            =~= concat_bytes(s.take(i)) + (concat_bytes(t.skip(i)) + s.last().spec_bytes()));
    }
}

/// Once reading a run of values has failed, reading a longer run fails the same way.
pub proof fn lemma_read_many_err<T: Readable>(bytes: Seq<u8>, m: nat, count: nat)
    requires
        m <= count,
        read_many::<T>(bytes, m).0 is Err,
    ensures
        read_many::<T>(bytes, count) == read_many::<T>(bytes, m),
    decreases count,
{
    if count > m {
        lemma_read_many_err::<T>(bytes, m, (count - 1) as nat);
    }
}

impl<T: DataSize> DataSize for Vec<T> {
    open spec fn spec_static_size() -> Option<nat> {
        None
    }

    open spec fn spec_data_size(&self) -> nat {
        sum_sizes(self@)
    }

    proof fn lemma_static_size(&self) {
    }

    fn fixed_data_size() -> (r: Option<usize>) {
        None
    }

    open spec fn spec_is_fieldless() -> bool {
        false
    }

    fn is_fieldless() -> (r: bool) {
        false
    }

    fn has_static_size() -> (r: bool) {
        false
    }

    fn data_size(&self) -> (r: usize) {
        self.as_slice().data_size()
    }
}

impl<T: DataSize> DataSize for [T] {
    open spec fn spec_static_size() -> Option<nat> {
        None
    }

    open spec fn spec_data_size(&self) -> nat {
        sum_sizes(self@)
    }

    proof fn lemma_static_size(&self) {
    }

    fn fixed_data_size() -> (r: Option<usize>) {
        None
    }

    open spec fn spec_is_fieldless() -> bool {
        false
    }

    fn is_fieldless() -> (r: bool) {
        false
    }

    fn has_static_size() -> (r: bool) {
        false
    }

    fn data_size(&self) -> (r: usize) {
        let mut total: usize = 0;
        let mut i: usize = 0;
        while i < self.len()
            invariant
                0 <= i <= self@.len(),
                total as nat == sum_sizes(self@.take(i as int)),
                sum_sizes(self@) <= usize::MAX,
            decreases self@.len() - i,
        {
            proof {
                lemma_sum_sizes_prefix(self@, i as int);
            }
            total = total + self[i].data_size();
            i = i + 1;
        }
        proof {
            assert(self@.take(i as int) =~= self@);
        }
        total
    }
}

impl<T: Writable> Writable for Vec<T> {
    open spec fn spec_bytes(&self) -> Seq<u8> {
        concat_bytes(self@)
    }

    proof fn lemma_bytes_len(&self) {
        lemma_concat_len(self@);
    }

    fn write_to(&self, writer: &mut Vec<u8>) -> (r: Result<(), WriteError>) {
        let ghost before = writer@;
        let ghost all = concat_bytes(self@);
        let mut i: usize = 0;
        proof {
            assert(self@.take(0) =~= Seq::<T>::empty());
            assert(before + Seq::<u8>::empty() =~= before);
        }
        while i < self.len()
            invariant
                0 <= i <= self@.len(),
                all == concat_bytes(self@),
                before == old(writer)@,
                writer@ == before + concat_bytes(self@.take(i as int)),
            decreases self@.len() - i,
        {
            let ghost done = concat_bytes(self@.take(i as int));
            let ghost b = self@[i as int].spec_bytes();
            proof {
                assert(self@.take(i + 1).drop_last() =~= self@.take(i as int));
                lemma_concat_split(self@, i + 1);
                assert(concat_bytes(self@.take(i + 1)) == done + b);
                assert(before + (done + b) + concat_bytes(self@.skip(i + 1)) =~= before + all);
            }
            let ghost mid = writer@;
            proof {
                assert(mid == before + done);
            }
            match self[i].write_to(writer) {
                Ok(()) => {},
                Err(e) => {
                    proof {
                        let x = before + done + b;
                        let y = concat_bytes(self@.skip(i + 1));
                        assert(x + y =~= before + all);
                        assert(mid + b == x);
                        assert(x.len() > sink_limit());
                        assert((before + all).len() == x.len() + y.len());
                        assert(x.take(writer@.len() as int) =~= (x + y).take(writer@.len() as int));
                        assert(wrote_prefix(before, writer@, all));
                    }
                    return Err(e);
                },
            }
            proof {
                assert(before + done + b =~= before + (done + b));
            }
            i = i + 1;
        }
        proof {
            assert(self@.take(i as int) =~= self@);
        }
        if writer.len() > isize::MAX as usize {
            proof {
                assert((before + all).take(writer@.len() as int) =~= writer@);
            }
            return Err(WriteError::Other(CursorError::Full));
        }
        Ok(())
    }
}

/// A `Vec` is read as the number of elements that the context gives.
impl<T: Readable> ContextualReadable for Vec<T> {
    type Context = usize;

    open spec fn spec_read_with(
        bytes: Seq<u8>,
        context: usize,
        result: Result<Self, ReadError>,
        consumed: nat,
    ) -> bool {
        let (r, n) = read_many::<T>(bytes, context as nat);
        &&& consumed == n
        &&& match r {
            Ok(s) => result is Ok && result->Ok_0@ == s,
            Err(e) => result == Err::<Self, ReadError>(e),
        }
    }

    fn read_with(reader: &mut &[u8], context: &usize) -> (r: Result<Self, ReadError>) {
        let ghost bytes = (*reader)@;
        let count = *context;
        let mut out: Vec<T> = Vec::new();
        let mut i: usize = 0;
        proof {
            assert(bytes.skip(0) =~= bytes);
        }
        while i < count
            invariant
                0 <= i <= count,
                count == *context,
                bytes == old(reader)@,
                read_many::<T>(bytes, i as nat).0 is Ok,
                out@ == read_many::<T>(bytes, i as nat).0->Ok_0,
                read_many::<T>(bytes, i as nat).1 <= bytes.len(),
                (*reader)@ == bytes.skip(read_many::<T>(bytes, i as nat).1 as int),
            decreases count - i,
        {
            let ghost k = read_many::<T>(bytes, i as nat).1;
            proof {
                T::lemma_read_len(bytes.skip(k as int));
            }
            let ghost j = T::spec_read(bytes.skip(k as int)).1;
            proof {
                assert(bytes.skip(k as int).skip(j as int) =~= bytes.skip((k + j) as int));
            }
            match T::read_from(reader) {
                Ok(v) => {
                    out.push(v);
                },
                Err(e) => {
                    proof {
                        lemma_read_many_err::<T>(bytes, (i + 1) as nat, count as nat);
                    }
                    return Err(e);
                },
            }
            i = i + 1;
        }
        Ok(out)
    }
}

impl DataSize for str {
    open spec fn spec_static_size() -> Option<nat> {
        None
    }

    open spec fn spec_data_size(&self) -> nat {
        encode_utf8(self@).len()
    }

    proof fn lemma_static_size(&self) {
    }

    fn fixed_data_size() -> (r: Option<usize>) {
        None
    }

    open spec fn spec_is_fieldless() -> bool {
        false
    }

    fn is_fieldless() -> (r: bool) {
        false
    }

    fn has_static_size() -> (r: bool) {
        false
    }

    fn data_size(&self) -> (r: usize) {
        self.len()
    }
}

impl Writable for str {
    open spec fn spec_bytes(&self) -> Seq<u8> {
        encode_utf8(self@)
    }

    proof fn lemma_bytes_len(&self) {
    }

    fn write_to(&self, writer: &mut Vec<u8>) -> (r: Result<(), WriteError>) {
        let bytes = self.as_bytes();
        proof {
            lemma_wrote_nothing(writer@, bytes@);
        }
        if writer.len() > isize::MAX as usize || bytes.len() > isize::MAX as usize - writer.len() {
            return Err(WriteError::Other(CursorError::Full));
        }
        put_slice(writer, bytes);
        Ok(())
    }
}

impl DataSize for String {
    open spec fn spec_static_size() -> Option<nat> {
        None
    }

    open spec fn spec_data_size(&self) -> nat {
        encode_utf8(self@).len()
    }

    proof fn lemma_static_size(&self) {
    }

    fn fixed_data_size() -> (r: Option<usize>) {
        None
    }

    open spec fn spec_is_fieldless() -> bool {
        false
    }

    fn is_fieldless() -> (r: bool) {
        false
    }

    fn has_static_size() -> (r: bool) {
        false
    }

    fn data_size(&self) -> (r: usize) {
        self.as_str().len()
    }
}

impl Writable for String {
    open spec fn spec_bytes(&self) -> Seq<u8> {
        encode_utf8(self@)
    }

    proof fn lemma_bytes_len(&self) {
    }

    fn write_to(&self, writer: &mut Vec<u8>) -> (r: Result<(), WriteError>) {
        let bytes = self.as_str().as_bytes();
        proof {
            lemma_wrote_nothing(writer@, bytes@);
        }
        if writer.len() > isize::MAX as usize || bytes.len() > isize::MAX as usize - writer.len() {
            return Err(WriteError::Other(CursorError::Full));
        }
        put_slice(writer, bytes);
        Ok(())
    }
}

/// Reading a run of values takes exactly as many bytes as the sizes of the
/// values read add up to.
pub proof fn lemma_read_many_size<T: RoundTrip>(bytes: Seq<u8>, count: nat)
    ensures
        read_many::<T>(bytes, count).0 is Ok ==> read_many::<T>(bytes, count).1 == sum_sizes(
            read_many::<T>(bytes, count).0->Ok_0,
        ),
    decreases count,
{
    if count > 0 {
        lemma_read_many_size::<T>(bytes, (count - 1) as nat);
        let (prev, k) = read_many::<T>(bytes, (count - 1) as nat);
        T::lemma_read_size(bytes.skip(k as int));
        if let Ok(s) = prev {
            if let (Ok(v), j) = T::spec_read(bytes.skip(k as int)) {
                assert(s.push(v).drop_last() =~= s);
            }
        }
    }
}

/// Reading back the bytes of valid elements, followed by anything, with their
/// number as context, gives the elements and takes exactly their bytes.
pub proof fn lemma_vec_round_trip<T: RoundTrip>(s: Seq<T>, rest: Seq<u8>)
    requires
        forall|i: int| 0 <= i < s.len() ==> (#[trigger] s[i]).spec_valid(),
    ensures
        read_many::<T>(concat_bytes(s) + rest, s.len()) == (
        Ok::<Seq<T>, ReadError>(s),
        concat_bytes(s).len(),
        ),
    decreases s.len(),
{
    if s.len() == 0 {
        assert(s =~= Seq::<T>::empty());
    } else {
        let t = s.drop_last();
        let b = s.last().spec_bytes();
        assert forall|i: int| 0 <= i < t.len() implies (#[trigger] t[i]).spec_valid() by {
            assert(t[i] == s[i]);
        }
        lemma_vec_round_trip(t, b + rest);
        assert(concat_bytes(s) + rest =~= concat_bytes(t) + (b + rest));
        assert((concat_bytes(t) + (b + rest)).skip(concat_bytes(t).len() as int) =~= b + rest);
        assert(s[s.len() - 1].spec_valid());
        s.last().lemma_round_trip(rest);
        assert(t.push(s.last()) =~= s);
    }
}

} // verus!
