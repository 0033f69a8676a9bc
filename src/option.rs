//! Optional values. Where the wrapped type has a static size, an absent value
//! is written as that many zero bytes and a present one as itself, with no
//! tag: the zero pattern is the sentinel for "absent". Otherwise an absent
//! value is written as one zero byte, and a present one as itself.
use vstd::prelude::*;
use crate::traits::{
    lemma_wrote_nothing, CursorError, DataSize, ReadError, Readable, RoundTrip, StaticDataSize,
    WriteError, Writable,
};
use crate::wire::{advance, all_zero, put_bytes, put_u8, zeros};

verus! {

impl<T: DataSize> DataSize for Option<T> {
    open spec fn spec_static_size() -> Option<nat> {
        T::spec_static_size()
    }

    open spec fn spec_data_size(&self) -> nat {
        match T::spec_static_size() {
            Some(n) => n,
            None => match self {
                None => 1,
                Some(v) => v.spec_data_size(),
            },
        }
    }

    proof fn lemma_static_size(&self) {
    }

    fn fixed_data_size() -> (r: Option<usize>) {
        T::fixed_data_size()
    }

    open spec fn spec_is_fieldless() -> bool {
        false
    }

    fn is_fieldless() -> (r: bool) {
        false
    }

    fn has_static_size() -> (r: bool) {
        T::has_static_size()
    }

    fn data_size(&self) -> (r: usize) {
        match T::fixed_data_size() {
            Some(n) => n,
            None => match self {
                None => 1,
                Some(v) => v.data_size(),
            },
        }
    }
}

impl<T: StaticDataSize> StaticDataSize for Option<T> {
    proof fn lemma_is_static() {
        T::lemma_is_static();
    }

    fn static_data_size() -> (r: usize) {
        T::static_data_size()
    }
}

/// The static size of `T`, where it has one.
pub open spec fn static_size_of<T: DataSize>() -> nat {
    T::spec_static_size()->Some_0
}

impl<T: Writable> Writable for Option<T> {
    open spec fn spec_bytes(&self) -> Seq<u8> {
        match self {
            Some(v) => v.spec_bytes(),
            None => match T::spec_static_size() {
                Some(n) => zeros(n),
                None => seq![0u8],
            },
        }
    }

    proof fn lemma_bytes_len(&self) {
        if let Some(v) = self {
            v.lemma_static_size();
            v.lemma_bytes_len();
        }
    }

    fn write_to(&self, writer: &mut Vec<u8>) -> (r: Result<(), WriteError>) {
        proof {
            self.lemma_bytes_len();
        }
        match self {
            Some(v) => v.write_to(writer),
            None => {
                proof {
                    lemma_wrote_nothing(writer@, self.spec_bytes());
                }
                if !T::has_static_size() {
                    if writer.len() >= isize::MAX as usize {
                        return Err(WriteError::Other(CursorError::Full));
                    }
                    put_u8(writer, 0);
                    proof {
                        reveal_with_fuel(crate::wire::be_bytes, 2);
                        assert(writer@ =~= old(writer)@ + seq![0u8]);
                    }
                    return Ok(());
                }
                let n = match T::fixed_data_size() {
                    Some(n) => n,
                    None => {
                        return Err(WriteError::Other(CursorError::Full));
                    },
                };
                if writer.len() > isize::MAX as usize || n > isize::MAX as usize - writer.len() {
                    return Err(WriteError::Other(CursorError::Full));
                }
                put_bytes(writer, 0, n);
                proof {
                    assert(Seq::new(n as nat, |i: int| 0u8) =~= zeros(n as nat));
                }
                Ok(())
            },
        }
    }
}

impl<T: Readable + StaticDataSize> Readable for Option<T> {
    open spec fn spec_read(bytes: Seq<u8>) -> (Result<Self, ReadError>, nat) {
        let n = static_size_of::<T>();
        if bytes.len() < n {
            (Err(ReadError::Other(CursorError::Exhausted)), 0)
        } else if all_zero(bytes.take(n as int)) {
            (Ok(None), n)
        } else {
            match T::spec_read(bytes) {
                (Ok(v), k) => (Ok(Some(v)), k),
                (Err(e), k) => (Err(e), k),
            }
        }
    }

    proof fn lemma_read_len(bytes: Seq<u8>) {
        T::lemma_read_len(bytes);
    }

    fn read_from(reader: &mut &[u8]) -> (r: Result<Self, ReadError>) {
        proof {
            T::lemma_is_static();
            assert((*reader)@.skip(0) =~= (*reader)@);
        }
        let len = reader.len();
        let n = match T::fixed_data_size() {
            Some(n) => n,
            None => {
                return Err(ReadError::Other(CursorError::Exhausted));
            },
        };
        if reader.len() < n {
            return Err(ReadError::Other(CursorError::Exhausted));
        }
        let mut zero = true;
        let mut i: usize = 0;
        while i < n
            invariant
                0 <= i <= n,
                n <= (*reader)@.len(),
                zero <==> forall|j: int| 0 <= j < i ==> (*reader)@[j] == 0,
            decreases n - i,
        {
            if reader[i] != 0 {
                zero = false;
            }
            i = i + 1;
        }
        proof {
            let t = (*reader)@.take(n as int);
            assert(zero <==> all_zero(t)) by {
                if zero {
                    assert forall|j: int| 0 <= j < t.len() implies t[j] == 0 by {
                        assert(t[j] == (*reader)@[j]);
                    }
                }
                if all_zero(t) {
                    assert forall|j: int| 0 <= j < n implies (*reader)@[j] == 0 by {
                        assert(t[j] == (*reader)@[j]);
                    }
                }
            }
        }
        if zero {
            advance(reader, n);
            Ok(None)
        } else {
            match T::read_from(reader) {
                Ok(v) => Ok(Some(v)),
                Err(e) => Err(e),
            }
        }
    }
}

/// A present value is read back only where its bytes are not all zero: the
/// zero pattern stands for an absent value.
impl<T: RoundTrip + StaticDataSize> RoundTrip for Option<T> {
    open spec fn spec_valid(&self) -> bool {
        match self {
            None => true,
            Some(v) => v.spec_valid() && !all_zero(v.spec_bytes()),
        }
    }

    proof fn lemma_read_size(bytes: Seq<u8>) {
        T::lemma_is_static();
        T::lemma_read_size(bytes);
        if let (Ok(v), k) = T::spec_read(bytes) {
            v.lemma_static_size();
        }
    }

    proof fn lemma_round_trip(&self, rest: Seq<u8>) {
        T::lemma_is_static();
        self.lemma_bytes_len();
        let n = static_size_of::<T>();
        let b = self.spec_bytes();
        assert((b + rest).take(n as int) =~= b);
        if let Some(v) = self {
            v.lemma_round_trip(rest);
        }
    }
}

} // verus!
