//! Sizes and codecs of the fixed-width primitives: integers are written
//! big-endian (two's complement where signed), and a boolean as one byte,
//! 0 or 1.
use vstd::prelude::*;
use crate::traits::{
    lemma_wrote_nothing, CursorError, DataSize, ReadError, Readable, RoundTrip, StaticDataSize,
    WriteError, Writable,
};
use crate::wire::{
    be_bytes, be_value, get_i128, get_i16, get_i32, get_i64, get_i8, get_u128, get_u16, get_u32,
    get_u64, get_u8, lemma_be_bytes_len, lemma_be_round_trip, lemma_be_value_bound,
    lemma_pow256_widths, lemma_signed_be_len, lemma_signed_be_round_trip,
    lemma_signed_be_value_bound, put_i128, put_i16, put_i32, put_i64, put_i8, put_u128, put_u16,
    put_u32, put_u64, put_u8, signed_be_bytes, signed_be_value,
};

verus! {

impl DataSize for u8 {
    open spec fn spec_static_size() -> Option<nat> {
        Some(1)
    }

    open spec fn spec_data_size(&self) -> nat {
        1
    }

    proof fn lemma_static_size(&self) {
    }

    fn fixed_data_size() -> (r: Option<usize>) {
        Some(1)
    }

    open spec fn spec_is_fieldless() -> bool {
        false
    }

    fn is_fieldless() -> (r: bool) {
        false
    }

    fn has_static_size() -> (r: bool) {
        true
    }

    fn data_size(&self) -> (r: usize) {
        1
    }
}

impl StaticDataSize for u8 {
    proof fn lemma_is_static() {
    }

    fn static_data_size() -> (r: usize) {
        1
    }
}

impl Writable for u8 {
    open spec fn spec_bytes(&self) -> Seq<u8> {
        be_bytes(*self as nat, 1)
    }

    proof fn lemma_bytes_len(&self) {
        lemma_be_bytes_len(*self as nat, 1);
    }

    fn write_to(&self, writer: &mut Vec<u8>) -> (r: Result<(), WriteError>) {
        proof {
            lemma_be_bytes_len(*self as nat, 1);
            lemma_wrote_nothing(writer@, self.spec_bytes());
        }
        if writer.len() > isize::MAX as usize - 1 {
            return Err(WriteError::Other(CursorError::Full));
        }
        put_u8(writer, *self);
        Ok(())
    }
}

impl Readable for u8 {
    open spec fn spec_read(bytes: Seq<u8>) -> (Result<Self, ReadError>, nat) {
        if bytes.len() < 1 {
            (Err(ReadError::Other(CursorError::Exhausted)), 0)
        } else {
            (Ok(be_value(bytes.take(1)) as u8), 1)
        }
    }

    proof fn lemma_read_len(bytes: Seq<u8>) {
    }

    fn read_from(reader: &mut &[u8]) -> (r: Result<Self, ReadError>) {
        if reader.len() < 1 {
            proof {
                assert((*reader)@.skip(0) =~= (*reader)@);
            }
            return Err(ReadError::Other(CursorError::Exhausted));
        }
        proof {
            lemma_pow256_widths();
            lemma_be_value_bound((*reader)@.take(1));
        }
        Ok(get_u8(reader))
    }
}

impl RoundTrip for u8 {
    open spec fn spec_valid(&self) -> bool {
        true
    }

    proof fn lemma_read_size(bytes: Seq<u8>) {
    }

    proof fn lemma_round_trip(&self, rest: Seq<u8>) {
        lemma_pow256_widths();
        lemma_be_round_trip(*self as nat, 1);
        let b = self.spec_bytes();
        assert((b + rest).take(1) =~= b);
    }
}

impl DataSize for u16 {
    open spec fn spec_static_size() -> Option<nat> {
        Some(2)
    }

    open spec fn spec_data_size(&self) -> nat {
        2
    }

    proof fn lemma_static_size(&self) {
    }

    fn fixed_data_size() -> (r: Option<usize>) {
        Some(2)
    }

    open spec fn spec_is_fieldless() -> bool {
        false
    }

    fn is_fieldless() -> (r: bool) {
        false
    }

    fn has_static_size() -> (r: bool) {
        true
    }

    fn data_size(&self) -> (r: usize) {
        2
    }
}

impl StaticDataSize for u16 {
    proof fn lemma_is_static() {
    }

    fn static_data_size() -> (r: usize) {
        2
    }
}

impl Writable for u16 {
    open spec fn spec_bytes(&self) -> Seq<u8> {
        be_bytes(*self as nat, 2)
    }

    proof fn lemma_bytes_len(&self) {
        lemma_be_bytes_len(*self as nat, 2);
    }

    fn write_to(&self, writer: &mut Vec<u8>) -> (r: Result<(), WriteError>) {
        proof {
            lemma_be_bytes_len(*self as nat, 2);
            lemma_wrote_nothing(writer@, self.spec_bytes());
        }
        if writer.len() > isize::MAX as usize - 2 {
            return Err(WriteError::Other(CursorError::Full));
        }
        put_u16(writer, *self);
        Ok(())
    }
}

impl Readable for u16 {
    open spec fn spec_read(bytes: Seq<u8>) -> (Result<Self, ReadError>, nat) {
        if bytes.len() < 2 {
            (Err(ReadError::Other(CursorError::Exhausted)), 0)
        } else {
            (Ok(be_value(bytes.take(2)) as u16), 2)
        }
    }

    proof fn lemma_read_len(bytes: Seq<u8>) {
    }

    fn read_from(reader: &mut &[u8]) -> (r: Result<Self, ReadError>) {
        if reader.len() < 2 {
            proof {
                assert((*reader)@.skip(0) =~= (*reader)@);
            }
            return Err(ReadError::Other(CursorError::Exhausted));
        }
        proof {
            lemma_pow256_widths();
            lemma_be_value_bound((*reader)@.take(2));
        }
        Ok(get_u16(reader))
    }
}

impl RoundTrip for u16 {
    open spec fn spec_valid(&self) -> bool {
        true
    }

    proof fn lemma_read_size(bytes: Seq<u8>) {
    }

    proof fn lemma_round_trip(&self, rest: Seq<u8>) {
        lemma_pow256_widths();
        lemma_be_round_trip(*self as nat, 2);
        let b = self.spec_bytes();
        assert((b + rest).take(2) =~= b);
    }
}

impl DataSize for u32 {
    open spec fn spec_static_size() -> Option<nat> {
        Some(4)
    }

    open spec fn spec_data_size(&self) -> nat {
        4
    }

    proof fn lemma_static_size(&self) {
    }

    fn fixed_data_size() -> (r: Option<usize>) {
        Some(4)
    }

    open spec fn spec_is_fieldless() -> bool {
        false
    }

    fn is_fieldless() -> (r: bool) {
        false
    }

    fn has_static_size() -> (r: bool) {
        true
    }

    fn data_size(&self) -> (r: usize) {
        4
    }
}

impl StaticDataSize for u32 {
    proof fn lemma_is_static() {
    }

    fn static_data_size() -> (r: usize) {
        4
    }
}

impl Writable for u32 {
    open spec fn spec_bytes(&self) -> Seq<u8> {
        be_bytes(*self as nat, 4)
    }

    proof fn lemma_bytes_len(&self) {
        lemma_be_bytes_len(*self as nat, 4);
    }

    fn write_to(&self, writer: &mut Vec<u8>) -> (r: Result<(), WriteError>) {
        proof {
            lemma_be_bytes_len(*self as nat, 4);
            lemma_wrote_nothing(writer@, self.spec_bytes());
        }
        if writer.len() > isize::MAX as usize - 4 {
            return Err(WriteError::Other(CursorError::Full));
        }
        put_u32(writer, *self);
        Ok(())
    }
}

impl Readable for u32 {
    open spec fn spec_read(bytes: Seq<u8>) -> (Result<Self, ReadError>, nat) {
        if bytes.len() < 4 {
            (Err(ReadError::Other(CursorError::Exhausted)), 0)
        } else {
            (Ok(be_value(bytes.take(4)) as u32), 4)
        }
    }

    proof fn lemma_read_len(bytes: Seq<u8>) {
    }

    fn read_from(reader: &mut &[u8]) -> (r: Result<Self, ReadError>) {
        if reader.len() < 4 {
            proof {
                assert((*reader)@.skip(0) =~= (*reader)@);
            }
            return Err(ReadError::Other(CursorError::Exhausted));
        }
        proof {
            lemma_pow256_widths();
            lemma_be_value_bound((*reader)@.take(4));
        }
        Ok(get_u32(reader))
    }
}

impl RoundTrip for u32 {
    open spec fn spec_valid(&self) -> bool {
        true
    }

    proof fn lemma_read_size(bytes: Seq<u8>) {
    }

    proof fn lemma_round_trip(&self, rest: Seq<u8>) {
        lemma_pow256_widths();
        lemma_be_round_trip(*self as nat, 4);
        let b = self.spec_bytes();
        assert((b + rest).take(4) =~= b);
    }
}

impl DataSize for u64 {
    open spec fn spec_static_size() -> Option<nat> {
        Some(8)
    }

    open spec fn spec_data_size(&self) -> nat {
        8
    }

    proof fn lemma_static_size(&self) {
    }

    fn fixed_data_size() -> (r: Option<usize>) {
        Some(8)
    }

    open spec fn spec_is_fieldless() -> bool {
        false
    }

    fn is_fieldless() -> (r: bool) {
        false
    }

    fn has_static_size() -> (r: bool) {
        true
    }

    fn data_size(&self) -> (r: usize) {
        8
    }
}

impl StaticDataSize for u64 {
    proof fn lemma_is_static() {
    }

    fn static_data_size() -> (r: usize) {
        8
    }
}

impl Writable for u64 {
    open spec fn spec_bytes(&self) -> Seq<u8> {
        be_bytes(*self as nat, 8)
    }

    proof fn lemma_bytes_len(&self) {
        lemma_be_bytes_len(*self as nat, 8);
    }

    fn write_to(&self, writer: &mut Vec<u8>) -> (r: Result<(), WriteError>) {
        proof {
            lemma_be_bytes_len(*self as nat, 8);
            lemma_wrote_nothing(writer@, self.spec_bytes());
        }
        if writer.len() > isize::MAX as usize - 8 {
            return Err(WriteError::Other(CursorError::Full));
        }
        put_u64(writer, *self);
        Ok(())
    }
}

impl Readable for u64 {
    open spec fn spec_read(bytes: Seq<u8>) -> (Result<Self, ReadError>, nat) {
        if bytes.len() < 8 {
            (Err(ReadError::Other(CursorError::Exhausted)), 0)
        } else {
            (Ok(be_value(bytes.take(8)) as u64), 8)
        }
    }

    proof fn lemma_read_len(bytes: Seq<u8>) {
    }

    fn read_from(reader: &mut &[u8]) -> (r: Result<Self, ReadError>) {
        if reader.len() < 8 {
            proof {
                assert((*reader)@.skip(0) =~= (*reader)@);
            }
            return Err(ReadError::Other(CursorError::Exhausted));
        }
        proof {
            lemma_pow256_widths();
            lemma_be_value_bound((*reader)@.take(8));
        }
        Ok(get_u64(reader))
    }
}

impl RoundTrip for u64 {
    open spec fn spec_valid(&self) -> bool {
        true
    }

    proof fn lemma_read_size(bytes: Seq<u8>) {
    }

    proof fn lemma_round_trip(&self, rest: Seq<u8>) {
        lemma_pow256_widths();
        lemma_be_round_trip(*self as nat, 8);
        let b = self.spec_bytes();
        assert((b + rest).take(8) =~= b);
    }
}

impl DataSize for u128 {
    open spec fn spec_static_size() -> Option<nat> {
        Some(16)
    }

    open spec fn spec_data_size(&self) -> nat {
        16
    }

    proof fn lemma_static_size(&self) {
    }

    fn fixed_data_size() -> (r: Option<usize>) {
        Some(16)
    }

    open spec fn spec_is_fieldless() -> bool {
        false
    }

    fn is_fieldless() -> (r: bool) {
        false
    }

    fn has_static_size() -> (r: bool) {
        true
    }

    fn data_size(&self) -> (r: usize) {
        16
    }
}

impl StaticDataSize for u128 {
    proof fn lemma_is_static() {
    }

    fn static_data_size() -> (r: usize) {
        16
    }
}

impl Writable for u128 {
    open spec fn spec_bytes(&self) -> Seq<u8> {
        be_bytes(*self as nat, 16)
    }

    proof fn lemma_bytes_len(&self) {
        lemma_be_bytes_len(*self as nat, 16);
    }

    fn write_to(&self, writer: &mut Vec<u8>) -> (r: Result<(), WriteError>) {
        proof {
            lemma_be_bytes_len(*self as nat, 16);
            lemma_wrote_nothing(writer@, self.spec_bytes());
        }
        if writer.len() > isize::MAX as usize - 16 {
            return Err(WriteError::Other(CursorError::Full));
        }
        put_u128(writer, *self);
        Ok(())
    }
}

impl Readable for u128 {
    open spec fn spec_read(bytes: Seq<u8>) -> (Result<Self, ReadError>, nat) {
        if bytes.len() < 16 {
            (Err(ReadError::Other(CursorError::Exhausted)), 0)
        } else {
            (Ok(be_value(bytes.take(16)) as u128), 16)
        }
    }

    proof fn lemma_read_len(bytes: Seq<u8>) {
    }

    fn read_from(reader: &mut &[u8]) -> (r: Result<Self, ReadError>) {
        if reader.len() < 16 {
            proof {
                assert((*reader)@.skip(0) =~= (*reader)@);
            }
            return Err(ReadError::Other(CursorError::Exhausted));
        }
        proof {
            lemma_pow256_widths();
            lemma_be_value_bound((*reader)@.take(16));
        }
        Ok(get_u128(reader))
    }
}

impl RoundTrip for u128 {
    open spec fn spec_valid(&self) -> bool {
        true
    }

    proof fn lemma_read_size(bytes: Seq<u8>) {
    }

    proof fn lemma_round_trip(&self, rest: Seq<u8>) {
        lemma_pow256_widths();
        lemma_be_round_trip(*self as nat, 16);
        let b = self.spec_bytes();
        assert((b + rest).take(16) =~= b);
    }
}

impl DataSize for i8 {
    open spec fn spec_static_size() -> Option<nat> {
        Some(1)
    }

    open spec fn spec_data_size(&self) -> nat {
        1
    }

    proof fn lemma_static_size(&self) {
    }

    fn fixed_data_size() -> (r: Option<usize>) {
        Some(1)
    }

    open spec fn spec_is_fieldless() -> bool {
        false
    }

    fn is_fieldless() -> (r: bool) {
        false
    }

    fn has_static_size() -> (r: bool) {
        true
    }

    fn data_size(&self) -> (r: usize) {
        1
    }
}

impl StaticDataSize for i8 {
    proof fn lemma_is_static() {
    }

    fn static_data_size() -> (r: usize) {
        1
    }
}

impl Writable for i8 {
    open spec fn spec_bytes(&self) -> Seq<u8> {
        signed_be_bytes(*self as int, 1)
    }

    proof fn lemma_bytes_len(&self) {
        lemma_signed_be_len(*self as int, 1);
    }

    fn write_to(&self, writer: &mut Vec<u8>) -> (r: Result<(), WriteError>) {
        proof {
            lemma_signed_be_len(*self as int, 1);
            lemma_wrote_nothing(writer@, self.spec_bytes());
        }
        if writer.len() > isize::MAX as usize - 1 {
            return Err(WriteError::Other(CursorError::Full));
        }
        put_i8(writer, *self);
        Ok(())
    }
}

impl Readable for i8 {
    open spec fn spec_read(bytes: Seq<u8>) -> (Result<Self, ReadError>, nat) {
        if bytes.len() < 1 {
            (Err(ReadError::Other(CursorError::Exhausted)), 0)
        } else {
            (Ok(signed_be_value(bytes.take(1)) as i8), 1)
        }
    }

    proof fn lemma_read_len(bytes: Seq<u8>) {
    }

    fn read_from(reader: &mut &[u8]) -> (r: Result<Self, ReadError>) {
        if reader.len() < 1 {
            proof {
                assert((*reader)@.skip(0) =~= (*reader)@);
            }
            return Err(ReadError::Other(CursorError::Exhausted));
        }
        proof {
            lemma_pow256_widths();
            lemma_signed_be_value_bound((*reader)@.take(1));
        }
        Ok(get_i8(reader))
    }
}

impl RoundTrip for i8 {
    open spec fn spec_valid(&self) -> bool {
        true
    }

    proof fn lemma_read_size(bytes: Seq<u8>) {
    }

    proof fn lemma_round_trip(&self, rest: Seq<u8>) {
        lemma_pow256_widths();
        lemma_signed_be_round_trip(*self as int, 1);
        let b = self.spec_bytes();
        assert((b + rest).take(1) =~= b);
    }
}

impl DataSize for i16 {
    open spec fn spec_static_size() -> Option<nat> {
        Some(2)
    }

    open spec fn spec_data_size(&self) -> nat {
        2
    }

    proof fn lemma_static_size(&self) {
    }

    fn fixed_data_size() -> (r: Option<usize>) {
        Some(2)
    }

    open spec fn spec_is_fieldless() -> bool {
        false
    }

    fn is_fieldless() -> (r: bool) {
        false
    }

    fn has_static_size() -> (r: bool) {
        true
    }

    fn data_size(&self) -> (r: usize) {
        2
    }
}

impl StaticDataSize for i16 {
    proof fn lemma_is_static() {
    }

    fn static_data_size() -> (r: usize) {
        2
    }
}

impl Writable for i16 {
    open spec fn spec_bytes(&self) -> Seq<u8> {
        signed_be_bytes(*self as int, 2)
    }

    proof fn lemma_bytes_len(&self) {
        lemma_signed_be_len(*self as int, 2);
    }

    fn write_to(&self, writer: &mut Vec<u8>) -> (r: Result<(), WriteError>) {
        proof {
            lemma_signed_be_len(*self as int, 2);
            lemma_wrote_nothing(writer@, self.spec_bytes());
        }
        if writer.len() > isize::MAX as usize - 2 {
            return Err(WriteError::Other(CursorError::Full));
        }
        put_i16(writer, *self);
        Ok(())
    }
}

impl Readable for i16 {
    open spec fn spec_read(bytes: Seq<u8>) -> (Result<Self, ReadError>, nat) {
        if bytes.len() < 2 {
            (Err(ReadError::Other(CursorError::Exhausted)), 0)
        } else {
            (Ok(signed_be_value(bytes.take(2)) as i16), 2)
        }
    }

    proof fn lemma_read_len(bytes: Seq<u8>) {
    }

    fn read_from(reader: &mut &[u8]) -> (r: Result<Self, ReadError>) {
        if reader.len() < 2 {
            proof {
                assert((*reader)@.skip(0) =~= (*reader)@);
            }
            return Err(ReadError::Other(CursorError::Exhausted));
        }
        proof {
            lemma_pow256_widths();
            lemma_signed_be_value_bound((*reader)@.take(2));
        }
        Ok(get_i16(reader))
    }
}

impl RoundTrip for i16 {
    open spec fn spec_valid(&self) -> bool {
        true
    }

    proof fn lemma_read_size(bytes: Seq<u8>) {
    }

    proof fn lemma_round_trip(&self, rest: Seq<u8>) {
        lemma_pow256_widths();
        lemma_signed_be_round_trip(*self as int, 2);
        let b = self.spec_bytes();
        assert((b + rest).take(2) =~= b);
    }
}

impl DataSize for i32 {
    open spec fn spec_static_size() -> Option<nat> {
        Some(4)
    }

    open spec fn spec_data_size(&self) -> nat {
        4
    }

    proof fn lemma_static_size(&self) {
    }

    fn fixed_data_size() -> (r: Option<usize>) {
        Some(4)
    }

    open spec fn spec_is_fieldless() -> bool {
        false
    }

    fn is_fieldless() -> (r: bool) {
        false
    }

    fn has_static_size() -> (r: bool) {
        true
    }

    fn data_size(&self) -> (r: usize) {
        4
    }
}

impl StaticDataSize for i32 {
    proof fn lemma_is_static() {
    }

    fn static_data_size() -> (r: usize) {
        4
    }
}

impl Writable for i32 {
    open spec fn spec_bytes(&self) -> Seq<u8> {
        signed_be_bytes(*self as int, 4)
    }

    proof fn lemma_bytes_len(&self) {
        lemma_signed_be_len(*self as int, 4);
    }

    fn write_to(&self, writer: &mut Vec<u8>) -> (r: Result<(), WriteError>) {
        proof {
            lemma_signed_be_len(*self as int, 4);
            lemma_wrote_nothing(writer@, self.spec_bytes());
        }
        if writer.len() > isize::MAX as usize - 4 {
            return Err(WriteError::Other(CursorError::Full));
        }
        put_i32(writer, *self);
        Ok(())
    }
}

impl Readable for i32 {
    open spec fn spec_read(bytes: Seq<u8>) -> (Result<Self, ReadError>, nat) {
        if bytes.len() < 4 {
            (Err(ReadError::Other(CursorError::Exhausted)), 0)
        } else {
            (Ok(signed_be_value(bytes.take(4)) as i32), 4)
        }
    }

    proof fn lemma_read_len(bytes: Seq<u8>) {
    }

    fn read_from(reader: &mut &[u8]) -> (r: Result<Self, ReadError>) {
        if reader.len() < 4 {
            proof {
                assert((*reader)@.skip(0) =~= (*reader)@);
            }
            return Err(ReadError::Other(CursorError::Exhausted));
        }
        proof {
            lemma_pow256_widths();
            lemma_signed_be_value_bound((*reader)@.take(4));
        }
        Ok(get_i32(reader))
    }
}

impl RoundTrip for i32 {
    open spec fn spec_valid(&self) -> bool {
        true
    }

    proof fn lemma_read_size(bytes: Seq<u8>) {
    }

    proof fn lemma_round_trip(&self, rest: Seq<u8>) {
        lemma_pow256_widths();
        lemma_signed_be_round_trip(*self as int, 4);
        let b = self.spec_bytes();
        assert((b + rest).take(4) =~= b);
    }
}

impl DataSize for i64 {
    open spec fn spec_static_size() -> Option<nat> {
        Some(8)
    }

    open spec fn spec_data_size(&self) -> nat {
        8
    }

    proof fn lemma_static_size(&self) {
    }

    fn fixed_data_size() -> (r: Option<usize>) {
        Some(8)
    }

    open spec fn spec_is_fieldless() -> bool {
        false
    }

    fn is_fieldless() -> (r: bool) {
        false
    }

    fn has_static_size() -> (r: bool) {
        true
    }

    fn data_size(&self) -> (r: usize) {
        8
    }
}

impl StaticDataSize for i64 {
    proof fn lemma_is_static() {
    }

    fn static_data_size() -> (r: usize) {
        8
    }
}

impl Writable for i64 {
    open spec fn spec_bytes(&self) -> Seq<u8> {
        signed_be_bytes(*self as int, 8)
    }

    proof fn lemma_bytes_len(&self) {
        lemma_signed_be_len(*self as int, 8);
    }

    fn write_to(&self, writer: &mut Vec<u8>) -> (r: Result<(), WriteError>) {
        proof {
            lemma_signed_be_len(*self as int, 8);
            lemma_wrote_nothing(writer@, self.spec_bytes());
        }
        if writer.len() > isize::MAX as usize - 8 {
            return Err(WriteError::Other(CursorError::Full));
        }
        put_i64(writer, *self);
        Ok(())
    }
}

impl Readable for i64 {
    open spec fn spec_read(bytes: Seq<u8>) -> (Result<Self, ReadError>, nat) {
        if bytes.len() < 8 {
            (Err(ReadError::Other(CursorError::Exhausted)), 0)
        } else {
            (Ok(signed_be_value(bytes.take(8)) as i64), 8)
        }
    }

    proof fn lemma_read_len(bytes: Seq<u8>) {
    }

    fn read_from(reader: &mut &[u8]) -> (r: Result<Self, ReadError>) {
        if reader.len() < 8 {
            proof {
                assert((*reader)@.skip(0) =~= (*reader)@);
            }
            return Err(ReadError::Other(CursorError::Exhausted));
        }
        proof {
            lemma_pow256_widths();
            lemma_signed_be_value_bound((*reader)@.take(8));
        }
        Ok(get_i64(reader))
    }
}

impl RoundTrip for i64 {
    open spec fn spec_valid(&self) -> bool {
        true
    }

    proof fn lemma_read_size(bytes: Seq<u8>) {
    }

    proof fn lemma_round_trip(&self, rest: Seq<u8>) {
        lemma_pow256_widths();
        lemma_signed_be_round_trip(*self as int, 8);
        let b = self.spec_bytes();
        assert((b + rest).take(8) =~= b);
    }
}

impl DataSize for i128 {
    open spec fn spec_static_size() -> Option<nat> {
        Some(16)
    }

    open spec fn spec_data_size(&self) -> nat {
        16
    }

    proof fn lemma_static_size(&self) {
    }

    fn fixed_data_size() -> (r: Option<usize>) {
        Some(16)
    }

    open spec fn spec_is_fieldless() -> bool {
        false
    }

    fn is_fieldless() -> (r: bool) {
        false
    }

    fn has_static_size() -> (r: bool) {
        true
    }

    fn data_size(&self) -> (r: usize) {
        16
    }
}

impl StaticDataSize for i128 {
    proof fn lemma_is_static() {
    }

    fn static_data_size() -> (r: usize) {
        16
    }
}

impl Writable for i128 {
    open spec fn spec_bytes(&self) -> Seq<u8> {
        signed_be_bytes(*self as int, 16)
    }

    proof fn lemma_bytes_len(&self) {
        lemma_signed_be_len(*self as int, 16);
    }

    fn write_to(&self, writer: &mut Vec<u8>) -> (r: Result<(), WriteError>) {
        proof {
            lemma_signed_be_len(*self as int, 16);
            lemma_wrote_nothing(writer@, self.spec_bytes());
        }
        if writer.len() > isize::MAX as usize - 16 {
            return Err(WriteError::Other(CursorError::Full));
        }
        put_i128(writer, *self);
        Ok(())
    }
}

impl Readable for i128 {
    open spec fn spec_read(bytes: Seq<u8>) -> (Result<Self, ReadError>, nat) {
        if bytes.len() < 16 {
            (Err(ReadError::Other(CursorError::Exhausted)), 0)
        } else {
            (Ok(signed_be_value(bytes.take(16)) as i128), 16)
        }
    }

    proof fn lemma_read_len(bytes: Seq<u8>) {
    }

    fn read_from(reader: &mut &[u8]) -> (r: Result<Self, ReadError>) {
        if reader.len() < 16 {
            proof {
                assert((*reader)@.skip(0) =~= (*reader)@);
            }
            return Err(ReadError::Other(CursorError::Exhausted));
        }
        proof {
            lemma_pow256_widths();
            lemma_signed_be_value_bound((*reader)@.take(16));
        }
        Ok(get_i128(reader))
    }
}

impl RoundTrip for i128 {
    open spec fn spec_valid(&self) -> bool {
        true
    }

    proof fn lemma_read_size(bytes: Seq<u8>) {
    }

    proof fn lemma_round_trip(&self, rest: Seq<u8>) {
        lemma_pow256_widths();
        lemma_signed_be_round_trip(*self as int, 16);
        let b = self.spec_bytes();
        assert((b + rest).take(16) =~= b);
    }
}

impl DataSize for bool {
    open spec fn spec_static_size() -> Option<nat> {
        Some(1)
    }

    open spec fn spec_data_size(&self) -> nat {
        1
    }

    proof fn lemma_static_size(&self) {
    }

    fn fixed_data_size() -> (r: Option<usize>) {
        Some(1)
    }

    open spec fn spec_is_fieldless() -> bool {
        false
    }

    fn is_fieldless() -> (r: bool) {
        false
    }

    fn has_static_size() -> (r: bool) {
        true
    }

    fn data_size(&self) -> (r: usize) {
        1
    }
}

impl StaticDataSize for bool {
    proof fn lemma_is_static() {
    }

    fn static_data_size() -> (r: usize) {
        1
    }
}

impl Writable for bool {
    open spec fn spec_bytes(&self) -> Seq<u8> {
        be_bytes(if *self { 1 } else { 0 }, 1)
    }

    proof fn lemma_bytes_len(&self) {
        lemma_be_bytes_len(if *self { 1 } else { 0 }, 1);
    }

    fn write_to(&self, writer: &mut Vec<u8>) -> (r: Result<(), WriteError>) {
        proof {
            lemma_be_bytes_len(if *self { 1 } else { 0 }, 1);
            lemma_wrote_nothing(writer@, self.spec_bytes());
        }
        if writer.len() > isize::MAX as usize - 1 {
            return Err(WriteError::Other(CursorError::Full));
        }
        put_u8(writer, if *self { 1 } else { 0 });
        Ok(())
    }
}

impl Readable for bool {
    open spec fn spec_read(bytes: Seq<u8>) -> (Result<Self, ReadError>, nat) {
        if bytes.len() < 1 {
            (Err(ReadError::Other(CursorError::Exhausted)), 0)
        } else {
            (Ok(be_value(bytes.take(1)) != 0), 1)
        }
    }

    proof fn lemma_read_len(bytes: Seq<u8>) {
    }

    fn read_from(reader: &mut &[u8]) -> (r: Result<Self, ReadError>) {
        if reader.len() < 1 {
            proof {
                assert((*reader)@.skip(0) =~= (*reader)@);
            }
            return Err(ReadError::Other(CursorError::Exhausted));
        }
        proof {
            lemma_pow256_widths();
            lemma_be_value_bound((*reader)@.take(1));
        }
        Ok(get_u8(reader) != 0)
    }
}

impl RoundTrip for bool {
    open spec fn spec_valid(&self) -> bool {
        true
    }

    proof fn lemma_read_size(bytes: Seq<u8>) {
    }

    proof fn lemma_round_trip(&self, rest: Seq<u8>) {
        lemma_pow256_widths();
        let n: nat = if *self { 1 } else { 0 };
        lemma_be_round_trip(n, 1);
        let b = self.spec_bytes();
        assert((b + rest).take(1) =~= b);
    }
}

} // verus!
