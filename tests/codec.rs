use cornflakes::{
    read_discriminant, ContextualReadable, CursorError, DataSize, Deserialize, DeserializeWith,
    Discriminant, Nil, ReadError, Readable, RwInterface, Serialize, StaticDataSize, ToRwInterface,
    Val, Writable,
};

fn written<T: Writable>(v: &T) -> Vec<u8> {
    let mut out = Vec::new();
    v.write_to(&mut out).unwrap();
    out
}

#[test]
fn integers_are_big_endian() {
    assert_eq!(written(&0x0102u16), vec![1, 2]);
    assert_eq!(written(&0x01020304u32), vec![1, 2, 3, 4]);
    assert_eq!(written(&0x0102030405060708u64), vec![1, 2, 3, 4, 5, 6, 7, 8]);
    assert_eq!(written(&-2i16), vec![0xFF, 0xFE]);
    assert_eq!(written(&-1i8), vec![0xFF]);
    assert_eq!(written(&7u8), vec![7]);
    assert_eq!(written(&-3i32), vec![0xFF, 0xFF, 0xFF, 0xFD]);
    assert_eq!(written(&1i64), vec![0, 0, 0, 0, 0, 0, 0, 1]);
    let mut big = vec![0u8; 15];
    big.push(9);
    assert_eq!(written(&9u128), big);
    assert_eq!(written(&-1i128), vec![0xFF; 16]);
    assert_eq!(written(&true), vec![1]);
    assert_eq!(written(&false), vec![0]);
}

#[test]
fn integers_read_back() {
    let mut data: &[u8] = &[0xFF, 0xFE, 0x01, 0x02, 0x03, 0x04, 0x07, 0x02];
    assert_eq!(i16::read_from(&mut data).unwrap(), -2);
    assert_eq!(u32::read_from(&mut data).unwrap(), 0x01020304);
    assert_eq!(u8::read_from(&mut data).unwrap(), 7);
    assert!(bool::read_from(&mut data).unwrap());
    assert!(data.is_empty());
}

#[test]
fn every_primitive_round_trips() {
    fn check<T: Readable + Writable + PartialEq + std::fmt::Debug>(v: T) {
        let bytes = written(&v);
        assert_eq!(bytes.len(), v.data_size());
        let mut slice: &[u8] = &bytes;
        assert_eq!(T::read_from(&mut slice).unwrap(), v);
        assert!(slice.is_empty());
    }
    check(200u8);
    check(-100i8);
    check(0xBEEFu16);
    check(-30000i16);
    check(0xDEADBEEFu32);
    check(i32::MIN);
    check(u64::MAX);
    check(i64::MIN);
    check(u128::MAX - 1);
    check(i128::MIN + 1);
    check(true);
    check(false);
}

#[test]
fn short_input_is_exhausted() {
    let mut data: &[u8] = &[1, 2, 3];
    assert_eq!(u32::read_from(&mut data), Err(ReadError::Other(CursorError::Exhausted)));
    assert_eq!(data, &[1, 2, 3]);
    let mut empty: &[u8] = &[];
    assert_eq!(bool::read_from(&mut empty), Err(ReadError::Other(CursorError::Exhausted)));
}

#[test]
fn written_size_matches_data_size() {
    let chain = 5u32.rw().i16(-4).bool(true);
    let bytes = written(&chain);
    assert_eq!(bytes.len(), chain.data_size());
    assert_eq!(bytes, vec![0, 0, 0, 5, 0xFF, 0xFC, 1]);
    let list = vec![1u16, 2, 3];
    assert_eq!(written(&list).len(), list.data_size());
}

#[test]
fn sentinel_option_has_no_tag() {
    let none: Option<u32> = None;
    let bytes = written(&none);
    assert_eq!(bytes, vec![0, 0, 0, 0]);
    assert_eq!(bytes.len(), 4);
    let mut slice: &[u8] = &bytes;
    assert_eq!(Option::<u32>::read_from(&mut slice).unwrap(), None);
    assert!(slice.is_empty());

    let some = Some(0x0A0Bu32);
    let bytes = written(&some);
    assert_eq!(bytes, vec![0, 0, 0x0A, 0x0B]);
    let mut slice: &[u8] = &bytes;
    assert_eq!(Option::<u32>::read_from(&mut slice).unwrap(), some);
}

#[test]
fn sentinel_option_reads_zero_as_absent() {
    let mut slice: &[u8] = &[0, 0, 0, 0, 0, 0, 0, 0];
    assert_eq!(Option::<u64>::read_from(&mut slice).unwrap(), None);
    let mut short: &[u8] = &[0, 0, 0];
    assert_eq!(Option::<u64>::read_from(&mut short), Err(ReadError::Other(CursorError::Exhausted)));
}

#[test]
fn fields_are_written_oldest_first() {
    let a = 0x0102u16;
    let b = 3u8;
    let c = -1i32;
    let chain = a.rw().u8(b).i32(c);
    assert_eq!(written(&chain), vec![1, 2, 3, 0xFF, 0xFF, 0xFF, 0xFF]);
    let bytes = written(&chain);
    let mut slice: &[u8] = &bytes;
    let back = Val::<i32, Val<u8, Val<u16, Nil>>>::read_from(&mut slice).unwrap();
    let (head, tail) = back.pop();
    assert_eq!(head, c);
    assert_eq!(*tail.head(), b);
    assert_eq!(*tail.tail().head(), a);
}

#[test]
fn chain_is_built_by_to_rw_and_new() {
    let chain = 7u8.to_rw(Nil);
    assert_eq!(chain.value, 7);
    let longer = Val::new(chain, 9u16);
    assert_eq!(*longer.head(), 9);
    assert_eq!(longer.tail().value, 7);
    assert_eq!(written(&longer), vec![7, 0, 9]);
}

#[test]
fn malformed_discriminant_takes_only_the_tag() {
    let mut data: &[u8] = &[6, 0xAA];
    assert_eq!(read_discriminant(&mut data, 6), Err(ReadError::UnrecognizedDiscriminant(6)));
    assert_eq!(data, &[0xAA]);
    let mut good: &[u8] = &[5];
    assert_eq!(read_discriminant(&mut good, 6), Ok(5));
    let mut empty: &[u8] = &[];
    assert_eq!(read_discriminant(&mut empty, 6), Err(ReadError::Other(CursorError::Exhausted)));
}

#[test]
fn vec_reads_with_count_context() {
    let list = vec![1u16, 0x0203, 4];
    let bytes = written(&list);
    assert_eq!(bytes, vec![0, 1, 2, 3, 0, 4]);
    let mut slice: &[u8] = &bytes;
    let back = <Vec<u16> as ContextualReadable>::read_with(&mut slice, &3).unwrap();
    assert_eq!(back, list);
    let mut short: &[u8] = &bytes[..5];
    assert_eq!(
        <Vec<u16> as ContextualReadable>::read_with(&mut short, &3),
        Err(ReadError::Other(CursorError::Exhausted))
    );
}

#[test]
fn chain_head_may_need_context() {
    let chain = 2u8.rw().push(vec![10u8, 20]);
    let bytes = written(&chain);
    assert_eq!(bytes, vec![2, 10, 20]);
    let mut slice: &[u8] = &bytes;
    let back = <Val<Vec<u8>, Val<u8, Nil>> as ContextualReadable>::read_with(&mut slice, &2).unwrap();
    assert_eq!(back.value, vec![10, 20]);
    assert_eq!(back.tail.value, 2);
    let mut again: &[u8] = &bytes;
    let same = <Val<Vec<u8>, Val<u8, Nil>> as DeserializeWith<usize>>::read_with(&mut again, 2);
    assert_eq!(same, Ok(back));
    let mut short: &[u8] = &bytes[..2];
    assert_eq!(
        <Val<Vec<u8>, Val<u8, Nil>> as DeserializeWith<usize>>::read_with(&mut short, 2),
        Err(ReadError::Other(CursorError::Exhausted))
    );
}

#[test]
fn strings_write_their_utf8_bytes() {
    assert_eq!(written(&String::from("hé")), vec![b'h', 0xC3, 0xA9]);
    let s: &str = "ok";
    let mut out = Vec::new();
    s.write_to(&mut out).unwrap();
    assert_eq!(out, b"ok".to_vec());
}

#[test]
fn serialize_and_deserialize_report_errors() {
    let mut out = Vec::new();
    0x0A0Bu16.write(&mut out).unwrap();
    true.write(&mut out).unwrap();
    assert_eq!(out, vec![0x0A, 0x0B, 1]);
    let mut slice: &[u8] = &out;
    assert_eq!(<u16 as Deserialize>::read(&mut slice), Ok(0x0A0B));
    assert_eq!(<bool as Deserialize>::read(&mut slice), Ok(true));
    assert_eq!(<bool as Deserialize>::read(&mut slice), Err(ReadError::Other(CursorError::Exhausted)));
}

#[test]
fn malformed_discriminant_in_a_chain_leaves_the_rest() {
    let mut data: &[u8] = &[0xFF, 0xAA];
    assert_eq!(
        Val::<Discriminant<6>, Nil>::read_from(&mut data),
        Err(ReadError::UnrecognizedDiscriminant(0xFF))
    );
    assert_eq!(data, &[0xAA]);
    let mut good: &[u8] = &[2, 0, 7];
    let back = Val::<u16, Val<Discriminant<3>, Nil>>::read_from(&mut good).unwrap();
    assert_eq!(back.tail.value, Discriminant { index: 2 });
    assert_eq!(back.value, 7);
}

#[test]
fn discriminant_writes_one_byte() {
    assert_eq!(written(&Discriminant::<4> { index: 3 }), vec![3]);
    assert_eq!(<Discriminant<4> as StaticDataSize>::static_data_size(), 1);
}

#[test]
fn option_without_static_size_writes_one_zero_byte_for_none() {
    let none: Option<Vec<u8>> = None;
    assert_eq!(written(&none), vec![0]);
    assert_eq!(none.data_size(), 1);
    let some: Option<Vec<u8>> = Some(vec![4, 5]);
    assert_eq!(written(&some), vec![4, 5]);
    assert_eq!(some.data_size(), 2);
}

#[test]
fn char_fields_can_be_pushed() {
    let chain = 1u8.rw().char('x');
    assert_eq!(chain.value, 'x');
    assert_eq!(chain.tail.value, 1);
}
