use cornflakes::{read_discriminant, Discriminant, Readable, RwInterface, ToRwInterface, Val, Nil};

// A type with a unit variant and one field is an optional value: the unit
// variant is the zero sentinel.
type TestEnumWrapper = Option<u16>;

type TestEnumWrapperGenerics<T> = Option<T>;

type TestEnumUnits = Discriminant<6>;

type TestStruct<T> = Val<
    TestEnumWrapperGenerics<T>,
    Val<TestEnumWrapper, Val<Option<T>, Val<Option<u8>, Val<T, Val<i32, Nil>>>>>,
>;

fn test_struct(
    value: i32,
    value_generic: u8,
    wrapper: Option<u8>,
    wrapper_generic: Option<u8>,
    enum_value: TestEnumWrapper,
    enum_generic_value: TestEnumWrapperGenerics<u8>,
) -> TestStruct<u8> {
    value
        .rw()
        .u8(value_generic)
        .push(wrapper)
        .push(wrapper_generic)
        .push(enum_value)
        .push(enum_generic_value)
}

#[test]
fn test_readable_wrapper_enum_unit() {
    let mut data: &[u8] = &b"\x00\x00"[..];
    let expected: TestEnumWrapper = None;
    assert_eq!(<TestEnumWrapper as Readable>::read_from(&mut data).unwrap(), expected);
}

#[test]
fn test_readable_wrapper_enum_unnamed() {
    let mut data: &[u8] = &b"\x00\xFF"[..];
    let expected: TestEnumWrapper = Some(0x00FF);
    assert_eq!(<TestEnumWrapper as Readable>::read_from(&mut data).unwrap(), expected);
}

#[test]
fn test_readable_wrapper_enum_gereric_unit() {
    let mut data: &[u8] = &b"\x00\x00\x00\x00"[..];
    let expected: TestEnumWrapperGenerics<i32> = None;
    assert_eq!(<TestEnumWrapperGenerics<i32> as Readable>::read_from(&mut data).unwrap(), expected);
}

#[test]
fn test_readable_wrapper_enum_gereric_unnamed() {
    let mut data: &[u8] = &b"\x00\x02\xAB\x98"[..];
    let expected: TestEnumWrapperGenerics<u32> = Some(175000);
    assert_eq!(<TestEnumWrapperGenerics<u32> as Readable>::read_from(&mut data).unwrap(), expected);
}

#[test]
fn test_readable_unit_enum() {
    let mut data: &[u8] = &b"\x04"[..];
    // Variant0 to Variant5.
    let expected = TestEnumUnits { index: 4 };
    assert_eq!(<TestEnumUnits as Readable>::read_from(&mut data).unwrap(), expected);
    let mut again: &[u8] = &b"\x04"[..];
    assert_eq!(read_discriminant(&mut again, 6).unwrap(), 4);
}

#[test]
fn test_readable_struct() {
    let mut data: &[u8] = &b"\x00\x00\x00\x01\x30\x00\x20\x00\x00\x00"[..];
    let expected = test_struct(1, 48, None, Some(32), None, None);
    let read = <TestStruct<u8> as Readable>::read_from(&mut data).unwrap();
    assert_eq!(read, expected);
    assert!(data.is_empty());
}

#[test]
fn test_readable_tuple() {
    let mut data: &[u8] = &b"\x00\x00\x00\x01\x30\x00\x20\x00\x00\x00"[..];
    let expected = test_struct(1, 48, None, Some(32), None, None);
    let read = <TestStruct<u8> as Readable>::read_from(&mut data).unwrap();
    assert_eq!(read.head(), expected.head());
    assert_eq!(read.tail(), expected.tail());
}
