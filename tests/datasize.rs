use cornflakes::{DataSize, Either, Nil, StaticDataSize, Val};

// Variants are chains of fields, newest field first; sums nest to the right.
type TestSizedEnum = Either<Nil, Either<Val<u16, Nil>, Val<i8, Val<u32, Nil>>>>;

type TestSizedStruct = Val<TestSizedEnum, Val<Option<i64>, Val<u32, Nil>>>;

type TestSizedTuple = Val<Option<i64>, Val<u32, Nil>>;

type TestDynamicEnum = Either<Nil, Either<Val<Vec<u8>, Nil>, Val<Vec<i16>, Val<u32, Nil>>>>;

type TestDynamicStruct = Val<Vec<TestSizedEnum>, Val<Option<Vec<i32>>, Val<u32, Nil>>>;

type TestDerivedDynamicStruct<'a> = Val<&'a [u32], TestDynamicStruct>;

type TestDynamicTuple = Val<i64, Val<Vec<Option<u64>>, Nil>>;

type TestEnumGenerics<T> = Either<Nil, Either<Val<T, Nil>, Val<T, Val<T, Nil>>>>;

type TestStructGenerics<'a, T> = Val<TestEnumGenerics<Option<T>>, Val<Option<T>, Val<&'a T, Nil>>>;

type TestTupleGenerics<T> = Val<TestEnumGenerics<T>, Val<Option<T>, Nil>>;

fn sized_unit() -> TestSizedEnum {
    Either::Left(Nil)
}

fn sized_tuple(a: u16) -> TestSizedEnum {
    Either::Right(Either::Left(Val { value: a, tail: Nil }))
}

fn sized_struct(field1: u32, field2: i8) -> TestSizedEnum {
    Either::Right(Either::Right(Val { value: field2, tail: Val { value: field1, tail: Nil } }))
}

fn dynamic_unit() -> TestDynamicEnum {
    Either::Left(Nil)
}

fn dynamic_tuple(a: Vec<u8>) -> TestDynamicEnum {
    Either::Right(Either::Left(Val { value: a, tail: Nil }))
}

fn dynamic_struct(field1: u32, field2: Vec<i16>) -> TestDynamicEnum {
    Either::Right(Either::Right(Val { value: field2, tail: Val { value: field1, tail: Nil } }))
}

fn generic_unit<T>() -> TestEnumGenerics<T> {
    Either::Left(Nil)
}

fn generic_unnamed<T>(a: T) -> TestEnumGenerics<T> {
    Either::Right(Either::Left(Val { value: a, tail: Nil }))
}

fn generic_named<T>(field1: T, field2: T) -> TestEnumGenerics<T> {
    Either::Right(Either::Right(Val { value: field2, tail: Val { value: field1, tail: Nil } }))
}

fn sized_record(value: u32, wrapper: Option<i64>, enum_value: TestSizedEnum) -> TestSizedStruct {
    Val { value: enum_value, tail: Val { value: wrapper, tail: Val { value, tail: Nil } } }
}

fn dynamic_record(
    value: u32,
    wrapper: Option<Vec<i32>>,
    enum_value: Vec<TestSizedEnum>,
) -> TestDynamicStruct {
    Val { value: enum_value, tail: Val { value: wrapper, tail: Val { value, tail: Nil } } }
}

#[test]
fn test_datasize_vec() {
    let data = vec![i16::default(); 100];
    assert_eq!(data.data_size(), 200);
}

#[test]
fn test_datasize_option_static() {
    let data: Option<u64> = None;
    assert_eq!(data.data_size(), 8);
}

#[test]
fn test_datasize_option_dynamic() {
    let data: Option<Vec<i64>> = Some(vec![i64::default(); 10]);
    assert_eq!(data.data_size(), 80);
}

#[test]
fn datasize_test_test_sized_enum_unit() {
    let data = sized_unit();
    assert_eq!(data.data_size(), 5);
}

#[test]
fn test_sized_enum_tuple() {
    let data = sized_tuple(u16::default());
    assert_eq!(data.data_size(), 5);
}

#[test]
fn test_sized_enum_struct() {
    let data = sized_struct(u32::default(), i8::default());
    assert_eq!(data.data_size(), 5);
}

#[test]
fn datasize_test_test_sized_struct() {
    let data = sized_record(u32::default(), None, sized_unit());
    assert_eq!(data.data_size(), 17);
}

#[test]
fn datasize_test_test_dynamic_enum_unit() {
    // A variant without fields takes its one-byte tag.
    let data = dynamic_unit();
    assert_eq!(data.data_size(), 1);
}

#[test]
fn test_dynamic_enum_tuple() {
    let data = dynamic_tuple(Vec::from([u8::default(), u8::default()]));
    assert_eq!(data.data_size(), 2);
}

#[test]
fn test_dynamic_enum_struct() {
    let data = dynamic_struct(u32::default(), Vec::from([i16::default(), i16::default(), i16::default()]));
    assert_eq!(data.data_size(), 10);
}

#[test]
fn datasize_test_test_dynamic_struct() {
    let data = dynamic_record(
        u32::default(),
        Some(Vec::from([i32::default(), i32::default()])),
        Vec::from([sized_unit()]),
    );
    assert_eq!(data.data_size(), 17);
}

#[test]
fn datasize_derive_test_test_sized_enum_unit() {
    let data = sized_unit();
    assert_eq!(<TestSizedEnum as DataSize>::data_size(&data), 5);
}

#[test]
fn test_sized_enum_unnamed() {
    let data = sized_tuple(u16::default());
    assert_eq!(<TestSizedEnum as DataSize>::data_size(&data), 5);
}

#[test]
fn test_sized_enum_named() {
    let data = sized_struct(u32::default(), i8::default());
    assert_eq!(<TestSizedEnum as DataSize>::data_size(&data), 5);
}

#[test]
fn datasize_derive_test_test_sized_struct() {
    let data = sized_record(u32::default(), None, sized_unit());
    assert_eq!(<TestSizedStruct as DataSize>::data_size(&data), 17);
}

#[test]
fn test_sized_tuple() {
    let data: TestSizedTuple = Val { value: None, tail: Val { value: u32::default(), tail: Nil } };
    assert_eq!(<TestSizedTuple as DataSize>::data_size(&data), 12);
}

#[test]
fn datasize_derive_test_test_dynamic_enum_unit() {
    let data = dynamic_unit();
    assert_eq!(<TestDynamicEnum as DataSize>::data_size(&data), 1);
}

#[test]
fn test_dynamic_enum_unnamed() {
    let data = dynamic_tuple(Vec::from([u8::default(), u8::default()]));
    assert_eq!(<TestDynamicEnum as DataSize>::data_size(&data), 2);
}

#[test]
fn test_dynamic_enum_named() {
    let data = dynamic_struct(u32::default(), vec![i16::default(); 10]);
    assert_eq!(<TestDynamicEnum as DataSize>::data_size(&data), 24);
}

#[test]
fn datasize_derive_test_test_dynamic_struct() {
    let s: &[u32] = &[u32::default()];
    let data: TestDerivedDynamicStruct = Val {
        value: s,
        tail: dynamic_record(
            u32::default(),
            Some(Vec::from([i32::default(), i32::default()])),
            Vec::from([sized_unit()]),
        ),
    };
    assert_eq!(<TestDerivedDynamicStruct as DataSize>::data_size(&data), 21);
}

#[test]
fn test_dynamic_tuple() {
    let data: TestDynamicTuple = Val { value: i64::default(), tail: Val { value: vec![None; 10], tail: Nil } };
    assert_eq!(<TestDynamicTuple as DataSize>::data_size(&data), 88);
}

#[test]
fn test_enum_with_sized_generics_unit() {
    let data = generic_unit::<u32>();
    assert_eq!(<TestEnumGenerics<u32> as DataSize>::data_size(&data), 8);
}

#[test]
fn test_enum_with_sized_generics_unnamed() {
    let data = generic_unnamed::<u8>(u8::default());
    assert_eq!(<TestEnumGenerics<u8> as DataSize>::data_size(&data), 2);
}

#[test]
fn test_enum_with_sized_generics_named() {
    let data = generic_named::<i64>(i64::default(), i64::default());
    assert_eq!(<TestEnumGenerics<i64> as DataSize>::data_size(&data), 16);
}

#[test]
fn test_enum_with_dynamic_generics_unit() {
    let data = generic_unit::<Vec<u32>>();
    assert_eq!(<TestEnumGenerics<Vec<u32>> as DataSize>::data_size(&data), 1);
}

#[test]
fn test_enum_with_dynamic_generics_unnamed() {
    let data = generic_unnamed::<Vec<u8>>(Vec::from([u8::default(), u8::default()]));
    assert_eq!(<TestEnumGenerics<Vec<u8>> as DataSize>::data_size(&data), 2);
}

#[test]
fn test_enum_with_dynamic_generics_named() {
    let data = generic_named::<Vec<i64>>(vec![i64::default()], vec![i64::default(); 10]);
    assert_eq!(<TestEnumGenerics<Vec<i64>> as DataSize>::data_size(&data), 88);
}

#[test]
fn test_struct_with_sized_generics() {
    let value = u16::default();
    let data: TestStructGenerics<u16> = Val {
        value: generic_unit(),
        tail: Val { value: None, tail: Val { value: &value, tail: Nil } },
    };
    assert_eq!(<TestStructGenerics<u16> as DataSize>::data_size(&data), 8);
}

#[test]
fn test_struct_with_dynamic_generics() {
    let value = vec![u8::default()];
    let data: TestStructGenerics<Vec<u8>> = Val {
        value: generic_unit(),
        tail: Val { value: Some(vec![u8::default(); 2]), tail: Val { value: &value, tail: Nil } },
    };
    assert_eq!(<TestStructGenerics<Vec<u8>> as DataSize>::data_size(&data), 4);
}

#[test]
fn test_tuple_with_sized_generics() {
    let data: TestTupleGenerics<i8> = Val { value: generic_unit(), tail: Val { value: None, tail: Nil } };
    assert_eq!(<TestTupleGenerics<i8> as DataSize>::data_size(&data), 3);
}

#[test]
fn test_tuple_with_dynamic_generics() {
    let data: TestTupleGenerics<Vec<i8>> = Val {
        value: generic_unit(),
        tail: Val { value: Some(vec![i8::default(); 10]), tail: Nil },
    };
    assert_eq!(<TestTupleGenerics<Vec<i8>> as DataSize>::data_size(&data), 11);
}

#[test]
fn static_sizes_of_sized_shapes() {
    assert_eq!(<TestSizedEnum as StaticDataSize>::static_data_size(), 5);
    assert_eq!(<TestSizedStruct as StaticDataSize>::static_data_size(), 17);
    assert_eq!(<TestSizedTuple as StaticDataSize>::static_data_size(), 12);
    assert_eq!(<TestDynamicEnum as DataSize>::fixed_data_size(), None);
    assert_eq!(<TestSizedEnum as DataSize>::fixed_data_size(), Some(5));
}

#[test]
fn static_and_dynamic_sizes_agree() {
    let values = [sized_unit(), sized_tuple(7), sized_struct(1, -1)];
    for v in values.iter() {
        assert_eq!(v.data_size(), <TestSizedEnum as StaticDataSize>::static_data_size());
    }
    assert_eq!(Some(0u32).data_size(), None::<u32>.data_size());
    assert_eq!(Some(5u128).data_size(), 16);
}

#[test]
fn enum_static_size_is_largest_variant_in_any_order() {
    type Five = Val<u8, Val<u32, Nil>>;
    type Three = Val<u8, Val<u16, Nil>>;
    type Nine = Val<u8, Val<u64, Nil>>;
    assert_eq!(<Either<Five, Either<Three, Nine>> as StaticDataSize>::static_data_size(), 9);
    assert_eq!(<Either<Nine, Either<Five, Three>> as StaticDataSize>::static_data_size(), 9);
    assert_eq!(<Either<Three, Either<Nine, Five>> as StaticDataSize>::static_data_size(), 9);
    let v: Either<Five, Either<Three, Nine>> = Either::Right(Either::Left(Val { value: 1, tail: Val { value: 2, tail: Nil } }));
    assert_eq!(v.data_size(), 9);
}

#[test]
fn string_sizes_count_utf8_bytes() {
    assert_eq!("abc".data_size(), 3);
    assert_eq!(String::from("héllo").data_size(), 6);
    assert_eq!(Box::new(3u32).data_size(), 4);
    assert_eq!(<Box<u16> as StaticDataSize>::static_data_size(), 2);
}

#[test]
fn variant_with_a_zero_size_field_takes_no_tag() {
    let data: Either<Val<Nil, Nil>, Val<Vec<u8>, Nil>> = Either::Left(Val { value: Nil, tail: Nil });
    assert_eq!(data.data_size(), 0);
    let nested: Either<Val<Either<Nil, Nil>, Nil>, Val<Vec<u8>, Nil>> =
        Either::Left(Val { value: Either::Left(Nil), tail: Nil });
    assert_eq!(nested.data_size(), 0);
    let unit: Either<Nil, Val<Vec<u8>, Nil>> = Either::Left(Nil);
    assert_eq!(unit.data_size(), 1);
}

#[test]
fn references_take_the_size_of_their_target() {
    assert_eq!(<&u16 as StaticDataSize>::static_data_size(), 2);
    assert_eq!(<&mut u16 as StaticDataSize>::static_data_size(), 2);
    let mut x = 5u64;
    let r = &mut x;
    assert_eq!(r.data_size(), 8);
}
