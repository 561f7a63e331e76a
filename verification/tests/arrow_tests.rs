use snowflake_driver::arrow::{
    cast_kind, column_cell, decimal_of_mantissa, local_offset_string, schema_kind, ArrowColumn,
    CanonicalKind,
};
use snowflake_driver::cell::{CellValue, ColumnType, TimestampTzValue};
use snowflake_driver::decimal::DecimalValue;
use snowflake_driver::errors::ErrorKind;

#[test]
fn every_warehouse_type_maps_to_one_canonical_kind() {
    assert_eq!(cast_kind(ColumnType::Fixed), CanonicalKind::Decimal128);
    assert_eq!(cast_kind(ColumnType::Decfloat), CanonicalKind::Decimal128);
    assert_eq!(cast_kind(ColumnType::Real), CanonicalKind::Float64);
    assert_eq!(cast_kind(ColumnType::Date), CanonicalKind::Date32);
    assert_eq!(cast_kind(ColumnType::TimestampLtz), CanonicalKind::TimestampLocal);
    assert_eq!(cast_kind(ColumnType::TimestampNtz), CanonicalKind::TimestampPlain);
    assert_eq!(cast_kind(ColumnType::TimestampTz), CanonicalKind::TimestampPlain);
    assert_eq!(cast_kind(ColumnType::Binary), CanonicalKind::Binary);
    assert_eq!(cast_kind(ColumnType::Time), CanonicalKind::Time64);
    assert_eq!(cast_kind(ColumnType::Boolean), CanonicalKind::Boolean);
    assert_eq!(cast_kind(ColumnType::Text), CanonicalKind::Utf8);
    assert_eq!(cast_kind(ColumnType::Variant), CanonicalKind::Utf8);
}

#[test]
fn schemas_advertise_zero_scale_decimals_as_integers() {
    assert_eq!(schema_kind(ColumnType::Fixed, Some(0)), CanonicalKind::Int64);
    assert_eq!(schema_kind(ColumnType::Fixed, Some(2)), CanonicalKind::Decimal128);
    assert_eq!(schema_kind(ColumnType::Fixed, None), CanonicalKind::Decimal128);
    assert_eq!(schema_kind(ColumnType::Boolean, Some(0)), CanonicalKind::Boolean);
}

#[test]
fn scaled_mantissas_split_into_digits() {
    assert_eq!(
        decimal_of_mantissa(-1234, 2).unwrap(),
        DecimalValue { negative: true, int_part: 12, frac: 34, scale: 2 }
    );
    assert_eq!(
        decimal_of_mantissa(5, 0).unwrap(),
        DecimalValue { negative: false, int_part: 5, frac: 0, scale: 0 }
    );
    // a negative scale multiplies out
    assert_eq!(
        decimal_of_mantissa(7, -2).unwrap(),
        DecimalValue { negative: false, int_part: 700, frac: 0, scale: 0 }
    );
    assert!(decimal_of_mantissa(i128::MAX, -38).is_err());
}

#[test]
fn cells_extract_into_the_shared_value_model() {
    let c = ArrowColumn::Decimal128(38, 2, vec![Some(-1234), None]);
    assert_eq!(
        column_cell(&c, 0).unwrap(),
        CellValue::Decfloat(Some(DecimalValue { negative: true, int_part: 12, frac: 34, scale: 2 }))
    );
    assert_eq!(column_cell(&c, 1).unwrap(), CellValue::Decfloat(None));

    let b = ArrowColumn::Boolean(vec![Some(true)]);
    assert_eq!(column_cell(&b, 0).unwrap(), CellValue::Boolean(Some(true)));

    let d = ArrowColumn::Date32(vec![Some(19722)]);
    assert_eq!(column_cell(&d, 0).unwrap(), CellValue::Date(Some(19722)));

    let t = ArrowColumn::TimestampZoned(60, vec![Some(1_700_000_000_000_000_000)]);
    assert_eq!(
        column_cell(&t, 0).unwrap(),
        CellValue::TimestampTz(Some(TimestampTzValue {
            nanos: 1_700_000_000_000_000_000,
            offset_minutes: 60,
        }))
    );

    let bin = ArrowColumn::Binary(vec![Some(vec![1, 2, 3])]);
    assert_eq!(column_cell(&bin, 0).unwrap(), CellValue::Binary(Some(vec![1, 2, 3])));

    let s = ArrowColumn::Utf8(vec![Some(String::from("hi"))]);
    assert_eq!(column_cell(&s, 0).unwrap(), CellValue::Text(Some(String::from("hi"))));

    let i = ArrowColumn::Int64(vec![Some(-9)]);
    assert_eq!(
        column_cell(&i, 0).unwrap(),
        CellValue::Fixed(Some(DecimalValue { negative: true, int_part: 9, frac: 0, scale: 0 }))
    );
}

#[test]
fn composite_kinds_fail_explicitly_and_name_the_kind() {
    let c = ArrowColumn::Unsupported(String::from("Struct"));
    let e = column_cell(&c, 0).unwrap_err();
    assert_eq!(e.kind(), ErrorKind::UnsupportedOperation);
    assert_eq!(e.message(), "composite columnar type not supported: Struct");
}

#[test]
fn local_offsets_render_with_sign_and_hours() {
    assert_eq!(local_offset_string(480), "+8:00");
    assert_eq!(local_offset_string(0), "+0:00");
    assert_eq!(local_offset_string(-300), "-5:00");
}
