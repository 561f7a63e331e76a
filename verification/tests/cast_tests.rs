use snowflake_driver::cast::{display_string, forward_cast, reverse_cast};
use snowflake_driver::cell::{CellValue, Column, ColumnType, TimestampTzValue};
use snowflake_driver::decimal::{format_decimal, parse_decimal, DecimalValue};
use snowflake_driver::errors::ErrorKind;
use snowflake_driver::hexbin::{decode_hex, encode_hex};
use snowflake_driver::numeric::{format_i128, format_u128, parse_i128, parse_u128};

fn col(t: ColumnType, scale: Option<i64>) -> Column {
    Column {
        col_type: t,
        name: String::from("c"),
        precision: Some(38),
        scale,
        nullable: true,
    }
}

fn round_trips(t: ColumnType, scale: Option<i64>, wire: &str) {
    let v = forward_cast(&col(t, scale), wire).expect("forward cast should accept");
    let back = reverse_cast(&v).expect("reverse cast should render");
    assert_eq!(back, wire);
}

#[test]
fn fixed_round_trips() {
    round_trips(ColumnType::Fixed, Some(2), "123.45");
    round_trips(ColumnType::Fixed, Some(2), "-12.340");
    round_trips(ColumnType::Fixed, Some(0), "0");
    round_trips(ColumnType::Fixed, Some(0), "-7");
    round_trips(ColumnType::Decfloat, Some(3), "0.001");
}

#[test]
fn fixed_parses_exact_components() {
    let v = forward_cast(&col(ColumnType::Fixed, Some(2)), "-12.34").unwrap();
    assert_eq!(
        v,
        CellValue::Fixed(Some(DecimalValue {
            negative: true,
            int_part: 12,
            frac: 34,
            scale: 2,
        }))
    );
}

#[test]
fn fixed_rejects_junk() {
    let e = forward_cast(&col(ColumnType::Fixed, Some(0)), "12a").unwrap_err();
    assert_eq!(e.kind(), ErrorKind::TypeCastError);
    assert!(forward_cast(&col(ColumnType::Fixed, Some(0)), "007").is_err());
    assert!(forward_cast(&col(ColumnType::Fixed, Some(0)), "1.").is_err());
    assert!(forward_cast(&col(ColumnType::Fixed, Some(0)), "").is_err());
}

#[test]
fn boolean_round_trips_on_its_two_spellings() {
    round_trips(ColumnType::Boolean, None, "true");
    round_trips(ColumnType::Boolean, None, "false");
}

#[test]
fn boolean_reads_any_other_string_as_false() {
    for s in ["yes", "TRUE", "1", ""] {
        let v = forward_cast(&col(ColumnType::Boolean, None), s).unwrap();
        assert_eq!(v, CellValue::Boolean(Some(false)));
    }
    // such a spelling is not canonical: it re-renders as "false"
    let v = forward_cast(&col(ColumnType::Boolean, None), "yes").unwrap();
    assert_eq!(reverse_cast(&v).unwrap(), "false");
}

#[test]
fn date_round_trips() {
    round_trips(ColumnType::Date, None, "19722");
    round_trips(ColumnType::Date, None, "-12");
    let v = forward_cast(&col(ColumnType::Date, None), "19722").unwrap();
    assert_eq!(v, CellValue::Date(Some(19722)));
}

#[test]
fn time_integer_form_round_trips() {
    round_trips(ColumnType::Time, Some(9), "45296000000000");
    let v = forward_cast(&col(ColumnType::Time, Some(9)), "45296000000000").unwrap();
    assert_eq!(v, CellValue::Time(Some(45_296_000_000_000)));
}

#[test]
fn time_fractional_form_scales_up() {
    // "12.345" at scale 3: twelve seconds plus 345 scaled to nine digits
    let v = forward_cast(&col(ColumnType::Time, Some(3)), "12.345").unwrap();
    assert_eq!(v, CellValue::Time(Some(12_345_000_000)));
    // the fractional spelling is not canonical: it re-renders as nanoseconds
    let back = reverse_cast(&v).unwrap();
    assert_eq!(back, "12345000000");
}

#[test]
fn timestamp_ntz_round_trips() {
    round_trips(ColumnType::TimestampNtz, Some(9), "1700000000000000000");
    round_trips(ColumnType::TimestampNtz, Some(9), "-5");
}

#[test]
fn timestamp_tz_parses_offset_shifted_by_1440() {
    let v = forward_cast(
        &col(ColumnType::TimestampTz, Some(9)),
        "1700000000000000000 1500",
    )
    .unwrap();
    assert_eq!(
        v,
        CellValue::TimestampTz(Some(TimestampTzValue {
            nanos: 1_700_000_000_000_000_000,
            offset_minutes: 60,
        }))
    );
    let back = reverse_cast(&v).unwrap();
    assert_eq!(back, "1700000000000000000 1500");
}

#[test]
fn timestamp_tz_rejects_bad_offsets() {
    let c = col(ColumnType::TimestampTz, Some(9));
    assert!(forward_cast(&c, "5 0").is_err());
    assert!(forward_cast(&c, "5 2880").is_err());
    assert!(forward_cast(&c, "5").is_err());
    let e = forward_cast(&c, "5").unwrap_err();
    assert_eq!(e.kind(), ErrorKind::TypeCastError);
}

#[test]
fn binary_lowercase_round_trips() {
    round_trips(ColumnType::Binary, None, "0a1b2c");
    let v = forward_cast(&col(ColumnType::Binary, None), "0a1b2c").unwrap();
    assert_eq!(v, CellValue::Binary(Some(vec![0x0a, 0x1b, 0x2c])));
}

#[test]
fn binary_uppercase_decodes_but_reencodes_lowercase() {
    let v = forward_cast(&col(ColumnType::Binary, None), "AB").unwrap();
    assert_eq!(v, CellValue::Binary(Some(vec![0xab])));
    assert_eq!(reverse_cast(&v).unwrap(), "ab");
}

#[test]
fn binary_rejects_odd_or_junk() {
    assert!(forward_cast(&col(ColumnType::Binary, None), "0a1").is_err());
    assert!(forward_cast(&col(ColumnType::Binary, None), "zz").is_err());
}

#[test]
fn text_and_real_pass_through() {
    round_trips(ColumnType::Text, None, "hello world");
    round_trips(ColumnType::Real, None, "1.50");
    round_trips(ColumnType::ChangeType, None, "x");
    round_trips(ColumnType::NotSupported, None, "y");
}

#[test]
fn variant_requires_valid_json() {
    round_trips(ColumnType::Variant, None, "{\"a\":1}");
    round_trips(ColumnType::Object, None, "{}");
    round_trips(ColumnType::Array, None, "[1,2]");
    round_trips(ColumnType::Mapping, None, "{\"k\":\"v\"}");
    let e = forward_cast(&col(ColumnType::Variant, None), "{\"a\":").unwrap_err();
    assert_eq!(e.kind(), ErrorKind::TypeCastError);
}

#[test]
fn slice_fails_explicitly() {
    let e = forward_cast(&col(ColumnType::Slice, None), "anything").unwrap_err();
    assert_eq!(e.kind(), ErrorKind::UnsupportedOperation);
    assert_eq!(e.message(), "the SLICE column type has no defined cast");
}

#[test]
fn null_column_yields_null_value() {
    let v = forward_cast(&col(ColumnType::Null, None), "whatever").unwrap();
    assert_eq!(v, CellValue::Null);
    assert!(reverse_cast(&v).is_none());
}

#[test]
fn integer_parse_format_are_inverse() {
    assert_eq!(format_u128(0), "0");
    assert_eq!(format_u128(120), "120");
    assert_eq!(parse_u128("120"), Some(120));
    assert_eq!(parse_u128("0120"), None);
    assert_eq!(parse_u128(""), None);
    assert_eq!(parse_i128("-45"), Some(-45));
    assert_eq!(parse_i128("-0"), None);
    assert_eq!(format_i128(-45), "-45");
    assert_eq!(
        parse_i128("-170141183460469231731687303715884105728"),
        Some(i128::MIN)
    );
    assert_eq!(
        format_i128(i128::MIN),
        "-170141183460469231731687303715884105728"
    );
}

#[test]
fn decimal_parse_format_are_inverse() {
    for s in ["0", "0.0", "12.340", "-0.5", "99999", "-123.456"] {
        let d = parse_decimal(s).expect("canonical decimal should parse");
        assert_eq!(format_decimal(&d), s);
    }
    assert_eq!(parse_decimal("1."), None);
    assert_eq!(parse_decimal(".5"), None);
    assert_eq!(parse_decimal("+1"), None);
    assert_eq!(parse_decimal("1..2"), None);
}

#[test]
fn display_strings_read_naturally() {
    assert_eq!(display_string(&CellValue::Text(Some(String::from("hi")))), "hi");
    assert_eq!(display_string(&CellValue::Null), "None");
    assert_eq!(display_string(&CellValue::Date(None)), "None");
    assert_eq!(
        display_string(&CellValue::Binary(Some(vec![1, 2, 3]))),
        "BINARY(length=3)"
    );
}

#[test]
fn hex_encode_decode_are_inverse() {
    let bytes = decode_hex("00ff7f").unwrap();
    assert_eq!(bytes, vec![0x00, 0xff, 0x7f]);
    assert_eq!(encode_hex(&bytes), "00ff7f");
    assert!(decode_hex("f").is_none());
    assert!(decode_hex("fg").is_none());
}
