//! The type-cast layer: wire strings to typed values and back.
//!
//! The forward cast reads a cell's wire string under its column's type;
//! the reverse cast renders a typed value as a bind-parameter string.
//! On every value the forward cast accepts in a type's canonical form,
//! the reverse cast rebuilds the original string byte for byte
//! (`lemma_cast_roundtrip`).

use vstd::prelude::*;

use crate::cell::{CellValue, Column, ColumnType, TimestampTzValue};
use crate::decimal::{
    decimal_str, decimal_str_fits, format_decimal, is_canonical_decimal_str, parse_decimal, pow10,
};
use crate::errors::{ErrorKind, SnowflakeError};
use crate::hexbin::{decode_hex, encode_hex, hex_of, is_lower_hex, lemma_hex_roundtrip};
use crate::numeric::{
    dec_digits, digits_val, format_i128, format_u128, int_str, int_str_val, is_canonical_int_str,
    is_canonical_nat_str, lemma_canonical_roundtrip, lemma_dec_digits_canonical, parse_i128,
    parse_u128,
};

verus! {

/// A fractional-seconds wire value beyond this count of seconds is
/// rejected rather than risk overflowing the nanosecond value.
pub const MAX_WIRE_SECONDS: u128 = 4_000_000_000_000_000_000;

/// Relies on serde_json::from_str::<serde_json::Value>: whether a text
/// is well-formed JSON depends on its characters alone.
pub uninterp spec fn json_valid(s: Seq<char>) -> bool;

/// Relies on serde_json::from_str::<serde_json::Value> to validate the
/// embedded JSON text of a semi-structured cell.
#[verifier::external_body]
fn json_is_valid(s: &str) -> (r: bool)
    ensures
        r == json_valid(s@),
{
    serde_json::from_str::<serde_json::Value>(s).is_ok()
}

/// The bind-parameter rendering of a typed value; `None` for null.
pub open spec fn cell_wire_str(v: CellValue) -> Option<Seq<char>> {
    match v {
        CellValue::Fixed(o) => match o {
            Some(d) => Some(decimal_str(d)),
            None => None,
        },
        CellValue::Decfloat(o) => match o {
            Some(d) => Some(decimal_str(d)),
            None => None,
        },
        CellValue::Real(o) => match o {
            Some(s) => Some(s@),
            None => None,
        },
        CellValue::Text(o) => match o {
            Some(s) => Some(s@),
            None => None,
        },
        CellValue::Boolean(o) => match o {
            Some(b) => Some(
                if b {
                    "true"@
                } else {
                    "false"@
                },
            ),
            None => None,
        },
        CellValue::Variant(o) => match o {
            Some(s) => Some(s@),
            None => None,
        },
        CellValue::Object(o) => match o {
            Some(s) => Some(s@),
            None => None,
        },
        CellValue::Array(o) => match o {
            Some(s) => Some(s@),
            None => None,
        },
        CellValue::Mapping(o) => match o {
            Some(s) => Some(s@),
            None => None,
        },
        CellValue::TimestampLtz(o) => match o {
            Some(n) => Some(int_str(n as int)),
            None => None,
        },
        CellValue::TimestampNtz(o) => match o {
            Some(n) => Some(int_str(n as int)),
            None => None,
        },
        CellValue::TimestampTz(o) => match o {
            Some(t) => Some(
                int_str(t.nanos as int) + seq![' '] + int_str(t.offset_minutes as int + 1440),
            ),
            None => None,
        },
        CellValue::Time(o) => match o {
            Some(n) => Some(int_str(n as int)),
            None => None,
        },
        CellValue::Date(o) => match o {
            Some(d) => Some(int_str(d as int)),
            None => None,
        },
        CellValue::Binary(o) => match o {
            Some(b) => Some(hex_of(b@)),
            None => None,
        },
        CellValue::Null => None,
        CellValue::Slice(o) => match o {
            Some(s) => Some(s@),
            None => None,
        },
        CellValue::ChangeType(o) => match o {
            Some(s) => Some(s@),
            None => None,
        },
        CellValue::NotSupported(o) => match o {
            Some(s) => Some(s@),
            None => None,
        },
    }
}

/// Renders a typed value as its bind-parameter string; `None` for null.
pub fn reverse_cast(v: &CellValue) -> (r: Option<String>)
    ensures
        match r {
            Some(s) => cell_wire_str(*v) == Some(s@),
            None => cell_wire_str(*v) is None,
        },
{
    match v {
        CellValue::Fixed(o) => match o {
            Some(d) => Some(format_decimal(d)),
            None => None,
        },
        CellValue::Decfloat(o) => match o {
            Some(d) => Some(format_decimal(d)),
            None => None,
        },
        CellValue::Real(o) => match o {
            Some(s) => Some(s.clone()),
            None => None,
        },
        CellValue::Text(o) => match o {
            Some(s) => Some(s.clone()),
            None => None,
        },
        CellValue::Boolean(o) => match o {
            Some(b) => Some(
                if *b {
                    String::from_str("true")
                } else {
                    String::from_str("false")
                },
            ),
            None => None,
        },
        CellValue::Variant(o) => match o {
            Some(s) => Some(s.clone()),
            None => None,
        },
        CellValue::Object(o) => match o {
            Some(s) => Some(s.clone()),
            None => None,
        },
        CellValue::Array(o) => match o {
            Some(s) => Some(s.clone()),
            None => None,
        },
        CellValue::Mapping(o) => match o {
            Some(s) => Some(s.clone()),
            None => None,
        },
        CellValue::TimestampLtz(o) => match o {
            Some(n) => Some(format_i128(*n)),
            None => None,
        },
        CellValue::TimestampNtz(o) => match o {
            Some(n) => Some(format_i128(*n)),
            None => None,
        },
        CellValue::TimestampTz(o) => match o {
            Some(t) => {
                let mut out = format_i128(t.nanos);
                out.append(" ");
                let off = format_i128((t.offset_minutes as i128) + 1440);
                out.append(off.as_str());
                proof {
                    reveal_strlit(" ");
                    assert(out@ =~= int_str(t.nanos as int) + seq![' '] + int_str(
                        t.offset_minutes as int + 1440,
                    ));
                }
                Some(out)
            },
            None => None,
        },
        CellValue::Time(o) => match o {
            Some(n) => Some(format_i128(*n)),
            None => None,
        },
        CellValue::Date(o) => match o {
            Some(d) => Some(format_i128(*d as i128)),
            None => None,
        },
        CellValue::Binary(o) => match o {
            Some(b) => Some(encode_hex(b)),
            None => None,
        },
        CellValue::Null => None,
        CellValue::Slice(o) => match o {
            Some(s) => Some(s.clone()),
            None => None,
        },
        CellValue::ChangeType(o) => match o {
            Some(s) => Some(s.clone()),
            None => None,
        },
        CellValue::NotSupported(o) => match o {
            Some(s) => Some(s.clone()),
            None => None,
        },
    }
}

/// The human-readable rendering of a value: its wire text, except that
/// binary payloads show their length and nulls read as "None".
pub open spec fn spec_display_string(v: CellValue) -> Seq<char> {
    match v {
        CellValue::Binary(o) => match o {
            Some(b) => "BINARY(length="@ + dec_digits(b@.len()) + ")"@,
            None => "None"@,
        },
        _ => match cell_wire_str(v) {
            Some(s) => s,
            None => "None"@,
        },
    }
}

/// Renders a value for humans; tests and logs use this in place of a
/// formatter.
pub fn display_string(v: &CellValue) -> (r: String)
    ensures
        r@ == spec_display_string(*v),
{
    match v {
        CellValue::Binary(o) => match o {
            Some(b) => {
                let mut out = String::from_str("BINARY(length=");
                let len = format_u128(b.len() as u128);
                out.append(len.as_str());
                out.append(")");
                proof {
                    reveal_strlit("BINARY(length=");
                    reveal_strlit(")");
                    assert(out@ =~= "BINARY(length="@ + dec_digits(b@.len()) + ")"@);
                }
                out
            },
            None => String::from_str("None"),
        },
        _ => match reverse_cast(v) {
            Some(s) => s,
            None => String::from_str("None"),
        },
    }
}

/// A fraction value scaled up to nine digits using the column's scale.
pub open spec fn scaled_frac(f: nat, sc: int) -> nat {
    if 0 <= sc < 9 {
        f * pow10((9 - sc) as nat)
    } else {
        f
    }
}

/// The nanosecond value of a time-family wire value: an integer wire
/// value is already a nanosecond count; a fractional one is seconds
/// and fraction digits, the fraction scaled by the column's scale.
pub open spec fn time_wire_nanos(d: crate::decimal::DecimalValue, col_scale: Option<i64>) -> int {
    let sec: int = if d.negative {
        -(d.int_part as int)
    } else {
        d.int_part as int
    };
    if d.scale == 0 {
        sec
    } else {
        let f: int = match col_scale {
            Some(sc) => scaled_frac(d.frac as nat, sc as int) as int,
            None => 0,
        };
        sec * 1_000_000_000 + f
    }
}

/// The component bounds under which a time-family wire value is
/// accepted.
pub open spec fn time_components_ok(d: crate::decimal::DecimalValue) -> bool {
    if d.scale == 0 {
        d.int_part <= i128::MAX as u128
    } else {
        d.int_part <= MAX_WIRE_SECONDS && d.frac <= u32::MAX as u128
    }
}

proof fn lemma_pow10_values()
    ensures
        pow10(0) == 1,
        pow10(1) == 10,
        pow10(2) == 100,
        pow10(3) == 1000,
        pow10(4) == 10000,
        pow10(5) == 100000,
        pow10(6) == 1000000,
        pow10(7) == 10000000,
        pow10(8) == 100000000,
        pow10(9) == 1000000000,
{
    assert(pow10(0) == 1);
    assert(pow10(1) == 10);
    assert(pow10(2) == 100);
    assert(pow10(3) == 1000);
    assert(pow10(4) == 10000);
    assert(pow10(5) == 100000);
    assert(pow10(6) == 1000000);
    assert(pow10(7) == 10000000);
    assert(pow10(8) == 100000000);
    assert(pow10(9) == 1000000000);
}

fn pow10_u64(k: u32) -> (r: u64)
    requires
        k <= 9,
    ensures
        r as nat == pow10(k as nat),
{
    proof {
        lemma_pow10_values();
    }
    match k {
        0 => 1,
        1 => 10,
        2 => 100,
        3 => 1000,
        4 => 10000,
        5 => 100000,
        6 => 1000000,
        7 => 10000000,
        8 => 100000000,
        _ => 1000000000,
    }
}

/// Interprets a parsed time-family wire value as nanoseconds.
pub fn time_nanos_from_decimal(d: &crate::decimal::DecimalValue, col_scale: Option<i64>) -> (r:
    Result<i128, SnowflakeError>)
    ensures
        match r {
            Ok(n) => time_components_ok(*d) && n as int == time_wire_nanos(*d, col_scale),
            Err(e) => !time_components_ok(*d) && e.kind == ErrorKind::TypeCastError,
        },
{
    if d.scale == 0 {
        if d.int_part > i128::MAX as u128 {
            return Err(
                SnowflakeError::new(
                    ErrorKind::TypeCastError,
                    String::from_str("time value out of range"),
                ),
            );
        }
        let n = d.int_part as i128;
        if d.negative {
            Ok(-n)
        } else {
            Ok(n)
        }
    } else {
        if d.int_part > MAX_WIRE_SECONDS {
            return Err(
                SnowflakeError::new(
                    ErrorKind::TypeCastError,
                    String::from_str("time seconds out of range"),
                ),
            );
        }
        if d.frac > u32::MAX as u128 {
            return Err(
                SnowflakeError::new(
                    ErrorKind::TypeCastError,
                    String::from_str("time fraction out of range"),
                ),
            );
        }
        let f: u64 = match col_scale {
            Some(sc) => {
                if 0 <= sc && sc < 9 {
                    let p = pow10_u64((9 - sc) as u32);
                    proof {
                        lemma_pow10_values();
                        assert((d.frac as nat) * (p as nat) <= (u32::MAX as nat) * 1000000000)
                            by (nonlinear_arith)
                            requires
                                d.frac as nat <= u32::MAX as nat,
                                p as nat <= 1000000000,
                        ;
                    }
                    (d.frac as u64) * p
                } else {
                    d.frac as u64
                }
            },
            None => 0,
        };
        let base = (d.int_part as i128) * 1_000_000_000;
        proof {
            assert((d.int_part as int) * 1_000_000_000 <= (MAX_WIRE_SECONDS as int)
                * 1_000_000_000) by (nonlinear_arith)
                requires
                    d.int_part as int <= MAX_WIRE_SECONDS as int,
            ;
        }
        if d.negative {
            Ok((-base) + f as i128)
        } else {
            Ok(base + f as i128)
        }
    }
}

/// `k` is the first ' ' of `s`.
pub open spec fn is_first_space(s: Seq<char>, k: int) -> bool {
    &&& 0 <= k < s.len()
    &&& s[k] == ' '
    &&& forall|j: int| 0 <= j < k ==> s[j] != ' '
}

/// Some reason a TIMESTAMP_TZ wire value is rejected: no space, a time
/// part that is not an accepted time-family value, or an offset outside
/// the shifted range.
pub open spec fn tz_wire_bad(s: Seq<char>) -> bool {
    ||| !(exists|k: int| is_first_space(s, k))
    ||| (exists|k: int|
        #[trigger] is_first_space(s, k) && !(is_canonical_decimal_str(s.take(k))
            && decimal_str_fits(s.take(k))))
    ||| (exists|k: int|
        #[trigger] is_first_space(s, k) && time_bad_value(s.take(k)))
    ||| (exists|k: int|
        #[trigger] is_first_space(s, k) && !(is_canonical_nat_str(s.skip(k + 1)) && 0 < digits_val(
            s.skip(k + 1),
        ) < 2880))
}

/// The whole TIMESTAMP_TZ wire string `s`, split at its first space
/// `k`, reads as the timestamp `tv` through the decimal `d`.
pub open spec fn tz_wire_match(
    s: Seq<char>,
    col_scale: Option<i64>,
    tv: TimestampTzValue,
    k: int,
    d: crate::decimal::DecimalValue,
) -> bool {
    &&& is_first_space(s, k)
    &&& time_wire_match(s.take(k), col_scale, tv.nanos, d)
    &&& digits_val(s.skip(k + 1)) == tv.offset_minutes + 1440
    &&& is_canonical_nat_str(s.skip(k + 1))
    &&& 0 < tv.offset_minutes + 1440 < 2880
}

/// `tv` is the reading of the TIMESTAMP_TZ wire string `s`.
pub open spec fn tz_ok_value(s: Seq<char>, col_scale: Option<i64>, tv: TimestampTzValue) -> bool {
    exists|k: int, d: crate::decimal::DecimalValue| #[trigger] tz_wire_match(s, col_scale, tv, k, d)
}

/// What the forward cast must return for each column type.
///
/// For every type this relation is an if-and-only-if: it says exactly
/// on which strings the cast succeeds, what value it then yields, and
/// which error class it otherwise reports.
pub open spec fn forward_spec(
    t: ColumnType,
    col_scale: Option<i64>,
    s: Seq<char>,
    r: Result<CellValue, SnowflakeError>,
) -> bool {
    match t {
        ColumnType::Text => match r {
            Ok(v) => v matches CellValue::Text(Some(x)) && x@ == s,
            Err(_) => false,
        },
        ColumnType::ChangeType => match r {
            Ok(v) => v matches CellValue::ChangeType(Some(x)) && x@ == s,
            Err(_) => false,
        },
        ColumnType::NotSupported => match r {
            Ok(v) => v matches CellValue::NotSupported(Some(x)) && x@ == s,
            Err(_) => false,
        },
        ColumnType::Real => match r {
            Ok(v) => v matches CellValue::Real(Some(x)) && x@ == s,
            Err(_) => false,
        },
        ColumnType::Null => match r {
            Ok(v) => v == CellValue::Null,
            Err(_) => false,
        },
        ColumnType::Slice => match r {
            Ok(_) => false,
            Err(e) => e.kind == ErrorKind::UnsupportedOperation && e.message@
                == "the SLICE column type has no defined cast"@,
        },
        ColumnType::Boolean => match r {
            Ok(v) => v == CellValue::Boolean(Some(s == "true"@)),
            Err(_) => false,
        },
        ColumnType::Fixed => match r {
            Ok(v) => v matches CellValue::Fixed(Some(d)) && s == decimal_str(d),
            Err(e) => !(is_canonical_decimal_str(s) && decimal_str_fits(s)) && e.kind
                == ErrorKind::TypeCastError,
        },
        ColumnType::Decfloat => match r {
            Ok(v) => v matches CellValue::Decfloat(Some(d)) && s == decimal_str(d),
            Err(e) => !(is_canonical_decimal_str(s) && decimal_str_fits(s)) && e.kind
                == ErrorKind::TypeCastError,
        },
        ColumnType::Date => match r {
            Ok(v) => v matches CellValue::Date(Some(d)) && s == int_str(d as int),
            Err(e) => !(is_canonical_int_str(s) && i64::MIN <= int_str_val(s) <= i64::MAX)
                && e.kind == ErrorKind::TypeCastError,
        },
        ColumnType::Variant => match r {
            Ok(v) => v matches CellValue::Variant(Some(x)) && x@ == s && json_valid(s),
            Err(e) => !json_valid(s) && e.kind == ErrorKind::TypeCastError,
        },
        ColumnType::Object => match r {
            Ok(v) => v matches CellValue::Object(Some(x)) && x@ == s && json_valid(s),
            Err(e) => !json_valid(s) && e.kind == ErrorKind::TypeCastError,
        },
        ColumnType::Array => match r {
            Ok(v) => v matches CellValue::Array(Some(x)) && x@ == s && json_valid(s),
            Err(e) => !json_valid(s) && e.kind == ErrorKind::TypeCastError,
        },
        ColumnType::Mapping => match r {
            Ok(v) => v matches CellValue::Mapping(Some(x)) && x@ == s && json_valid(s),
            Err(e) => !json_valid(s) && e.kind == ErrorKind::TypeCastError,
        },
        ColumnType::Binary => match r {
            Ok(v) => v matches CellValue::Binary(Some(b)) && s.len() == b@.len() * 2 && (forall|
                i: int,
            |
                0 <= i < b@.len() ==> (#[trigger] b@[i]) as nat == 16 * crate::hexbin::hex_val(
                    s[2 * i],
                ) + crate::hexbin::hex_val(s[2 * i + 1])) && crate::hexbin::all_hex(s),
            Err(e) => !(crate::hexbin::all_hex(s) && s.len() % 2 == 0) && e.kind
                == ErrorKind::TypeCastError,
        },
        ColumnType::Time => time_family_spec(s, col_scale, r, TimeFamily::Time),
        ColumnType::TimestampNtz => time_family_spec(s, col_scale, r, TimeFamily::Ntz),
        ColumnType::TimestampLtz => time_family_spec(s, col_scale, r, TimeFamily::Ltz),
        ColumnType::TimestampTz => match r {
            Ok(v) => v matches CellValue::TimestampTz(Some(tv)) && tz_ok_value(s, col_scale, tv),
            Err(e) => tz_wire_bad(s) && e.kind == ErrorKind::TypeCastError,
        },
    }
}

pub enum TimeFamily {
    Time,
    Ntz,
    Ltz,
}

/// One specific well-formed decimal is the reading of `s`, and `n` is
/// its nanosecond value.
pub open spec fn time_wire_match(
    s: Seq<char>,
    col_scale: Option<i64>,
    n: i128,
    d: crate::decimal::DecimalValue,
) -> bool {
    &&& s == decimal_str(d)
    &&& crate::decimal::decimal_wf(d)
    &&& time_components_ok(d)
    &&& n as int == time_wire_nanos(d, col_scale)
}

/// `n` is the nanosecond value of the time-family wire string `s`.
pub open spec fn time_ok_value(s: Seq<char>, col_scale: Option<i64>, n: i128) -> bool {
    exists|d: crate::decimal::DecimalValue| #[trigger] time_wire_match(s, col_scale, n, d)
}

/// The reading of `s` is out of the component bounds.
pub open spec fn time_bad_value(s: Seq<char>) -> bool {
    exists|d: crate::decimal::DecimalValue|
        s == #[trigger] decimal_str(d) && crate::decimal::decimal_wf(d) && !time_components_ok(d)
}

/// The shared contract of TIME, TIMESTAMP_NTZ and TIMESTAMP_LTZ: the
/// wire value is a time-family decimal, and the cell holds its
/// nanosecond count under the matching variant.
pub open spec fn time_family_spec(
    s: Seq<char>,
    col_scale: Option<i64>,
    r: Result<CellValue, SnowflakeError>,
    fam: TimeFamily,
) -> bool {
    match r {
        Ok(v) => match fam {
            TimeFamily::Time => v matches CellValue::Time(Some(n)) && time_ok_value(
                s,
                col_scale,
                n,
            ),
            TimeFamily::Ntz => v matches CellValue::TimestampNtz(Some(n)) && time_ok_value(
                s,
                col_scale,
                n,
            ),
            TimeFamily::Ltz => v matches CellValue::TimestampLtz(Some(n)) && time_ok_value(
                s,
                col_scale,
                n,
            ),
        },
        Err(e) => {
            &&& (!(is_canonical_decimal_str(s) && decimal_str_fits(s)) || time_bad_value(s))
            &&& e.kind == ErrorKind::TypeCastError
        },
    }
}

fn cast_error(msg: &str) -> (r: SnowflakeError)
    ensures
        r.kind == ErrorKind::TypeCastError,
{
    SnowflakeError::new(ErrorKind::TypeCastError, String::from_str(msg))
}

/// Casts one wire string to a typed value under its column's type: the
/// forward direction of the type-cast layer.
#[verifier::rlimit(60)]
pub fn forward_cast(col: &Column, s: &str) -> (r: Result<CellValue, SnowflakeError>)
    ensures
        forward_spec(col.col_type, col.scale, s@, r),
{
    match col.col_type {
        ColumnType::Text => Ok(CellValue::Text(Some(s.to_owned()))),
        ColumnType::ChangeType => Ok(CellValue::ChangeType(Some(s.to_owned()))),
        ColumnType::NotSupported => Ok(CellValue::NotSupported(Some(s.to_owned()))),
        ColumnType::Real => Ok(CellValue::Real(Some(s.to_owned()))),
        ColumnType::Null => Ok(CellValue::Null),
        ColumnType::Slice => Err(
            SnowflakeError::new(
                ErrorKind::UnsupportedOperation,
                String::from_str("the SLICE column type has no defined cast"),
            ),
        ),
        ColumnType::Boolean => Ok(CellValue::Boolean(Some(crate::strutil::str_eq(s, "true")))),
        ColumnType::Fixed => match parse_decimal(s) {
            Some(d) => Ok(CellValue::Fixed(Some(d))),
            None => Err(cast_error("failed to convert FIXED cell to a decimal")),
        },
        ColumnType::Decfloat => match parse_decimal(s) {
            Some(d) => Ok(CellValue::Decfloat(Some(d))),
            None => Err(cast_error("failed to convert DECFLOAT cell to a decimal")),
        },
        ColumnType::Date => match parse_i128(s) {
            Some(v) => {
                if v < i64::MIN as i128 || v > i64::MAX as i128 {
                    Err(cast_error("DATE cell out of range"))
                } else {
                    Ok(CellValue::Date(Some(v as i64)))
                }
            },
            None => Err(cast_error("failed to decode DATE cell as a day count")),
        },
        ColumnType::Variant => {
            if json_is_valid(s) {
                Ok(CellValue::Variant(Some(s.to_owned())))
            } else {
                Err(cast_error("failed to parse VARIANT cell as JSON"))
            }
        },
        ColumnType::Object => {
            if json_is_valid(s) {
                Ok(CellValue::Object(Some(s.to_owned())))
            } else {
                Err(cast_error("failed to parse OBJECT cell as JSON"))
            }
        },
        ColumnType::Array => {
            if json_is_valid(s) {
                Ok(CellValue::Array(Some(s.to_owned())))
            } else {
                Err(cast_error("failed to parse ARRAY cell as JSON"))
            }
        },
        ColumnType::Mapping => {
            if json_is_valid(s) {
                Ok(CellValue::Mapping(Some(s.to_owned())))
            } else {
                Err(cast_error("failed to parse MAP cell as JSON"))
            }
        },
        ColumnType::Binary => match decode_hex(s) {
            Some(b) => Ok(CellValue::Binary(Some(b))),
            None => Err(cast_error("failed to decode BINARY cell as hex")),
        },
        ColumnType::Time => match parse_decimal(s) {
            Some(d) => match time_nanos_from_decimal(&d, col.scale) {
                Ok(n) => {
                    proof {
                        assert(time_wire_match(s@, col.scale, n, d));
                    }
                    Ok(CellValue::Time(Some(n)))
                },
                Err(e) => {
                    proof {
                        assert(s@ == decimal_str(d) && crate::decimal::decimal_wf(d)
                            && !time_components_ok(d));
                    }
                    Err(e)
                },
            },
            None => Err(cast_error("failed to decode TIME cell")),
        },
        ColumnType::TimestampNtz => match parse_decimal(s) {
            Some(d) => match time_nanos_from_decimal(&d, col.scale) {
                Ok(n) => {
                    proof {
                        assert(time_wire_match(s@, col.scale, n, d));
                    }
                    Ok(CellValue::TimestampNtz(Some(n)))
                },
                Err(e) => {
                    proof {
                        assert(s@ == decimal_str(d) && crate::decimal::decimal_wf(d)
                            && !time_components_ok(d));
                    }
                    Err(e)
                },
            },
            None => Err(cast_error("failed to decode TIMESTAMP_NTZ cell")),
        },
        ColumnType::TimestampLtz => match parse_decimal(s) {
            Some(d) => match time_nanos_from_decimal(&d, col.scale) {
                Ok(n) => {
                    proof {
                        assert(time_wire_match(s@, col.scale, n, d));
                    }
                    Ok(CellValue::TimestampLtz(Some(n)))
                },
                Err(e) => {
                    proof {
                        assert(s@ == decimal_str(d) && crate::decimal::decimal_wf(d)
                            && !time_components_ok(d));
                    }
                    Err(e)
                },
            },
            None => Err(cast_error("failed to decode TIMESTAMP_LTZ cell")),
        },
        ColumnType::TimestampTz => forward_cast_tz(col, s),
    }
}

/// A time-family value in its canonical integer (nanosecond) form
/// renders back to its own wire string.
proof fn lemma_time_value_str(d: crate::decimal::DecimalValue, col_scale: Option<i64>, n: i128)
    requires
        crate::decimal::decimal_wf(d),
        time_components_ok(d),
        n as int == time_wire_nanos(d, col_scale),
        forall|i: int| 0 <= i < decimal_str(d).len() ==> decimal_str(d)[i] != '.',
        !(d.negative && d.int_part == 0),
    ensures
        int_str(n as int) == decimal_str(d),
{
    let s = decimal_str(d);
    lemma_dec_digits_canonical(d.int_part as nat);
    if d.scale != 0 {
        let sign_len: int = if d.negative {
            1
        } else {
            0
        };
        let idx = sign_len + dec_digits(d.int_part as nat).len();
        assert(s[idx] == '.');
        assert(false);
    }
    if d.negative {
        assert(d.int_part > 0);
        assert(n as int == -(d.int_part as int));
        assert(int_str(n as int) =~= seq!['-'] + dec_digits(d.int_part as nat));
        assert(s =~= seq!['-'] + dec_digits(d.int_part as nat));
    } else {
        assert(n as int == d.int_part as int);
        assert(s =~= dec_digits(d.int_part as nat));
    }
}

/// The spelling "false" is not the spelling "true", so a false cell
/// renders back to the "false" that produced it.
proof fn proof_boolean_false_spelling(s: Seq<char>, v: CellValue)
    requires
        s == "false"@,
        v == CellValue::Boolean(Some(s == "true"@)),
    ensures
        cell_wire_str(v) == Some(s),
{
    reveal_strlit("true");
    reveal_strlit("false");
    assert("true"@.len() == 4);
    assert("false"@.len() == 5);
    assert(s != "true"@);
    assert(v == CellValue::Boolean(Some(false)));
}

/// For every supported column type, a wire value accepted in the type's
/// canonical form is rebuilt byte for byte by the reverse cast.
///
/// The canonical forms exclude the readable but non-canonical
/// spellings whose reading is re-rendered differently: uppercase hex in
/// BINARY cells, the fractional-seconds time form, the time value `-0`,
/// and BOOLEAN spellings other than "true"/"false" (which read as
/// false). NULL columns and the SLICE type have no rendering at all.
pub proof fn lemma_cast_roundtrip(
    t: ColumnType,
    col_scale: Option<i64>,
    s: Seq<char>,
    v: CellValue,
)
    requires
        forward_spec(t, col_scale, s, Result::<CellValue, SnowflakeError>::Ok(v)),
        t != ColumnType::Null,
        t != ColumnType::Slice,
        t == ColumnType::Binary ==> is_lower_hex(s),
        t == ColumnType::Boolean ==> (s == "true"@ || s == "false"@),
        (t == ColumnType::Time || t == ColumnType::TimestampNtz || t == ColumnType::TimestampLtz
            || t == ColumnType::TimestampTz) ==> (forall|i: int|
            0 <= i < s.len() ==> s[i] != '.') && ((s.len() >= 2 && s[0] == '-') ==> s[1] != '0'),
    ensures
        cell_wire_str(v) == Some(s),
{
    match t {
        ColumnType::Boolean => {
            if s == "true"@ {
                assert(cell_wire_str(v) == Some("true"@));
            } else {
                proof_boolean_false_spelling(s, v);
            }
        },
        ColumnType::Binary => {
            match v {
                CellValue::Binary(Some(b)) => {
                    lemma_hex_roundtrip(s, b@);
                },
                _ => {
                    assert(false);
                },
            }
        },
        ColumnType::Time | ColumnType::TimestampNtz | ColumnType::TimestampLtz => {
            let n: i128 = match v {
                CellValue::Time(Some(n)) => n,
                CellValue::TimestampNtz(Some(n)) => n,
                CellValue::TimestampLtz(Some(n)) => n,
                _ => arbitrary(),
            };
            assert(time_ok_value(s, col_scale, n));
            let d = choose|d: crate::decimal::DecimalValue|
                #[trigger] time_wire_match(s, col_scale, n, d);
            lemma_dec_digits_canonical(d.int_part as nat);
            if d.negative && d.int_part == 0 {
                assert(s[1] == '0');
                assert(false);
            }
            lemma_time_value_str(d, col_scale, n);
        },
        ColumnType::TimestampTz => {
            let tv: TimestampTzValue = match v {
                CellValue::TimestampTz(Some(tv)) => tv,
                _ => arbitrary(),
            };
            assert(tz_ok_value(s, col_scale, tv));
            let (k, d) = choose|k: int, d: crate::decimal::DecimalValue|
                #[trigger] tz_wire_match(s, col_scale, tv, k, d);
            let left = s.take(k);
            let right = s.skip(k + 1);
            lemma_dec_digits_canonical(d.int_part as nat);
            assert(forall|i: int| 0 <= i < left.len() ==> left[i] == s[i]);
            if d.negative && d.int_part == 0 {
                assert(left =~= seq!['-'] + dec_digits(0));
                assert(left.len() == 2);
                assert(s[0] == '-' && s[1] == '0');
                assert(false);
            }
            if d.negative {
                assert(left[0] == '-');
                assert(left.len() >= 2);
                assert(s[0] == '-' && s[1] == left[1]);
            }
            lemma_time_value_str(d, col_scale, tv.nanos);
            let o = tv.offset_minutes + 1440;
            assert(digits_val(right) == o);
            lemma_canonical_roundtrip(right);
            assert(dec_digits(o as nat) == right);
            assert(int_str(tv.offset_minutes as int + 1440) == right);
            assert(int_str(tv.nanos as int) == left);
            assert(s =~= left + seq![s[k]] + right);
            assert(s[k] == ' ');
            assert(cell_wire_str(v) == Some(
                int_str(tv.nanos as int) + seq![' '] + int_str(tv.offset_minutes as int + 1440),
            ));
            assert(int_str(tv.nanos as int) + seq![' '] + int_str(
                tv.offset_minutes as int + 1440,
            ) =~= s);
        },
        _ => {},
    }
}

/// Casts a TIMESTAMP_TZ wire value: `<time> <offset-minutes+1440>`.
fn forward_cast_tz(col: &Column, s: &str) -> (r: Result<CellValue, SnowflakeError>)
    ensures
        forward_spec(ColumnType::TimestampTz, col.scale, s@, r),
{
    let len = s.unicode_len();
    let mut space: usize = len;
    let mut i: usize = 0;
    let mut found = false;
    while i < len
        invariant
            len == s@.len(),
            i <= len,
            !found ==> forall|j: int| 0 <= j < i ==> s@[j] != ' ',
            found ==> is_first_space(s@, space as int),
            found ==> space < len,
        decreases len - i,
    {
        if !found && s.get_char(i) == ' ' {
            space = i;
            found = true;
        }
        i = i + 1;
    }
    if !found {
        proof {
            assert(forall|k: int| !is_first_space(s@, k));
        }
        return Err(cast_error("malformed TIMESTAMP_TZ cell"));
    }
    let left = s.substring_char(0, space);
    let right = s.substring_char(space + 1, len);
    proof {
        assert(left@ =~= s@.take(space as int));
        assert(right@ =~= s@.skip(space as int + 1));
    }
    let d = match parse_decimal(left) {
        Some(d) => d,
        None => {
            proof {
                assert(tz_wire_bad(s@));
            }
            return Err(cast_error("failed to decode TIMESTAMP_TZ time part"));
        },
    };
    let nanos = match time_nanos_from_decimal(&d, col.scale) {
        Ok(n) => n,
        Err(e) => {
            proof {
                assert(s@.take(space as int) == decimal_str(d) && crate::decimal::decimal_wf(d)
                    && !time_components_ok(d));
                assert(time_bad_value(s@.take(space as int)));
                assert(is_first_space(s@, space as int));
                assert(tz_wire_bad(s@));
            }
            return Err(e);
        },
    };
    let off = match parse_u128(right) {
        Some(o) => o,
        None => {
            proof {
                if is_canonical_nat_str(s@.skip(space as int + 1)) && 0 < digits_val(
                    s@.skip(space as int + 1),
                ) < 2880 {
                    assert(false);
                }
                assert(tz_wire_bad(s@));
            }
            return Err(cast_error("failed to decode TIMESTAMP_TZ offset"));
        },
    };
    if off == 0 || off >= 2880 {
        proof {
            assert(is_first_space(s@, space as int) && !(is_canonical_nat_str(
                s@.skip(space as int + 1),
            ) && 0 < digits_val(s@.skip(space as int + 1)) < 2880));
            assert(tz_wire_bad(s@));
        }
        return Err(cast_error("invalid offset in TIMESTAMP_TZ cell"));
    }
    let tv = TimestampTzValue { nanos, offset_minutes: (off as i32) - 1440 };
    proof {
        lemma_dec_digits_canonical(off as nat);
        assert(tz_wire_match(s@, col.scale, tv, space as int, d));
    }
    Ok(CellValue::TimestampTz(Some(tv)))
}

} // verus!
