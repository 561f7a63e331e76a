//! The columnar protocol adapter's typed core.
//!
//! Columnar batches arrive self-describing; the decoder (outside the
//! library) reduces each array to plain per-cell values under one of
//! the canonical kinds below. This module owns the two mappings the
//! adapter is built on: which canonical kind each warehouse type is
//! cast to, and how a canonical cell becomes the shared tagged value
//! model. Composite kinds are refused, never guessed.

use vstd::prelude::*;

use crate::cell::{CellValue, Column, ColumnType, TimestampTzValue};
use crate::decimal::{DecimalValue, pow10};
use crate::errors::{ErrorKind, SnowflakeError};

verus! {

/// The canonical columnar type each warehouse type maps to.
#[derive(Clone, Copy, Debug, PartialEq, Eq, Structural)]
pub enum CanonicalKind {
    Int64,
    Decimal128,
    Float64,
    Date32,
    /// Nanosecond timestamps carrying the local zone.
    TimestampLocal,
    /// Nanosecond timestamps without a zone.
    TimestampPlain,
    Binary,
    Time64,
    Boolean,
    Utf8,
}

/// The canonical kind a column is cast to before per-cell extraction:
/// decimals scaled by the declared scale, every timestamp variant to
/// nanosecond precision, binary, boolean, date and time directly, and
/// anything else through text.
pub open spec fn spec_cast_kind(t: ColumnType) -> CanonicalKind {
    match t {
        ColumnType::Fixed => CanonicalKind::Decimal128,
        ColumnType::Decfloat => CanonicalKind::Decimal128,
        ColumnType::Real => CanonicalKind::Float64,
        ColumnType::Date => CanonicalKind::Date32,
        ColumnType::TimestampLtz => CanonicalKind::TimestampLocal,
        ColumnType::TimestampNtz => CanonicalKind::TimestampPlain,
        ColumnType::TimestampTz => CanonicalKind::TimestampPlain,
        ColumnType::Binary => CanonicalKind::Binary,
        ColumnType::Time => CanonicalKind::Time64,
        ColumnType::Boolean => CanonicalKind::Boolean,
        _ => CanonicalKind::Utf8,
    }
}

pub fn cast_kind(t: ColumnType) -> (r: CanonicalKind)
    ensures
        r == spec_cast_kind(t),
{
    match t {
        ColumnType::Fixed => CanonicalKind::Decimal128,
        ColumnType::Decfloat => CanonicalKind::Decimal128,
        ColumnType::Real => CanonicalKind::Float64,
        ColumnType::Date => CanonicalKind::Date32,
        ColumnType::TimestampLtz => CanonicalKind::TimestampLocal,
        ColumnType::TimestampNtz => CanonicalKind::TimestampPlain,
        ColumnType::TimestampTz => CanonicalKind::TimestampPlain,
        ColumnType::Binary => CanonicalKind::Binary,
        ColumnType::Time => CanonicalKind::Time64,
        ColumnType::Boolean => CanonicalKind::Boolean,
        _ => CanonicalKind::Utf8,
    }
}

/// The kind a schema advertises for a column: like the cast mapping,
/// but a zero-scale decimal is advertised as a plain integer.
pub open spec fn spec_schema_kind(t: ColumnType, scale: Option<i64>) -> CanonicalKind {
    if (t == ColumnType::Fixed || t == ColumnType::Decfloat) && scale == Some(0i64) {
        CanonicalKind::Int64
    } else {
        spec_cast_kind(t)
    }
}

pub fn schema_kind(t: ColumnType, scale: Option<i64>) -> (r: CanonicalKind)
    ensures
        r == spec_schema_kind(t, scale),
{
    match t {
        ColumnType::Fixed | ColumnType::Decfloat => {
            if let Some(sc) = scale {
                if sc == 0 {
                    return CanonicalKind::Int64;
                }
            }
            CanonicalKind::Decimal128
        },
        _ => cast_kind(t),
    }
}

/// The whole hours of an offset in minutes, rounded toward zero.
pub open spec fn offset_hours(offset_minutes: int) -> int {
    if offset_minutes >= 0 {
        offset_minutes / 60
    } else {
        -((-offset_minutes) / 60)
    }
}

/// The local zone's offset rendered for a schema: sign, whole hours,
/// ":00".
pub fn local_offset_string(offset_minutes: i32) -> (r: String)
    ensures
        ({
            let hours = offset_hours(offset_minutes as int);
            (hours >= 0 ==> r@ == seq!['+'] + crate::numeric::dec_digits(hours as nat)
                + ":00"@) && (hours < 0 ==> r@ == crate::numeric::int_str(hours) + ":00"@)
        }),
{
    let m64: i64 = offset_minutes as i64;
    let hours64: i64 = if m64 >= 0 {
        m64 / 60
    } else {
        -((-m64) / 60)
    };
    let hours: i32 = hours64 as i32;
    proof {
        assert(hours as int == offset_hours(offset_minutes as int));
    }
    let mut out = String::new();
    if hours >= 0 {
        out.append("+");
        proof {
            reveal_strlit("+");
        }
    }
    let digits = crate::numeric::format_i128(hours as i128);
    out.append(digits.as_str());
    out.append(":00");
    proof {
        if hours >= 0 {
            assert(out@ =~= seq!['+'] + crate::numeric::dec_digits(hours as nat) + ":00"@);
        } else {
            assert(out@ =~= crate::numeric::int_str(hours as int) + ":00"@);
        }
    }
    out
}

/// One decoded column: per-cell plain values under its canonical kind.
/// REAL cells carry their decimal-text rendering. A composite array
/// (list, struct, map, dictionary, union, interval, run-end encoded)
/// arrives as `Unsupported` with its kind's name.
#[derive(Clone, Debug)]
pub enum ArrowColumn {
    Boolean(Vec<Option<bool>>),
    Int64(Vec<Option<i64>>),
    /// Precision, scale, and the scaled mantissas.
    Decimal128(u8, i8, Vec<Option<i128>>),
    Real(Vec<Option<String>>),
    Date32(Vec<Option<i32>>),
    /// Nanoseconds since epoch, no zone.
    TimestampPlain(Vec<Option<i128>>),
    /// The zone's offset in minutes, and nanoseconds since epoch.
    TimestampZoned(i32, Vec<Option<i128>>),
    /// Nanoseconds since midnight.
    Time64(Vec<Option<i64>>),
    Binary(Vec<Option<Vec<u8>>>),
    Utf8(Vec<Option<String>>),
    Unsupported(String),
}

/// A scaled decimal mantissa as a decimal value: non-negative scales
/// split the digits, a negative scale multiplies out.
pub open spec fn spec_decimal_of_mantissa(m: i128, scale: i8) -> DecimalValue {
    let mag = if m < 0 {
        (-m) as nat
    } else {
        m as nat
    };
    if scale >= 1 {
        DecimalValue {
            negative: m < 0,
            int_part: (mag / pow10(scale as nat)) as u128,
            frac: (mag % pow10(scale as nat)) as u128,
            scale: scale as u32,
        }
    } else {
        DecimalValue {
            negative: m < 0,
            int_part: (mag * pow10((-scale) as nat)) as u128,
            frac: 0,
            scale: 0,
        }
    }
}

proof fn lemma_pow10_pos(k: nat)
    ensures
        pow10(k) >= 1,
    decreases k,
{
    if k > 0 {
        lemma_pow10_pos((k - 1) as nat);
    }
}

proof fn lemma_pow10_mono(a: nat, b: nat)
    requires
        a <= b,
    ensures
        pow10(a) <= pow10(b),
    decreases b,
{
    if a < b {
        lemma_pow10_mono(a, (b - 1) as nat);
        lemma_pow10_pos((b - 1) as nat);
    }
}

fn pow10_u128(k: u32) -> (r: u128)
    requires
        k <= 38,
    ensures
        r as nat == pow10(k as nat),
        r >= 1,
{
    let mut r: u128 = 1;
    let mut i: u32 = 0;
    proof {
        lemma_pow10_mono(k as nat, 38);
        crate::decimal::lemma_pow10_38();
    }
    while i < k
        invariant
            i <= k <= 38,
            r as nat == pow10(i as nat),
            pow10(k as nat) < u128::MAX,
        decreases k - i,
    {
        proof {
            lemma_pow10_mono((i + 1) as nat, k as nat);
        }
        r = r * 10;
        i = i + 1;
    }
    proof {
        lemma_pow10_pos(k as nat);
    }
    r
}

/// Converts one scaled mantissa; fails only when a negative scale
/// multiplies the mantissa out of range.
pub fn decimal_of_mantissa(m: i128, scale: i8) -> (r: Result<DecimalValue, SnowflakeError>)
    requires
        -38 <= scale <= 38,
    ensures
        match r {
            Ok(d) => d == spec_decimal_of_mantissa(m, scale),
            Err(e) => e.kind == ErrorKind::TypeCastError && scale < 0,
        },
{
    let mag: u128 = if m < 0 {
        ((-(m + 1)) as u128) + 1
    } else {
        m as u128
    };
    proof {
        assert(mag == if m < 0 {
            (-m) as nat
        } else {
            m as nat
        });
    }
    if scale >= 1 {
        let p = pow10_u128(scale as u32);
        Ok(
            DecimalValue {
                negative: m < 0,
                int_part: mag / p,
                frac: mag % p,
                scale: scale as u32,
            },
        )
    } else if scale == 0 {
        proof {
            assert(mag as nat * pow10(0) == mag as nat) by (nonlinear_arith)
                requires
                    pow10(0) == 1,
            ;
        }
        Ok(DecimalValue { negative: m < 0, int_part: mag, frac: 0, scale: 0 })
    } else {
        let p = pow10_u128((-(scale as i32)) as u32);
        if mag > u128::MAX / p {
            return Err(
                SnowflakeError::new(
                    ErrorKind::TypeCastError,
                    String::from_str("decimal mantissa out of range"),
                ),
            );
        }
        proof {
            let q = u128::MAX / p;
            assert((q as nat) * (p as nat) <= u128::MAX as nat) by (nonlinear_arith)
                requires
                    q == u128::MAX / p,
                    p >= 1,
            ;
            assert((mag as nat) * (p as nat) <= u128::MAX) by (nonlinear_arith)
                requires
                    mag as nat <= q as nat,
                    (q as nat) * (p as nat) <= u128::MAX as nat,
                    p >= 1,
            ;
        }
        Ok(DecimalValue { negative: m < 0, int_part: mag * p, frac: 0, scale: 0 })
    }
}

/// What extracting cell `i` of a decoded column must produce.
pub open spec fn column_cell_spec(
    col: ArrowColumn,
    i: int,
    r: Result<CellValue, SnowflakeError>,
) -> bool {
    match col {
        ArrowColumn::Boolean(vs) => r == Ok::<CellValue, SnowflakeError>(
            CellValue::Boolean(vs@[i]),
        ),
        ArrowColumn::Int64(vs) => match vs@[i] {
            Some(v) => r == Ok::<CellValue, SnowflakeError>(
                CellValue::Fixed(Some(spec_decimal_of_mantissa(v as i128, 0))),
            ),
            None => r == Ok::<CellValue, SnowflakeError>(CellValue::Fixed(None)),
        },
        ArrowColumn::Decimal128(_p, s, vs) => match vs@[i] {
            Some(m) => match r {
                Ok(v) => v == CellValue::Decfloat(Some(spec_decimal_of_mantissa(m, s))),
                Err(e) => e.kind == ErrorKind::TypeCastError && s < 0,
            },
            None => r == Ok::<CellValue, SnowflakeError>(CellValue::Decfloat(None)),
        },
        ArrowColumn::Real(vs) => match vs@[i] {
            Some(s) => r matches Ok(CellValue::Real(Some(x))) && x@ == s@,
            None => r == Ok::<CellValue, SnowflakeError>(CellValue::Real(None)),
        },
        ArrowColumn::Date32(vs) => match vs@[i] {
            Some(d) => r == Ok::<CellValue, SnowflakeError>(CellValue::Date(Some(d as i64))),
            None => r == Ok::<CellValue, SnowflakeError>(CellValue::Date(None)),
        },
        ArrowColumn::TimestampPlain(vs) => match vs@[i] {
            Some(n) => r == Ok::<CellValue, SnowflakeError>(CellValue::TimestampNtz(Some(n))),
            None => r == Ok::<CellValue, SnowflakeError>(CellValue::TimestampNtz(None)),
        },
        ArrowColumn::TimestampZoned(off, vs) => match vs@[i] {
            Some(n) => r == Ok::<CellValue, SnowflakeError>(
                CellValue::TimestampTz(Some(TimestampTzValue { nanos: n, offset_minutes: off })),
            ),
            None => r == Ok::<CellValue, SnowflakeError>(CellValue::TimestampTz(None)),
        },
        ArrowColumn::Time64(vs) => match vs@[i] {
            Some(n) => r == Ok::<CellValue, SnowflakeError>(CellValue::Time(Some(n as i128))),
            None => r == Ok::<CellValue, SnowflakeError>(CellValue::Time(None)),
        },
        ArrowColumn::Binary(vs) => match vs@[i] {
            Some(b) => r matches Ok(CellValue::Binary(Some(x))) && x@ == b@,
            None => r == Ok::<CellValue, SnowflakeError>(CellValue::Binary(None)),
        },
        ArrowColumn::Utf8(vs) => match vs@[i] {
            Some(s) => r matches Ok(CellValue::Text(Some(x))) && x@ == s@,
            None => r == Ok::<CellValue, SnowflakeError>(CellValue::Text(None)),
        },
        ArrowColumn::Unsupported(kind) => r matches Err(e) && e.kind
            == ErrorKind::UnsupportedOperation && e.message@
            == "composite columnar type not supported: "@ + kind@,
    }
}

/// The cell count of a decoded column; a refused kind has none.
pub open spec fn column_len(col: ArrowColumn) -> nat {
    match col {
        ArrowColumn::Boolean(vs) => vs@.len(),
        ArrowColumn::Int64(vs) => vs@.len(),
        ArrowColumn::Decimal128(_, _, vs) => vs@.len(),
        ArrowColumn::Real(vs) => vs@.len(),
        ArrowColumn::Date32(vs) => vs@.len(),
        ArrowColumn::TimestampPlain(vs) => vs@.len(),
        ArrowColumn::TimestampZoned(_, vs) => vs@.len(),
        ArrowColumn::Time64(vs) => vs@.len(),
        ArrowColumn::Binary(vs) => vs@.len(),
        ArrowColumn::Utf8(vs) => vs@.len(),
        ArrowColumn::Unsupported(_) => 0,
    }
}

/// Extracts one cell of a decoded column into the shared tagged value
/// model; a composite column fails explicitly.
pub fn column_cell(col: &ArrowColumn, i: usize) -> (r: Result<CellValue, SnowflakeError>)
    requires
        (i as nat) < column_len(*col) || col matches ArrowColumn::Unsupported(_),
        *col matches ArrowColumn::Decimal128(_, s, _) ==> -38 <= s <= 38,
    ensures
        column_cell_spec(*col, i as int, r),
{
    match col {
        ArrowColumn::Boolean(vs) => Ok(CellValue::Boolean(vs[i])),
        ArrowColumn::Int64(vs) => match vs[i] {
            Some(v) => {
                let d = match decimal_of_mantissa(v as i128, 0) {
                    Ok(d) => d,
                    Err(e) => {
                        return Err(e);
                    },
                };
                Ok(CellValue::Fixed(Some(d)))
            },
            None => Ok(CellValue::Fixed(None)),
        },
        ArrowColumn::Decimal128(_p, s, vs) => match vs[i] {
            Some(m) => match decimal_of_mantissa(m, *s) {
                Ok(d) => Ok(CellValue::Decfloat(Some(d))),
                Err(e) => Err(e),
            },
            None => Ok(CellValue::Decfloat(None)),
        },
        ArrowColumn::Real(vs) => match &vs[i] {
            Some(s) => Ok(CellValue::Real(Some(s.clone()))),
            None => Ok(CellValue::Real(None)),
        },
        ArrowColumn::Date32(vs) => match vs[i] {
            Some(d) => Ok(CellValue::Date(Some(d as i64))),
            None => Ok(CellValue::Date(None)),
        },
        ArrowColumn::TimestampPlain(vs) => match vs[i] {
            Some(n) => Ok(CellValue::TimestampNtz(Some(n))),
            None => Ok(CellValue::TimestampNtz(None)),
        },
        ArrowColumn::TimestampZoned(off, vs) => match vs[i] {
            Some(n) => Ok(
                CellValue::TimestampTz(Some(TimestampTzValue { nanos: n, offset_minutes: *off })),
            ),
            None => Ok(CellValue::TimestampTz(None)),
        },
        ArrowColumn::Time64(vs) => match vs[i] {
            Some(n) => Ok(CellValue::Time(Some(n as i128))),
            None => Ok(CellValue::Time(None)),
        },
        ArrowColumn::Binary(vs) => match &vs[i] {
            Some(b) => {
                let mut copy: Vec<u8> = Vec::new();
                let blen = b.len();
                let mut k: usize = 0;
                while k < blen
                    invariant
                        blen == b@.len(),
                        k <= blen,
                        copy@ =~= b@.take(k as int),
                    decreases blen - k,
                {
                    copy.push(b[k]);
                    proof {
                        assert(copy@ =~= b@.take(k + 1));
                    }
                    k = k + 1;
                }
                proof {
                    assert(copy@ =~= b@);
                }
                Ok(CellValue::Binary(Some(copy)))
            },
            None => Ok(CellValue::Binary(None)),
        },
        ArrowColumn::Utf8(vs) => match &vs[i] {
            Some(s) => Ok(CellValue::Text(Some(s.clone()))),
            None => Ok(CellValue::Text(None)),
        },
        ArrowColumn::Unsupported(kind) => {
            let mut msg = String::from_str("composite columnar type not supported: ");
            msg.append(kind.as_str());
            Err(SnowflakeError::new(ErrorKind::UnsupportedOperation, msg))
        },
    }
}

/// A columnar query result: the raw response, read through the shared
/// result contract.
pub struct ArrowQueryResult {
    pub raw: crate::response::RawQueryResponse,
}

impl ArrowQueryResult {
    pub fn new(raw: crate::response::RawQueryResponse) -> (r: ArrowQueryResult)
        ensures
            r.raw == raw,
    {
        ArrowQueryResult { raw }
    }

    pub fn columns(&self) -> (r: &Vec<Column>)
        ensures
            *r == self.raw.rowtype,
    {
        &self.raw.rowtype
    }

    pub fn expected_result_length(&self) -> (r: i64)
        ensures
            r == self.raw.total,
    {
        self.raw.expected_result_length()
    }

    pub fn is_dml(&self) -> (r: bool)
        ensures
            r == crate::response::spec_is_dml(self.raw.statement_type_id),
    {
        self.raw.is_dml()
    }

    pub fn is_dql(&self) -> (r: bool)
        ensures
            r == crate::response::spec_is_dql(self.raw.statement_type_id),
    {
        self.raw.is_dql()
    }
}

/// A columnar describe result.
pub struct ArrowDescribeResult {
    pub raw: crate::response::RawQueryResponse,
}

impl crate::protocol::DescribeResult for ArrowDescribeResult {
    open spec fn raw_response(&self) -> crate::response::RawQueryResponse {
        self.raw
    }

    fn columns(&self) -> (r: &Vec<Column>) {
        &self.raw.rowtype
    }

    fn bind_metadata(&self) -> (r: &Option<Vec<crate::bindings::BindMetadata>>) {
        &self.raw.meta_data_of_binds
    }

    fn bind_count(&self) -> (r: i32) {
        self.raw.number_of_binds
    }
}

} // verus!
