//! Columns and the tagged value model that cells are cast into.

use vstd::prelude::*;

use crate::decimal::DecimalValue;

verus! {

/// The warehouse type stored in a column.
#[derive(Clone, Copy, Debug, PartialEq, Eq, Structural)]
pub enum ColumnType {
    Fixed,
    Real,
    Decfloat,
    Text,
    Date,
    Variant,
    TimestampLtz,
    TimestampNtz,
    TimestampTz,
    Object,
    Array,
    Mapping,
    Binary,
    Time,
    Boolean,
    Null,
    Slice,
    ChangeType,
    NotSupported,
}

/// The wire name of a column type.
pub open spec fn col_type_name(t: ColumnType) -> Seq<char> {
    match t {
        ColumnType::Fixed => "FIXED"@,
        ColumnType::Real => "REAL"@,
        ColumnType::Decfloat => "DECFLOAT"@,
        ColumnType::Text => "TEXT"@,
        ColumnType::Date => "DATE"@,
        ColumnType::Variant => "VARIANT"@,
        ColumnType::TimestampLtz => "TIMESTAMP_LTZ"@,
        ColumnType::TimestampNtz => "TIMESTAMP_NTZ"@,
        ColumnType::TimestampTz => "TIMESTAMP_TZ"@,
        ColumnType::Object => "OBJECT"@,
        ColumnType::Array => "ARRAY"@,
        ColumnType::Mapping => "MAP"@,
        ColumnType::Binary => "BINARY"@,
        ColumnType::Time => "TIME"@,
        ColumnType::Boolean => "BOOLEAN"@,
        ColumnType::Null => "NULL"@,
        ColumnType::Slice => "SLICE"@,
        ColumnType::ChangeType => "CHANGE_TYPE"@,
        ColumnType::NotSupported => "NOT_SUPPORTED"@,
    }
}

impl ColumnType {
    pub fn name(&self) -> (r: String)
        ensures
            r@ == col_type_name(*self),
    {
        let s: &str = match self {
            ColumnType::Fixed => "FIXED",
            ColumnType::Real => "REAL",
            ColumnType::Decfloat => "DECFLOAT",
            ColumnType::Text => "TEXT",
            ColumnType::Date => "DATE",
            ColumnType::Variant => "VARIANT",
            ColumnType::TimestampLtz => "TIMESTAMP_LTZ",
            ColumnType::TimestampNtz => "TIMESTAMP_NTZ",
            ColumnType::TimestampTz => "TIMESTAMP_TZ",
            ColumnType::Object => "OBJECT",
            ColumnType::Array => "ARRAY",
            ColumnType::Mapping => "MAP",
            ColumnType::Binary => "BINARY",
            ColumnType::Time => "TIME",
            ColumnType::Boolean => "BOOLEAN",
            ColumnType::Null => "NULL",
            ColumnType::Slice => "SLICE",
            ColumnType::ChangeType => "CHANGE_TYPE",
            ColumnType::NotSupported => "NOT_SUPPORTED",
        };
        String::from_str(s)
    }
}

/// One column of a result set, as the server describes it.
#[derive(Clone, Debug)]
pub struct Column {
    pub col_type: ColumnType,
    pub name: String,
    pub precision: Option<i64>,
    pub scale: Option<i64>,
    pub nullable: bool,
}

impl Column {
    /// A field-exact copy, for handing a column to a cell.
    pub fn clone_column(&self) -> (r: Column)
        ensures
            r == *self,
    {
        Column {
            col_type: self.col_type,
            name: self.name.clone(),
            precision: self.precision,
            scale: self.scale,
            nullable: self.nullable,
        }
    }
}

/// A timestamp in a fixed zone: nanoseconds since epoch plus the zone's
/// offset east of UTC in minutes. The wire carries the offset shifted
/// by 1440.
#[derive(Clone, Copy, Debug, PartialEq, Eq, Structural)]
pub struct TimestampTzValue {
    pub nanos: i128,
    pub offset_minutes: i32,
}

/// A cell's typed value.
///
/// Every payload is a plain value in wire terms: decimals keep their
/// digits and scale, dates are epoch-day counts, times and timestamps
/// are nanosecond counts, semi-structured values keep their JSON text,
/// and REAL keeps its decimal rendering, so that the wire string that
/// produced a value can be rebuilt exactly.
#[derive(Clone, Debug, PartialEq)]
pub enum CellValue {
    Fixed(Option<DecimalValue>),
    Decfloat(Option<DecimalValue>),
    Real(Option<String>),
    Text(Option<String>),
    Boolean(Option<bool>),
    Variant(Option<String>),
    Object(Option<String>),
    Array(Option<String>),
    Mapping(Option<String>),
    TimestampLtz(Option<i128>),
    TimestampNtz(Option<i128>),
    TimestampTz(Option<TimestampTzValue>),
    Time(Option<i128>),
    Date(Option<i64>),
    Binary(Option<Vec<u8>>),
    Null,
    Slice(Option<String>),
    ChangeType(Option<String>),
    NotSupported(Option<String>),
}

/// A single cell: its column and its typed value.
#[derive(Clone, Debug)]
pub struct Cell {
    pub col: Column,
    pub value: CellValue,
}

/// The bind-type name of a value.
pub open spec fn spec_value_name(v: CellValue) -> Seq<char> {
    match v {
        CellValue::Fixed(_) => "FIXED"@,
        CellValue::Decfloat(_) => "DECFLOAT"@,
        CellValue::Real(_) => "REAL"@,
        CellValue::Text(_) => "TEXT"@,
        CellValue::Boolean(_) => "BOOLEAN"@,
        CellValue::Variant(_) => "VARIANT"@,
        CellValue::Object(_) => "OBJECT"@,
        CellValue::Array(_) => "ARRAY"@,
        CellValue::Mapping(_) => "MAP"@,
        CellValue::TimestampLtz(_) => "TIMESTAMP_LTZ"@,
        CellValue::TimestampNtz(_) => "TIMESTAMP_NTZ"@,
        CellValue::TimestampTz(_) => "TIMESTAMP_TZ"@,
        CellValue::Time(_) => "TIME"@,
        CellValue::Date(_) => "DATE"@,
        CellValue::Binary(_) => "BINARY"@,
        CellValue::Null => "NULL"@,
        CellValue::Slice(_) => "SLICE"@,
        CellValue::ChangeType(_) => "CHANGE_TYPE"@,
        CellValue::NotSupported(_) => "NOT_SUPPORTED"@,
    }
}

pub fn value_to_name(val: &CellValue) -> (r: &'static str)
    ensures
        r@ == spec_value_name(*val),
{
    match val {
        CellValue::Fixed(_) => "FIXED",
        CellValue::Decfloat(_) => "DECFLOAT",
        CellValue::Real(_) => "REAL",
        CellValue::Text(_) => "TEXT",
        CellValue::Boolean(_) => "BOOLEAN",
        CellValue::Variant(_) => "VARIANT",
        CellValue::Object(_) => "OBJECT",
        CellValue::Array(_) => "ARRAY",
        CellValue::Mapping(_) => "MAP",
        CellValue::TimestampLtz(_) => "TIMESTAMP_LTZ",
        CellValue::TimestampNtz(_) => "TIMESTAMP_NTZ",
        CellValue::TimestampTz(_) => "TIMESTAMP_TZ",
        CellValue::Time(_) => "TIME",
        CellValue::Date(_) => "DATE",
        CellValue::Binary(_) => "BINARY",
        CellValue::Null => "NULL",
        CellValue::Slice(_) => "SLICE",
        CellValue::ChangeType(_) => "CHANGE_TYPE",
        CellValue::NotSupported(_) => "NOT_SUPPORTED",
    }
}

/// The null value carried by a column of each type.
pub open spec fn spec_null_of(t: ColumnType) -> CellValue {
    match t {
        ColumnType::Fixed => CellValue::Fixed(None),
        ColumnType::Real => CellValue::Real(None),
        ColumnType::Decfloat => CellValue::Decfloat(None),
        ColumnType::Text => CellValue::Text(None),
        ColumnType::Date => CellValue::Date(None),
        ColumnType::Variant => CellValue::Variant(None),
        ColumnType::TimestampLtz => CellValue::TimestampLtz(None),
        ColumnType::TimestampNtz => CellValue::TimestampNtz(None),
        ColumnType::TimestampTz => CellValue::TimestampTz(None),
        ColumnType::Object => CellValue::Object(None),
        ColumnType::Array => CellValue::Array(None),
        ColumnType::Mapping => CellValue::Mapping(None),
        ColumnType::Binary => CellValue::Binary(None),
        ColumnType::Time => CellValue::Time(None),
        ColumnType::Boolean => CellValue::Boolean(None),
        ColumnType::Null => CellValue::Null,
        ColumnType::Slice => CellValue::Slice(None),
        ColumnType::ChangeType => CellValue::ChangeType(None),
        ColumnType::NotSupported => CellValue::NotSupported(None),
    }
}

pub fn get_null_from_column(col: &Column) -> (r: CellValue)
    ensures
        r == spec_null_of(col.col_type),
{
    match col.col_type {
        ColumnType::Fixed => CellValue::Fixed(None),
        ColumnType::Real => CellValue::Real(None),
        ColumnType::Decfloat => CellValue::Decfloat(None),
        ColumnType::Text => CellValue::Text(None),
        ColumnType::Date => CellValue::Date(None),
        ColumnType::Variant => CellValue::Variant(None),
        ColumnType::TimestampLtz => CellValue::TimestampLtz(None),
        ColumnType::TimestampNtz => CellValue::TimestampNtz(None),
        ColumnType::TimestampTz => CellValue::TimestampTz(None),
        ColumnType::Object => CellValue::Object(None),
        ColumnType::Array => CellValue::Array(None),
        ColumnType::Mapping => CellValue::Mapping(None),
        ColumnType::Binary => CellValue::Binary(None),
        ColumnType::Time => CellValue::Time(None),
        ColumnType::Boolean => CellValue::Boolean(None),
        ColumnType::Null => CellValue::Null,
        ColumnType::Slice => CellValue::Slice(None),
        ColumnType::ChangeType => CellValue::ChangeType(None),
        ColumnType::NotSupported => CellValue::NotSupported(None),
    }
}

/// Anything a caller may hand to a bind parameter.
pub trait ToCellValue: Sized {
    fn to_cell_value(self) -> CellValue;
}

impl ToCellValue for CellValue {
    fn to_cell_value(self) -> (r: CellValue)
        ensures
            r == self,
    {
        self
    }
}

impl ToCellValue for String {
    fn to_cell_value(self) -> (r: CellValue)
        ensures
            r == CellValue::Text(Some(self)),
    {
        CellValue::Text(Some(self))
    }
}

impl ToCellValue for &str {
    fn to_cell_value(self) -> (r: CellValue)
        ensures
            r matches CellValue::Text(Some(t)) && t@ == self@,
    {
        CellValue::Text(Some(String::from_str(self)))
    }
}

impl ToCellValue for bool {
    fn to_cell_value(self) -> (r: CellValue)
        ensures
            r == CellValue::Boolean(Some(self)),
    {
        CellValue::Boolean(Some(self))
    }
}

impl ToCellValue for i64 {
    fn to_cell_value(self) -> (r: CellValue)
        ensures
            r == CellValue::Fixed(
                Some(
                    DecimalValue {
                        negative: self < 0,
                        int_part: if self < 0 {
                            (-(self as int)) as u128
                        } else {
                            self as u128
                        },
                        frac: 0,
                        scale: 0,
                    },
                ),
            ),
    {
        CellValue::Fixed(
            Some(
                if self < 0 {
                    DecimalValue {
                        negative: true,
                        int_part: (-(self as i128)) as u128,
                        frac: 0,
                        scale: 0,
                    }
                } else {
                    DecimalValue { negative: false, int_part: self as u128, frac: 0, scale: 0 }
                },
            ),
        )
    }
}

impl ToCellValue for DecimalValue {
    fn to_cell_value(self) -> (r: CellValue)
        ensures
            r == CellValue::Fixed(Some(self)),
    {
        CellValue::Fixed(Some(self))
    }
}

} // verus!
