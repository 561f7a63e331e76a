//! The row-text protocol adapter: chunk framing, row parsing, and the
//! result/describe views shared with the columnar adapter.

use vstd::prelude::*;

use crate::bindings::BindMetadata;
use crate::cell::Column;
use crate::errors::{ErrorKind, SnowflakeError};
use crate::response::{RawQueryResponse, spec_is_dml, spec_is_dql};
use crate::row::Row;

verus! {

/// Relies on serde_json::from_slice::<Vec<Vec<Option<String>>>>: the
/// parsed rows, or failure, depend on the bytes alone.
pub uninterp spec fn json_rows_of(b: Seq<u8>) -> Option<Seq<Seq<Option<Seq<char>>>>>;

/// Relies on serde_json::from_slice to parse one framed text chunk as
/// rows of optional strings.
#[verifier::external_body]
fn parse_rows_raw(bytes: &Vec<u8>) -> (r: Option<Vec<Vec<Option<String>>>>)
    ensures
        match r {
            Some(v) => json_rows_of(bytes@) == Some(v.deep_view()),
            None => json_rows_of(bytes@) is None,
        },
{
    match serde_json::from_slice::<Vec<Vec<Option<String>>>>(bytes.as_slice()) {
        Ok(v) => Some(v),
        Err(_) => None,
    }
}

/// Text chunks past the first arrive without their enclosing array:
/// the adapter synthesizes the missing delimiters before parsing.
pub fn frame_chunk(first: bool, bytes: Vec<u8>) -> (r: Vec<u8>)
    ensures
        first ==> r@ == bytes@,
        !first ==> r@ == seq![91u8] + bytes@ + seq![93u8],
{
    if first {
        bytes
    } else {
        let mut out: Vec<u8> = Vec::new();
        out.push(91u8);
        let mut body = bytes;
        out.append(&mut body);
        out.push(93u8);
        proof {
            assert(out@ =~= seq![91u8] + bytes@ + seq![93u8]);
        }
        out
    }
}

/// Frames and parses one text chunk into its rows.
pub fn decode_text_chunk(first: bool, bytes: Vec<u8>) -> (r: Result<
    Vec<Vec<Option<String>>>,
    SnowflakeError,
>)
    ensures
        ({
            let framed = if first {
                bytes@
            } else {
                seq![91u8] + bytes@ + seq![93u8]
            };
            match r {
                Ok(v) => json_rows_of(framed) == Some(v.deep_view()),
                Err(e) => json_rows_of(framed) is None && e.kind == ErrorKind::DecodeError,
            }
        }),
{
    let framed = frame_chunk(first, bytes);
    match parse_rows_raw(&framed) {
        Some(v) => Ok(v),
        None => Err(
            SnowflakeError::new(
                ErrorKind::DecodeError,
                String::from_str("failed to parse chunk data as json"),
            ),
        ),
    }
}

/// Builds the rows of one parsed chunk, numbering them from `cursor`
/// in result-set order.
pub fn rows_from_strings(cols: &Vec<Column>, parsed: Vec<Vec<Option<String>>>, cursor: i64) -> (r:
    Vec<Row>)
    requires
        cursor >= 0,
        cursor + parsed@.len() <= i64::MAX,
    ensures
        r@.len() == parsed@.len(),
        forall|i: int|
            0 <= i < r@.len() ==> {
                &&& (#[trigger] r@[i]).columns@ == cols@
                &&& r@[i].values == parsed@[i]
                &&& r@[i].idx == cursor + i
            },
{
    let mut out: Vec<Row> = Vec::new();
    let mut remaining = parsed;
    let ghost all = remaining@;
    let total = remaining.len();
    let mut i: usize = 0;
    while remaining.len() > 0
        invariant
            total == all.len(),
            total <= i64::MAX - cursor,
            cursor >= 0,
            i + remaining@.len() == total,
            out@.len() == i,
            remaining@ =~= all.skip(i as int),
            forall|j: int|
                0 <= j < i ==> {
                    &&& (#[trigger] out@[j]).columns@ == cols@
                    &&& out@[j].values == all[j]
                    &&& out@[j].idx == cursor + j
                },
        decreases remaining@.len(),
    {
        let values = remaining.remove(0);
        let mut columns: Vec<Column> = Vec::new();
        let mut c: usize = 0;
        let clen = cols.len();
        while c < clen
            invariant
                clen == cols@.len(),
                c <= clen,
                columns@ =~= cols@.take(c as int),
            decreases clen - c,
        {
            columns.push(cols[c].clone_column());
            proof {
                assert(columns@ =~= cols@.take(c + 1));
            }
            c = c + 1;
        }
        proof {
            assert(columns@ =~= cols@);
        }
        proof {
            assert(values == all[i as int]) by {
                assert(all.skip(i as int)[0] == all[i as int]);
            }
        }
        let row = Row::new(columns, values, cursor + (i as i64));
        out.push(row);
        i = i + 1;
        proof {
            assert(remaining@ =~= all.skip(i as int));
        }
    }
    out
}

/// The metadata-only view of a describe request's response.
pub trait DescribeResult {
    spec fn raw_response(&self) -> RawQueryResponse;

    /// The columns the described query would return.
    fn columns(&self) -> (r: &Vec<Column>)
        ensures
            *r == self.raw_response().rowtype,
    ;

    /// The parameters the described query expects, when reported.
    fn bind_metadata(&self) -> (r: &Option<Vec<BindMetadata>>)
        ensures
            *r == self.raw_response().meta_data_of_binds,
    ;

    /// How many parameters the described query expects.
    fn bind_count(&self) -> (r: i32)
        ensures
            r == self.raw_response().number_of_binds,
    ;
}

/// A text-encoding query result: the raw response, read through the
/// shared result contract.
pub struct JsonQueryResult {
    pub raw: RawQueryResponse,
}

impl JsonQueryResult {
    pub fn new(raw: RawQueryResponse) -> (r: JsonQueryResult)
        ensures
            r.raw == raw,
    {
        JsonQueryResult { raw }
    }

    pub fn columns(&self) -> (r: &Vec<Column>)
        ensures
            *r == self.raw.rowtype,
    {
        &self.raw.rowtype
    }

    pub fn expected_result_length(&self) -> (r: i64)
        ensures
            r == self.raw.total,
    {
        self.raw.expected_result_length()
    }

    pub fn is_dml(&self) -> (r: bool)
        ensures
            r == spec_is_dml(self.raw.statement_type_id),
    {
        self.raw.is_dml()
    }

    pub fn is_dql(&self) -> (r: bool)
        ensures
            r == spec_is_dql(self.raw.statement_type_id),
    {
        self.raw.is_dql()
    }
}

/// A text-encoding describe result.
pub struct JsonDescribeResult {
    pub raw: RawQueryResponse,
}

impl DescribeResult for JsonDescribeResult {
    open spec fn raw_response(&self) -> RawQueryResponse {
        self.raw
    }

    fn columns(&self) -> (r: &Vec<Column>) {
        &self.raw.rowtype
    }

    fn bind_metadata(&self) -> (r: &Option<Vec<BindMetadata>>) {
        &self.raw.meta_data_of_binds
    }

    fn bind_count(&self) -> (r: i32) {
        self.raw.number_of_binds
    }
}

} // verus!
