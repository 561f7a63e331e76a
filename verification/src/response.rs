//! The raw query response and the decisions made over it: statement
//! classification, DML statistics, the async-redirect dispatch, and the
//! gate that refuses row streaming on DML results.

use vstd::prelude::*;

use crate::bindings::BindMetadata;
use crate::cell::Column;
use crate::errors::{ErrorKind, SnowflakeError};

verus! {

/// The lowest statement-type id of a SELECT.
pub const STATEMENT_TYPE_ID_SELECT: i64 = 0x1000;

/// The lowest statement-type id of a DML statement.
pub const STATEMENT_TYPE_ID_DML: i64 = 0x3000;

/// The highest DML statement-type id: a multi-table insert.
pub const STATEMENT_TYPE_ID_MULTI_TABLE_INSERT: i64 = 0x3500;

/// One remote chunk of a result set.
#[derive(Clone, Debug)]
pub struct QueryResponseChunk {
    pub url: String,
    pub row_count: i64,
    pub uncompressed_size: i64,
    pub compressed_size: i64,
}

/// The redirect payload of an asynchronously executing query.
#[derive(Clone, Debug)]
pub struct AsynchronousResponseData {
    pub get_result_url: String,
    pub query_aborts_after_secs: i32,
    pub query_id: String,
}

/// The payload of a file-transfer result (not supported).
#[derive(Clone, Debug)]
pub struct FileTransferResponseData {
    pub parallel: i64,
    pub threshold: i64,
    pub presigned_urls: Vec<String>,
}

/// The DML statistics of a response.
#[derive(Clone, Copy, Debug)]
pub struct QueryStats {
    pub num_dml_duplicates: i64,
    pub num_rows_inserted: i64,
    pub num_rows_updated: i64,
    pub num_rows_deleted: i64,
}

/// The error payload of a failed authentication exchange.
#[derive(Clone, Debug)]
pub struct ErrorData {
    pub authn_method: Option<String>,
    pub error_code: Option<String>,
    pub next_action: Option<String>,
}

/// The error payload of a failed execution.
#[derive(Clone, Debug)]
pub struct ExecResponseErrorData {
    pub age: i64,
    pub error_code: String,
    pub query_id: String,
    pub sql_state: String,
    pub line: Option<i64>,
    pub pos: Option<i64>,
    pub internal_error: bool,
}

/// A direct query result: column metadata, the optional inline rowset
/// (already serialised), the chunk plan, and the bookkeeping counters.
#[derive(Clone, Debug)]
pub struct RawQueryResponse {
    pub rowtype: Vec<Column>,
    /// The inline rowset, re-serialised as JSON bytes; empty when the
    /// response carried none.
    pub rowset: Option<Vec<u8>>,
    /// The base64 text of an inline columnar batch.
    pub rowset_base64: Option<String>,
    pub total: i64,
    pub returned: i64,
    pub query_id: String,
    pub query_result_format: Option<String>,
    pub sql_state: Option<String>,
    pub number_of_binds: i32,
    pub meta_data_of_binds: Option<Vec<BindMetadata>>,
    pub statement_type_id: i64,
    pub version: i64,
    pub stats: Option<QueryStats>,
    pub chunks: Vec<QueryResponseChunk>,
    pub chunk_headers: Vec<(String, String)>,
    /// The one-time access key that authorises chunk retrieval.
    pub qrmk: Option<String>,
}

/// DML statement-type ids form one contiguous range.
pub open spec fn spec_is_dml(statement_type_id: i64) -> bool {
    STATEMENT_TYPE_ID_DML <= statement_type_id <= STATEMENT_TYPE_ID_MULTI_TABLE_INSERT
}

pub open spec fn spec_is_dql(statement_type_id: i64) -> bool {
    statement_type_id == STATEMENT_TYPE_ID_SELECT
}

impl RawQueryResponse {
    /// The statement was DML (INSERT, UPDATE, DELETE, ...).
    pub fn is_dml(&self) -> (r: bool)
        ensures
            r == spec_is_dml(self.statement_type_id),
    {
        STATEMENT_TYPE_ID_DML <= self.statement_type_id && self.statement_type_id
            <= STATEMENT_TYPE_ID_MULTI_TABLE_INSERT
    }

    /// The statement was a SELECT.
    pub fn is_dql(&self) -> (r: bool)
        ensures
            r == spec_is_dql(self.statement_type_id),
    {
        self.statement_type_id == STATEMENT_TYPE_ID_SELECT
    }

    /// Rows may only be streamed from a non-DML result; a DML result
    /// has no rows to retrieve.
    pub fn ensure_rows_allowed(&self) -> (r: Result<(), SnowflakeError>)
        ensures
            match r {
                Ok(()) => !spec_is_dml(self.statement_type_id),
                Err(e) => spec_is_dml(self.statement_type_id) && e.kind
                    == ErrorKind::UnsupportedOperation && e.message@
                    == "there are no rows to retrieve"@,
            },
    {
        if self.is_dml() {
            Err(
                SnowflakeError::new(
                    ErrorKind::UnsupportedOperation,
                    String::from_str("there are no rows to retrieve"),
                ),
            )
        } else {
            Ok(())
        }
    }

    /// How many rows any DML statement touched; zero without stats.
    pub fn rows_affected(&self) -> (r: i64)
        requires
            self.stats matches Some(s) ==> i64::MIN <= s.num_rows_updated + s.num_dml_duplicates
                + s.num_rows_deleted + s.num_rows_inserted <= i64::MAX,
        ensures
            r == match self.stats {
                Some(s) => s.num_rows_updated + s.num_dml_duplicates + s.num_rows_deleted
                    + s.num_rows_inserted,
                None => 0,
            },
    {
        match &self.stats {
            Some(s) => {
                let total = s.num_rows_updated as i128 + s.num_dml_duplicates as i128
                    + s.num_rows_deleted as i128 + s.num_rows_inserted as i128;
                total as i64
            },
            None => 0,
        }
    }

    pub fn rows_updated(&self) -> (r: i64)
        ensures
            r == match self.stats {
                Some(s) => s.num_rows_updated,
                None => 0,
            },
    {
        match &self.stats {
            Some(s) => s.num_rows_updated,
            None => 0,
        }
    }

    pub fn rows_deleted(&self) -> (r: i64)
        ensures
            r == match self.stats {
                Some(s) => s.num_rows_deleted,
                None => 0,
            },
    {
        match &self.stats {
            Some(s) => s.num_rows_deleted,
            None => 0,
        }
    }

    pub fn rows_inserted(&self) -> (r: i64)
        ensures
            r == match self.stats {
                Some(s) => s.num_rows_inserted,
                None => 0,
            },
    {
        match &self.stats {
            Some(s) => s.num_rows_inserted,
            None => 0,
        }
    }

    /// How many rows the caller should expect from the stream.
    pub fn expected_result_length(&self) -> (r: i64)
        ensures
            r == self.total,
    {
        self.total
    }
}

/// The three shapes an execution response's payload can take.
#[derive(Debug)]
pub enum ExecResponseData {
    Query(RawQueryResponse),
    AsyncQuery(AsynchronousResponseData),
    PutGet(FileTransferResponseData),
}

/// A successful or failed execution response; a failure carries the
/// envelope's message when the server sent one.
pub enum ExecResponse {
    Success(ExecResponseData),
    Failure(ExecResponseErrorData, Option<String>),
}

/// What the executor must do with a response.
#[derive(Debug)]
pub enum ResponseStep {
    /// A direct result: proceed to the stream pipeline.
    Done(RawQueryResponse),
    /// An async redirect: poll this URL with the same token and
    /// dispatch the next response the same way.
    Poll(String),
}

/// Classifies an execution response: a direct result proceeds, an async
/// redirect is re-polled, a file-transfer result is refused, and a
/// failure is surfaced with the server's message.
pub fn dispatch_response(resp: ExecResponse) -> (r: Result<ResponseStep, SnowflakeError>)
    ensures
        match resp {
            ExecResponse::Success(ExecResponseData::Query(q)) => r matches Ok(ResponseStep::Done(d))
                && d == q,
            ExecResponse::Success(ExecResponseData::AsyncQuery(a)) => r matches Ok(
                ResponseStep::Poll(u),
            ) && u == a.get_result_url,
            ExecResponse::Success(ExecResponseData::PutGet(_)) => r matches Err(e) && e.kind
                == ErrorKind::UnsupportedOperation && e.message@
                == "file transfer is not implemented"@,
            ExecResponse::Failure(f, msg) => r matches Err(e) && e.kind
                == ErrorKind::ProtocolError && e.message@ == match msg {
                Some(m) => m@,
                None => f.error_code@,
            },
        },
{
    match resp {
        ExecResponse::Success(data) => match data {
            ExecResponseData::Query(q) => Ok(ResponseStep::Done(q)),
            ExecResponseData::AsyncQuery(a) => Ok(ResponseStep::Poll(a.get_result_url)),
            ExecResponseData::PutGet(_) => Err(
                SnowflakeError::new(
                    ErrorKind::UnsupportedOperation,
                    String::from_str("file transfer is not implemented"),
                ),
            ),
        },
        ExecResponse::Failure(f, msg) => match msg {
            Some(m) => Err(SnowflakeError::new(ErrorKind::ProtocolError, m)),
            None => Err(SnowflakeError::new(ErrorKind::ProtocolError, f.error_code)),
        },
    }
}

/// Relies on the base64 crate's standard-alphabet, padded engine to
/// decode an inline columnar rowset; the result depends on the text
/// alone.
pub uninterp spec fn base64_of(s: Seq<char>) -> Option<Seq<u8>>;

/// Relies on base64::engine::GeneralPurpose (STANDARD alphabet, PAD) to
/// decode the `rowset_base64` field.
#[verifier::external_body]
pub fn decode_base64(input: &str) -> (r: Option<Vec<u8>>)
    ensures
        match r {
            Some(v) => base64_of(input@) == Some(v@),
            None => base64_of(input@) is None,
        },
{
    let engine = base64::engine::GeneralPurpose::new(
        &base64::alphabet::STANDARD,
        base64::engine::general_purpose::PAD,
    );
    match base64::Engine::decode(&engine, input) {
        Ok(v) => Some(v),
        Err(_) => None,
    }
}

/// Decodes an inline columnar rowset, reporting a decode failure as the
/// library's error.
pub fn decode_inline_batch(input: &str) -> (r: Result<Vec<u8>, SnowflakeError>)
    ensures
        match r {
            Ok(v) => base64_of(input@) == Some(v@),
            Err(e) => base64_of(input@) is None && e.kind == ErrorKind::DecodeError,
        },
{
    match decode_base64(input) {
        Some(v) => Ok(v),
        None => Err(
            SnowflakeError::new(
                ErrorKind::DecodeError,
                String::from_str("failed to decode the inline rowset as base64"),
            ),
        ),
    }
}

} // verus!
