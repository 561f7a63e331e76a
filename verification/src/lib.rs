//! A verified client-side engine for a cloud data warehouse's HTTP/JSON
//! query protocol.
//!
//! The library models the protocol's data as plain values and proves the
//! logic that runs over them: the session/token lifecycle, the connection
//! pool's exclusivity rules, the chunked result-stream scheduler, the
//! type-cast layer between wire strings and a tagged value model, and the
//! request/response bookkeeping shared by the row-text and columnar wire
//! encodings. Network transport, JSON (de)serialisation into these plain
//! values, and the columnar decoder are collaborators that hand the
//! library values and take values back.

pub mod arrow;
pub mod bindings;
pub mod cast;
pub mod cell;
pub mod decimal;
pub mod errors;
pub mod executor;
pub mod hexbin;
pub mod login;
pub mod numeric;
pub mod pool;
pub mod protocol;
pub mod response;
pub mod row;
pub mod session;
pub mod stream;
pub mod strutil;
pub mod url;

pub use cell::{Cell, CellValue, Column, ColumnType, ToCellValue};
pub use errors::{ErrorKind, SnowflakeError};
pub use pool::{AuthStrategy, SnowflakeConnectionOpts, SnowflakeConnectionOptsBuilder, SnowflakePool, SnowflakeTransaction};
pub use row::Row;
