//! Rows of the text encoding: raw wire strings, cast to typed cells
//! lazily on access.

use vstd::prelude::*;

use crate::cast::{forward_cast, forward_spec};
use crate::cell::{Cell, CellValue, Column, spec_null_of};
use crate::errors::SnowflakeError;

verus! {

/// One row: its columns and its raw values, plus its position in the
/// whole result set.
#[derive(Debug)]
pub struct Row {
    pub columns: Vec<Column>,
    pub values: Vec<Option<String>>,
    pub idx: i64,
}

impl Row {
    pub fn new(columns: Vec<Column>, values: Vec<Option<String>>, idx: i64) -> (r: Row)
        ensures
            r.columns == columns,
            r.values == values,
            r.idx == idx,
    {
        Row { columns, values, idx }
    }

    /// Casts the cell at `idx`: a missing value is the untyped null, a
    /// present one goes through the forward cast under its column.
    pub fn get(&self, idx: usize) -> (r: Result<Cell, SnowflakeError>)
        requires
            idx < self.values@.len(),
            idx < self.columns@.len(),
        ensures
            match r {
                Ok(c) => {
                    &&& c.col == self.columns@[idx as int]
                    &&& match self.values@[idx as int] {
                        Some(s) => forward_spec(
                            self.columns@[idx as int].col_type,
                            self.columns@[idx as int].scale,
                            s@,
                            Result::<CellValue, SnowflakeError>::Ok(c.value),
                        ),
                        None => c.value == CellValue::Null,
                    }
                },
                Err(e) => self.values@[idx as int] matches Some(s) && forward_spec(
                    self.columns@[idx as int].col_type,
                    self.columns@[idx as int].scale,
                    s@,
                    Result::<CellValue, SnowflakeError>::Err(e),
                ),
            },
    {
        let value = match &self.values[idx] {
            Some(s) => match forward_cast(&self.columns[idx], s.as_str()) {
                Ok(v) => v,
                Err(e) => {
                    return Err(e);
                },
            },
            None => CellValue::Null,
        };
        Ok(Cell { col: self.columns[idx].clone_column(), value })
    }

    /// Casts every cell of the row, typed nulls for missing values, as
    /// consuming iteration does.
    pub fn cells(&self) -> (r: Vec<Result<Cell, SnowflakeError>>)
        requires
            self.values@.len() == self.columns@.len(),
        ensures
            r@.len() == self.values@.len(),
            forall|i: int|
                0 <= i < r@.len() ==> match #[trigger] r@[i] {
                    Ok(c) => {
                        &&& c.col == self.columns@[i]
                        &&& match self.values@[i] {
                            Some(s) => forward_spec(
                                self.columns@[i].col_type,
                                self.columns@[i].scale,
                                s@,
                                Result::<CellValue, SnowflakeError>::Ok(c.value),
                            ),
                            None => c.value == spec_null_of(self.columns@[i].col_type),
                        }
                    },
                    Err(e) => self.values@[i] matches Some(s) && forward_spec(
                        self.columns@[i].col_type,
                        self.columns@[i].scale,
                        s@,
                        Result::<CellValue, SnowflakeError>::Err(e),
                    ),
                },
    {
        let len = self.values.len();
        let mut out: Vec<Result<Cell, SnowflakeError>> = Vec::new();
        let mut i: usize = 0;
        while i < len
            invariant
                len == self.values@.len(),
                len == self.columns@.len(),
                i <= len,
                out@.len() == i,
                forall|j: int|
                    0 <= j < i ==> match #[trigger] out@[j] {
                        Ok(c) => {
                            &&& c.col == self.columns@[j]
                            &&& match self.values@[j] {
                                Some(s) => forward_spec(
                                    self.columns@[j].col_type,
                                    self.columns@[j].scale,
                                    s@,
                                    Result::<CellValue, SnowflakeError>::Ok(c.value),
                                ),
                                None => c.value == spec_null_of(self.columns@[j].col_type),
                            }
                        },
                        Err(e) => self.values@[j] matches Some(s) && forward_spec(
                            self.columns@[j].col_type,
                            self.columns@[j].scale,
                            s@,
                            Result::<CellValue, SnowflakeError>::Err(e),
                        ),
                    },
            decreases len - i,
        {
            let col = self.columns[i].clone_column();
            let item = match &self.values[i] {
                Some(s) => match forward_cast(&self.columns[i], s.as_str()) {
                    Ok(v) => Ok(Cell { col, value: v }),
                    Err(e) => Err(e),
                },
                None => Ok(
                    Cell { col, value: crate::cell::get_null_from_column(&self.columns[i]) },
                ),
            };
            out.push(item);
            i = i + 1;
        }
        out
    }
}

} // verus!
