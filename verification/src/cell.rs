//! The cell data model: a decoded spreadsheet cell and its sanitized
//! Markdown string form.

use vstd::prelude::*;

use crate::text::md_santise_spec;
use crate::text::sanitize_text;

verus! {

/// A decoded spreadsheet cell, as the workbook decoder hands it over.
///
/// Only the string form of a cell is consumed downstream; numeric, date and
/// error cells carry the decoder's string rendering of their value.
#[derive(Clone, Debug)]
pub enum CellValue {
    Empty,
    Text(String),
    Number(String),
    Boolean(bool),
    Date(String),
    Error(String),
}

impl CellValue {
    /// The string form of a cell: empty cells read as the empty string,
    /// booleans as `true`/`false`, every other kind as its carried text.
    pub open spec fn str_spec(&self) -> Seq<char> {
        match self {
            CellValue::Empty => Seq::<char>::empty(),
            CellValue::Text(s) => s@,
            CellValue::Number(s) => s@,
            CellValue::Boolean(b) => if *b { "true"@ } else { "false"@ },
            CellValue::Date(s) => s@,
            CellValue::Error(s) => s@,
        }
    }

    /// Renders the cell's string form.
    pub fn to_text(&self) -> (r: String)
        ensures
            r@ == self.str_spec(),
    {
        match self {
            CellValue::Empty => String::new(),
            CellValue::Text(s) => s.clone(),
            CellValue::Number(s) => s.clone(),
            CellValue::Boolean(b) => {
                if *b {
                    String::from_str("true")
                } else {
                    String::from_str("false")
                }
            },
            CellValue::Date(s) => s.clone(),
            CellValue::Error(s) => s.clone(),
        }
    }
}

/// Sanitizes one cell for use inside a Markdown table: the cell's string
/// form with pipes escaped and raw line breaks turned into break markers.
pub fn md_santise(cell: &CellValue) -> (r: String)
    ensures
        r@ == md_santise_spec(cell.str_spec()),
{
    let text = cell.to_text();
    sanitize_text(text.as_str())
}

} // verus!
