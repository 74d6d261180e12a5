//! Spreadsheet-to-Markdown extraction and rendering.
//!
//! The library turns decoded spreadsheet sheets into Markdown tables: it
//! sanitizes cell text, derives headers, maps rows into records, renders
//! the tables to one Markdown document, and assembles an optional HTML page.

mod assemble;
mod cell;
mod extract;
mod render;
mod text;

pub use assemble::html_render;

pub use cell::CellValue;
pub use cell::md_santise;
pub use extract::ErroredTable;
pub use extract::NamedTable;
pub use extract::SheetData;
pub use extract::SheetOutcome;
pub use extract::derive_header;
pub use extract::extract_row;
pub use extract::extract_sheet;
pub use extract::extract_workbook;
pub use extract::select_sheet_names;
pub use render::RenderOptions;
pub use render::mk_table;
pub use render::named_table_to_md;
pub use render::spreadsheet_to_md;
pub use render::tables_to_md;
pub use text::br_marker;
pub use text::dec_rep;
pub use text::lemma_santise_no_raw_breaks;
pub use text::lemma_santise_pipes_escaped;
pub use text::md_santise_spec;
pub use text::sanitize_text;
pub use text::usize_to_string;
