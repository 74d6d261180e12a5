use sheet_to_md::CellValue;
use sheet_to_md::SheetData;
use sheet_to_md::SheetOutcome;
use sheet_to_md::derive_header;
use sheet_to_md::extract_row;
use sheet_to_md::extract_sheet;
use sheet_to_md::extract_workbook;
use sheet_to_md::select_sheet_names;

fn text(s: &str) -> CellValue {
    CellValue::Text(String::from(s))
}

#[test]
fn empty_header_cell_becomes_null_name() {
    let first_row = vec![text("Name"), text("Age"), CellValue::Empty, CellValue::Empty];
    let header = derive_header(&first_row);
    assert_eq!(header, vec!["Name", "Age", "NULL2", "NULL3"]);
}

#[test]
fn short_rows_fill_with_empty_cells() {
    let row = vec![text("a|b"), CellValue::Empty];
    assert_eq!(extract_row(&row, 3), vec!["a\\|b", "", ""]);
}

#[test]
fn missing_sheet_is_an_errored_table() {
    let d = SheetData { name: String::from("Foo"), outcome: SheetOutcome::Missing };
    let entry = extract_sheet(&d);
    let err = entry.err().unwrap();
    assert_eq!(err.name, "Foo");
    assert_eq!(err.message, "sheet Foo is empty");
}

#[test]
fn sheet_without_first_row_is_an_errored_table() {
    let d = SheetData { name: String::from("Foo"), outcome: SheetOutcome::Rows(vec![]) };
    let err = extract_sheet(&d).err().unwrap();
    assert_eq!(err.name, "Foo");
    assert_eq!(err.message, "sheet Foo has no header row");
}

#[test]
fn decoder_error_is_forwarded() {
    let d = SheetData {
        name: String::from("Foo"),
        outcome: SheetOutcome::ReadError(String::from("boom")),
    };
    let err = extract_sheet(&d).err().unwrap();
    assert_eq!(err.name, "Foo");
    assert_eq!(err.message, "boom");
}

#[test]
fn sheet_with_only_a_header_has_no_rows() {
    let d = SheetData {
        name: String::from("S"),
        outcome: SheetOutcome::Rows(vec![vec![text("H")]]),
    };
    let t = extract_sheet(&d).ok().unwrap();
    assert_eq!(t.name, "S");
    assert_eq!(t.header, vec!["H"]);
    assert!(t.rows.is_empty());
}

#[test]
fn one_bad_sheet_keeps_the_others() {
    let sheets = vec![
        SheetData {
            name: String::from("S1"),
            outcome: SheetOutcome::Rows(vec![vec![text("A")], vec![text("1")]]),
        },
        SheetData {
            name: String::from("S2"),
            outcome: SheetOutcome::ReadError(String::from("decode failed")),
        },
        SheetData {
            name: String::from("S3"),
            outcome: SheetOutcome::Rows(vec![vec![text("B")], vec![text("2")]]),
        },
    ];
    let entries = extract_workbook(&sheets);
    assert_eq!(entries.len(), 3);
    assert!(entries[0].is_ok());
    assert!(entries[1].is_err());
    assert!(entries[2].is_ok());
    assert_eq!(entries[0].as_ref().ok().unwrap().name, "S1");
    assert_eq!(entries[1].as_ref().err().unwrap().message, "decode failed");
    assert_eq!(entries[2].as_ref().ok().unwrap().name, "S3");
}

#[test]
fn selecting_without_filter_keeps_every_name() {
    let names = vec![String::from("A"), String::from("B")];
    assert_eq!(select_sheet_names(names.clone(), &None), names);
}

#[test]
fn selecting_by_name_keeps_exact_matches() {
    let names = vec![String::from("A"), String::from("B"), String::from("A")];
    let selected = select_sheet_names(names, &Some(String::from("A")));
    assert_eq!(selected, vec!["A", "A"]);
}

#[test]
fn selecting_an_absent_name_keeps_nothing() {
    let names = vec![String::from("Sheet1"), String::from("Sheet2")];
    let selected = select_sheet_names(names, &Some(String::from("Absent")));
    assert!(selected.is_empty());
}
