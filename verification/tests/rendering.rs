use sheet_to_md::CellValue;
use sheet_to_md::ErroredTable;
use sheet_to_md::NamedTable;
use sheet_to_md::RenderOptions;
use sheet_to_md::SheetData;
use sheet_to_md::SheetOutcome;
use sheet_to_md::mk_table;
use sheet_to_md::spreadsheet_to_md;
use sheet_to_md::tables_to_md;

fn text(s: &str) -> CellValue {
    CellValue::Text(String::from(s))
}

fn table(name: &str, header: &[&str], rows: &[&[&str]]) -> NamedTable {
    NamedTable {
        name: String::from(name),
        header: header.iter().map(|h| String::from(*h)).collect(),
        rows: rows.iter().map(|r| r.iter().map(|v| String::from(*v)).collect()).collect(),
    }
}

#[test]
fn cells_are_centred_in_their_columns() {
    let t = table(
        "t",
        &["foo", "bar"],
        &[&["ggg", "fred"], &["seventy", "col has no foo"]],
    );
    let expected = "|  foo  |     bar      |\n\
                    |-------|--------------|\n\
                    |  ggg  |     fred     |\n\
                    |seventy|col has no foo|";
    assert_eq!(mk_table(&t), expected);
}

#[test]
fn table_without_rows_is_header_and_separator() {
    let t = table("t", &["H"], &[]);
    assert_eq!(mk_table(&t), "|H|\n|-|\n");
}

#[test]
fn no_entries_is_an_error() {
    let results: Vec<Result<NamedTable, ErroredTable>> = vec![];
    let r = tables_to_md(&results, &None);
    assert_eq!(r.err().unwrap(), "no results");
}

#[test]
fn single_entry_renders_without_heading() {
    let results = vec![Ok(table("S", &["A"], &[&["1"]]))];
    let r = tables_to_md(&results, &None);
    assert_eq!(r.ok().unwrap(), "|A|\n|-|\n|1|");
}

#[test]
fn single_errored_entry_renders_as_annotation() {
    let results: Vec<Result<NamedTable, ErroredTable>> = vec![Err(ErroredTable {
        name: String::from("S"),
        message: String::from("boom"),
    })];
    let r = tables_to_md(&results, &None);
    assert_eq!(r.ok().unwrap(), "**Table errored**: boom");
}

#[test]
fn several_entries_carry_sheet_name_headings() {
    let results = vec![
        Ok(table("S1", &["A"], &[&["1"]])),
        Err(ErroredTable { name: String::from("S2"), message: String::from("decode failed") }),
        Ok(table("S3", &["B"], &[&["2"]])),
    ];
    let r = tables_to_md(&results, &None).ok().unwrap();
    let expected = "**S1**\n|A|\n|-|\n|1|\n\n\
                    **Table errored**: decode failed\n\n\
                    **S3**\n|B|\n|-|\n|2|";
    assert_eq!(r, expected);
}

#[test]
fn heading_override_replaces_sheet_names() {
    let results = vec![
        Ok(table("S1", &["A"], &[&["1"]])),
        Ok(table("S2", &["B"], &[&["2"]])),
    ];
    let options = Some(RenderOptions {
        headings: Some(String::from("X")),
        sheet_name: None,
        filters: None,
    });
    let r = tables_to_md(&results, &options).ok().unwrap();
    assert_eq!(r, "**X**\n|A|\n|-|\n|1|\n\n**X**\n|B|\n|-|\n|2|");
}

#[test]
fn rendering_twice_is_byte_identical() {
    let results = vec![
        Ok(table("S1", &["A", "B"], &[&["1", "22"]])),
        Err(ErroredTable { name: String::from("S2"), message: String::from("bad") }),
    ];
    let first = tables_to_md(&results, &None).ok().unwrap();
    let second = tables_to_md(&results, &None).ok().unwrap();
    assert_eq!(first, second);
}

#[test]
fn single_sheet_end_to_end() {
    let sheets = vec![SheetData {
        name: String::from("Sheet1"),
        outcome: SheetOutcome::Rows(vec![
            vec![text("Name"), text("Age")],
            vec![text("Ann"), CellValue::Empty],
        ]),
    }];
    let md = spreadsheet_to_md(&sheets, &None).ok().unwrap();
    assert_eq!(md, "|Name|Age|\n|----|---|\n|Ann |   |");
    assert!(!md.contains("NULL"));
}

#[test]
fn workbook_with_one_bad_sheet_still_renders_the_others() {
    let sheets = vec![
        SheetData {
            name: String::from("S1"),
            outcome: SheetOutcome::Rows(vec![vec![text("A")], vec![text("1")]]),
        },
        SheetData {
            name: String::from("S2"),
            outcome: SheetOutcome::ReadError(String::from("decode failed")),
        },
        SheetData {
            name: String::from("S3"),
            outcome: SheetOutcome::Rows(vec![vec![text("B")], vec![text("2")]]),
        },
    ];
    let md = spreadsheet_to_md(&sheets, &None).ok().unwrap();
    assert!(md.contains("**S1**\n|A|\n|-|\n|1|"));
    assert!(md.contains("**Table errored**: decode failed"));
    assert!(md.contains("**S3**\n|B|\n|-|\n|2|"));
}

#[test]
fn filtered_to_an_absent_sheet_renders_nothing() {
    let sheets: Vec<SheetData> = vec![];
    let r = spreadsheet_to_md(&sheets, &None);
    assert_eq!(r.err().unwrap(), "no results");
}

#[test]
fn header_only_sheet_renders_as_empty_table() {
    let sheets = vec![SheetData {
        name: String::from("S"),
        outcome: SheetOutcome::Rows(vec![vec![text("H"), CellValue::Empty]]),
    }];
    let md = spreadsheet_to_md(&sheets, &None).ok().unwrap();
    assert_eq!(md, "|H|NULL1|\n|-|-----|\n");
}
