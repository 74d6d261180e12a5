//! Sheet and workbook extraction: deriving headers from a sheet's first
//! row, mapping the remaining rows into records, and aggregating per-sheet
//! successes and failures across a workbook.

use vstd::prelude::*;

use crate::cell::CellValue;
use crate::cell::md_santise;
use crate::text::dec_rep;
use crate::text::md_santise_spec;
use crate::text::push_dec;

verus! {

/// One extracted sheet: its name, its column names in column order, and its
/// data rows, each row holding one sanitized value per column.
#[derive(Clone, Debug)]
pub struct NamedTable {
    pub name: String,
    pub header: Vec<String>,
    pub rows: Vec<Vec<String>>,
}

/// The mathematical model of a named table.
pub ghost struct NamedTableView {
    pub name: Seq<char>,
    pub header: Seq<Seq<char>>,
    pub rows: Seq<Seq<Seq<char>>>,
}

impl NamedTableView {
    /// Well-formedness: every row has exactly one value per header column.
    pub open spec fn wf(self) -> bool {
        forall|i: int| 0 <= i < self.rows.len() ==> (#[trigger] self.rows[i]).len()
            == self.header.len()
    }
}

impl View for NamedTable {
    type V = NamedTableView;

    open spec fn view(&self) -> NamedTableView {
        NamedTableView {
            name: self.name@,
            header: self.header.deep_view(),
            rows: self.rows.deep_view(),
        }
    }
}

/// One sheet that could not be extracted: its name and the error message.
#[derive(Clone, Debug)]
pub struct ErroredTable {
    pub name: String,
    pub message: String,
}

/// The mathematical model of an errored table.
pub ghost struct ErroredTableView {
    pub name: Seq<char>,
    pub message: Seq<char>,
}

impl View for ErroredTable {
    type V = ErroredTableView;

    open spec fn view(&self) -> ErroredTableView {
        ErroredTableView { name: self.name@, message: self.message@ }
    }
}

/// What the workbook decoder reported for one sheet: the sheet was absent,
/// the decoder failed with a message, or it yielded the sheet's raw rows.
pub enum SheetOutcome {
    Missing,
    ReadError(String),
    Rows(Vec<Vec<CellValue>>),
}

/// One sheet as handed over by the workbook decoder: its name and what the
/// decoder reported for it.
pub struct SheetData {
    pub name: String,
    pub outcome: SheetOutcome,
}

/// The error message recorded for a sheet the decoder could not locate.
pub open spec fn sheet_missing_msg(name: Seq<char>) -> Seq<char> {
    "sheet "@ + name + " is empty"@
}

/// The error message recorded for a sheet without a first row.
pub open spec fn no_header_msg(name: Seq<char>) -> Seq<char> {
    "sheet "@ + name + " has no header row"@
}

/// The header name derived for column `i`: the first-row cell's string form,
/// or `NULL` followed by the column index when that cell is empty.
pub open spec fn header_name_spec(c: CellValue, i: nat) -> Seq<char> {
    if c is Empty {
        "NULL"@ + dec_rep(i)
    } else {
        c.str_spec()
    }
}

/// The full header derived from a sheet's first row.
pub open spec fn derive_header_spec(row: Seq<CellValue>) -> Seq<Seq<char>> {
    Seq::new(row.len(), |i: int| header_name_spec(row[i], i as nat))
}

/// The string form of the cell at column `j`, an empty string when the row
/// is shorter than the header.
pub open spec fn cell_text_at(row: Seq<CellValue>, j: int) -> Seq<char> {
    if 0 <= j < row.len() {
        row[j].str_spec()
    } else {
        Seq::<char>::empty()
    }
}

/// One data row mapped against a header of `n` columns: the sanitized string
/// form of each cell, empty cells standing in for missing positions.
pub open spec fn extract_row_spec(row: Seq<CellValue>, n: nat) -> Seq<Seq<char>> {
    Seq::new(n, |j: int| md_santise_spec(cell_text_at(row, j)))
}

/// The model of one workbook-result entry: an extracted table or a
/// per-sheet error.
pub open spec fn entry_view(e: Result<NamedTable, ErroredTable>) -> Result<
    NamedTableView,
    ErroredTableView,
> {
    match e {
        Ok(t) => Ok(t@),
        Err(er) => Err(er@),
    }
}

/// What extracting one sheet yields: an absent sheet, a decoder error and a
/// sheet without a first row each yield an errored table; otherwise the
/// header comes from the first row and every later row becomes one record.
pub open spec fn extract_entry_spec(d: SheetData) -> Result<NamedTableView, ErroredTableView> {
    match d.outcome {
        SheetOutcome::Missing => Err(
            ErroredTableView { name: d.name@, message: sheet_missing_msg(d.name@) },
        ),
        SheetOutcome::ReadError(m) => Err(ErroredTableView { name: d.name@, message: m@ }),
        SheetOutcome::Rows(rows) => if rows@.len() == 0 {
            Err(ErroredTableView { name: d.name@, message: no_header_msg(d.name@) })
        } else {
            Ok(
                NamedTableView {
                    name: d.name@,
                    header: derive_header_spec(rows@[0]@),
                    rows: Seq::new(
                        (rows@.len() - 1) as nat,
                        |i: int| extract_row_spec(rows@[i + 1]@, rows@[0]@.len() as nat),
                    ),
                },
            )
        },
    }
}

/// The models of all entries of a workbook result.
pub open spec fn entries_view(s: Seq<Result<NamedTable, ErroredTable>>) -> Seq<
    Result<NamedTableView, ErroredTableView>,
> {
    Seq::new(s.len(), |i: int| entry_view(s[i]))
}

/// The models of the entries that extracting a whole workbook yields.
pub open spec fn extracted_entries(s: Seq<SheetData>) -> Seq<
    Result<NamedTableView, ErroredTableView>,
> {
    Seq::new(s.len(), |i: int| extract_entry_spec(s[i]))
}

/// Every table that sheet extraction yields is well-formed: each of its
/// rows holds exactly one value per header column.
pub proof fn lemma_extracted_table_wf(d: SheetData)
    ensures
        extract_entry_spec(d) matches Ok(t) ==> t.wf(),
{
}

fn missing_msg(name: &String) -> (r: String)
    ensures
        r@ == sheet_missing_msg(name@),
{
    let mut m = String::from_str("sheet ");
    m.append(name.as_str());
    m.append(" is empty");
    proof {
        assert(m@ =~= sheet_missing_msg(name@));
    }
    m
}

fn header_msg(name: &String) -> (r: String)
    ensures
        r@ == no_header_msg(name@),
{
    let mut m = String::from_str("sheet ");
    m.append(name.as_str());
    m.append(" has no header row");
    proof {
        assert(m@ =~= no_header_msg(name@));
    }
    m
}

/// Derives the column names from a sheet's first row, synthesizing a
/// `NULL`-prefixed name for every empty first-row cell.
///
/// The synthesized names are distinct from each other; two non-empty
/// first-row cells with equal text derive equal names, and such columns
/// are deliberately kept as distinct columns by position rather than
/// collapsed: rows are zipped against the header positionally, so no
/// column is ever lost to a duplicate name.
pub fn derive_header(row: &Vec<CellValue>) -> (h: Vec<String>)
    ensures
        h.deep_view() == derive_header_spec(row@),
        h@.len() == row@.len(),
{
    let mut h: Vec<String> = Vec::new();
    let mut i: usize = 0;
    while i < row.len()
        invariant
            i <= row@.len(),
            h@.len() == i,
            forall|k: int| 0 <= k < i ==> #[trigger] h@[k]@ == header_name_spec(row@[k], k as nat),
        decreases row@.len() - i,
    {
        let name = match &row[i] {
            CellValue::Empty => {
                let mut s = String::from_str("NULL");
                push_dec(&mut s, i);
                s
            },
            c => c.to_text(),
        };
        h.push(name);
        i = i + 1;
    }
    proof {
        assert(h.deep_view() =~= derive_header_spec(row@));
    }
    h
}

/// Maps one raw data row against a header of `n` columns, sanitizing every
/// cell and treating missing positions as empty cells.
pub fn extract_row(row: &Vec<CellValue>, n: usize) -> (r: Vec<String>)
    ensures
        r.deep_view() == extract_row_spec(row@, n as nat),
        r@.len() == n,
{
    let mut r: Vec<String> = Vec::new();
    let mut j: usize = 0;
    while j < n
        invariant
            j <= n,
            r@.len() == j,
            forall|k: int|
                0 <= k < j ==> #[trigger] r@[k]@ == md_santise_spec(cell_text_at(row@, k)),
        decreases n - j,
    {
        let value = if j < row.len() {
            md_santise(&row[j])
        } else {
            proof {
                assert(md_santise_spec(Seq::<char>::empty()) =~= Seq::<char>::empty());
            }
            String::new()
        };
        r.push(value);
        j = j + 1;
    }
    proof {
        assert(r.deep_view() =~= extract_row_spec(row@, n as nat));
    }
    r
}

/// Extracts one sheet: deriving the header from the first row and mapping
/// every later row, or recording why the sheet yields no table.
pub fn extract_sheet(d: &SheetData) -> (r: Result<NamedTable, ErroredTable>)
    ensures
        entry_view(r) == extract_entry_spec(*d),
{
    match &d.outcome {
        SheetOutcome::Missing => {
            let message = missing_msg(&d.name);
            Err(ErroredTable { name: d.name.clone(), message })
        },
        SheetOutcome::ReadError(message) => Err(
            ErroredTable { name: d.name.clone(), message: message.clone() },
        ),
        SheetOutcome::Rows(rows) => {
            if rows.len() == 0 {
                let message = header_msg(&d.name);
                Err(ErroredTable { name: d.name.clone(), message })
            } else {
                let header = derive_header(&rows[0]);
                let n = header.len();
                let mut out_rows: Vec<Vec<String>> = Vec::new();
                let mut i: usize = 1;
                while i < rows.len()
                    invariant
                        1 <= i <= rows@.len(),
                        n == derive_header_spec(rows@[0]@).len(),
                        out_rows@.len() == i - 1,
                        forall|k: int|
                            0 <= k < i - 1 ==> (#[trigger] out_rows@[k]).deep_view()
                                == extract_row_spec(rows@[k + 1]@, n as nat),
                    decreases rows@.len() - i,
                {
                    out_rows.push(extract_row(&rows[i], n));
                    i = i + 1;
                }
                let t = NamedTable { name: d.name.clone(), header, rows: out_rows };
                proof {
                    let expected = extract_entry_spec(*d)->Ok_0;
                    assert forall|k: int| 0 <= k < t@.rows.len() implies #[trigger] t@.rows[k]
                        == extract_row_spec(rows@[k + 1]@, n as nat) by {
                        assert(t@.rows[k] == out_rows@[k].deep_view());
                    }
                    assert(rows@[0]@.len() == n);
                    assert(t@.rows =~= expected.rows);
                    assert(t@ == expected);
                }
                Ok(t)
            }
        },
    }
}

/// Extracts every selected sheet of a workbook in order, capturing each
/// sheet's failure in place so that one bad sheet never loses the others.
pub fn extract_workbook(sheets: &Vec<SheetData>) -> (r: Vec<Result<NamedTable, ErroredTable>>)
    ensures
        r@.len() == sheets@.len(),
        entries_view(r@) == extracted_entries(sheets@),
{
    let mut r: Vec<Result<NamedTable, ErroredTable>> = Vec::new();
    let mut i: usize = 0;
    while i < sheets.len()
        invariant
            i <= sheets@.len(),
            r@.len() == i,
            forall|k: int|
                0 <= k < i ==> entry_view(#[trigger] r@[k]) == extract_entry_spec(sheets@[k]),
        decreases sheets@.len() - i,
    {
        r.push(extract_sheet(&sheets[i]));
        i = i + 1;
    }
    proof {
        assert(entries_view(r@) =~= extracted_entries(sheets@));
    }
    r
}

/// The predicate selecting the sheet names equal to `f`.
pub open spec fn name_eq(f: Seq<char>) -> spec_fn(Seq<char>) -> bool {
    |n: Seq<char>| n == f
}

/// A sheet-name filter that no name matches selects nothing.
pub proof fn lemma_select_absent(names: Seq<Seq<char>>, f: Seq<char>)
    requires
        forall|i: int| 0 <= i < names.len() ==> names[i] != f,
    ensures
        names.filter(name_eq(f)).len() == 0,
    decreases names.len(),
{
    reveal_with_fuel(Seq::<Seq<char>>::filter, 2);
    if names.len() == 0 {
    } else {
        assert forall|i: int| 0 <= i < names.drop_last().len() implies names.drop_last()[i]
            != f by {
            assert(names.drop_last()[i] == names[i]);
        }
        lemma_select_absent(names.drop_last(), f);
        assert(!name_eq(f)(names.last()));
    }
}

/// Selects the sheet names to extract: all of them in workbook order, or
/// exactly those equal to the requested name when a filter is given.
pub fn select_sheet_names(names: Vec<String>, filter: &Option<String>) -> (r: Vec<String>)
    ensures
        filter is None ==> r == names,
        filter matches Some(f) ==> r.deep_view() == names.deep_view().filter(name_eq(f@)),
{
    match filter {
        None => names,
        Some(f) => {
            let ghost pred = name_eq(f@);
            let mut r: Vec<String> = Vec::new();
            let mut i: usize = 0;
            while i < names.len()
                invariant
                    i <= names@.len(),
                    pred == name_eq(f@),
                    r.deep_view() == names.deep_view().subrange(0, i as int).filter(pred),
                decreases names@.len() - i,
            {
                let ghost prefix = names.deep_view().subrange(0, i as int);
                let ghost step = names.deep_view().subrange(0, i as int + 1);
                let ghost x = names.deep_view()[i as int];
                let ghost prev = r.deep_view();
                proof {
                    reveal_with_fuel(Seq::<Seq<char>>::filter, 3);
                    assert(x == names@[i as int]@);
                    assert(step =~= prefix + seq![x]);
                    assert(seq![x].drop_last() =~= Seq::<Seq<char>>::empty());
                    assert(Seq::<Seq<char>>::empty().filter(pred) =~= Seq::<Seq<char>>::empty());
                    assert(seq![x].filter(pred) == if pred(x) {
                        Seq::<Seq<char>>::empty().push(x)
                    } else {
                        Seq::<Seq<char>>::empty()
                    });
                    Seq::filter_distributes_over_add(prefix, seq![x], pred);
                }
                if names[i].eq(f) {
                    r.push(names[i].clone());
                    proof {
                        assert(pred(x));
                        assert(r.deep_view() =~= prev.push(x));
                        assert(prev.push(x) =~= prefix.filter(pred) + seq![x].filter(pred));
                        assert(r.deep_view() == step.filter(pred));
                    }
                } else {
                    proof {
                        assert(!pred(x));
                        assert(r.deep_view() =~= step.filter(pred));
                    }
                }
                i = i + 1;
            }
            proof {
                assert(names.deep_view().subrange(0, names@.len() as int) =~= names.deep_view());
            }
            r
        },
    }
}

} // verus!
