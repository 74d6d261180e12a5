//! Markdown table rendering: one named table becomes a Markdown table block
//! with centred cells, and a whole workbook result becomes one Markdown
//! document, multi-sheet results carrying per-sheet headings.

use vstd::prelude::*;

use crate::extract::ErroredTable;
use crate::extract::ErroredTableView;
use crate::extract::NamedTable;
use crate::extract::NamedTableView;
use crate::extract::SheetData;
use crate::extract::entries_view;
use crate::extract::entry_view;
use crate::extract::extract_workbook;
use crate::extract::extracted_entries;
use crate::text::push_char;

verus! {

/// Rendering configuration: an optional heading override replacing the
/// sheet name over each table, an optional filter selecting one sheet by
/// exact name, and optional column-value filters reserved for future row
/// filtering.
#[derive(Clone, Debug)]
pub struct RenderOptions {
    pub headings: Option<String>,
    pub sheet_name: Option<String>,
    pub filters: Option<Vec<(String, String)>>,
}

/// The heading override carried by the options, if any.
pub open spec fn label_of(options: Option<RenderOptions>) -> Option<Seq<char>> {
    match options {
        Some(o) => match o.headings {
            Some(h) => Some(h@),
            None => None,
        },
        None => None,
    }
}

/// `n` spaces.
pub open spec fn spaces(n: nat) -> Seq<char> {
    Seq::new(n, |i: int| ' ')
}

/// `n` dashes.
pub open spec fn dashes(n: nat) -> Seq<char> {
    Seq::new(n, |i: int| '-')
}

/// A cell value centred in a field of width `w`: the text as it stands when
/// it fills the field, otherwise padded with spaces, the excess space going
/// to the right.
pub open spec fn pad_center(s: Seq<char>, w: nat) -> Seq<char> {
    if s.len() >= w {
        s
    } else {
        let pad = (w - s.len()) as nat;
        spaces((pad / 2) as nat) + s + spaces((pad - pad / 2) as nat)
    }
}

/// The separator-row cell under a column of width `w`: all dashes, one dash
/// at least.
pub open spec fn dash_cell(w: nat) -> Seq<char> {
    if w == 0 {
        seq!['-']
    } else {
        dashes(w)
    }
}

/// The cells of one table line from column `j` on, each centred in its
/// column's width and closed by a pipe.
pub open spec fn row_cells_md(cells: Seq<Seq<char>>, widths: Seq<nat>, j: int) -> Seq<char>
    decreases cells.len() - j,
{
    if j < 0 || j >= cells.len() {
        Seq::<char>::empty()
    } else {
        pad_center(cells[j], widths[j]) + seq!['|'] + row_cells_md(cells, widths, j + 1)
    }
}

/// One table line: a leading pipe, then every cell closed by a pipe.
pub open spec fn row_md(cells: Seq<Seq<char>>, widths: Seq<nat>) -> Seq<char> {
    seq!['|'] + row_cells_md(cells, widths, 0)
}

/// The separator-line cells from column `j` on.
pub open spec fn dash_cells_md(widths: Seq<nat>, j: int) -> Seq<char>
    decreases widths.len() - j,
{
    if j < 0 || j >= widths.len() {
        Seq::<char>::empty()
    } else {
        dash_cell(widths[j]) + seq!['|'] + dash_cells_md(widths, j + 1)
    }
}

/// The separator line under the header row.
pub open spec fn dash_row_md(widths: Seq<nat>) -> Seq<char> {
    seq!['|'] + dash_cells_md(widths, 0)
}

/// The width of column `j` over the given rows, at least `base`.
pub open spec fn col_width_rows(rows: Seq<Seq<Seq<char>>>, j: int, base: nat) -> nat
    decreases rows.len(),
{
    if rows.len() == 0 {
        base
    } else {
        let rest = col_width_rows(rows.drop_last(), j, base);
        if rows.last()[j].len() > rest {
            rows.last()[j].len()
        } else {
            rest
        }
    }
}

/// The width of column `j` of a table: the widest of the column's name and
/// of every value in the column.
///
/// Widths are counted in characters, the same unit the centring pads in,
/// so the pipes of a column line up for any text, not only for ASCII.
pub open spec fn col_width(t: NamedTableView, j: int) -> nat {
    col_width_rows(t.rows, j, t.header[j].len())
}

/// The widths of all columns of a table.
pub open spec fn table_widths(t: NamedTableView) -> Seq<nat> {
    Seq::new(t.header.len(), |j: int| col_width(t, j))
}

/// The given parts joined by the separator.
pub open spec fn join_seqs(parts: Seq<Seq<char>>, sep: Seq<char>) -> Seq<char>
    decreases parts.len(),
{
    if parts.len() == 0 {
        Seq::<char>::empty()
    } else if parts.len() == 1 {
        parts[0]
    } else {
        join_seqs(parts.drop_last(), sep) + sep + parts.last()
    }
}

/// One table rendered as a Markdown block: the header row, the separator
/// row, and one line per data row, newline-separated.
pub open spec fn table_md(t: NamedTableView) -> Seq<char> {
    let widths = table_widths(t);
    row_md(t.header, widths) + seq!['\n'] + dash_row_md(widths) + seq!['\n'] + join_seqs(
        Seq::new(t.rows.len(), |i: int| row_md(t.rows[i], widths)),
        seq!['\n'],
    )
}

/// One workbook-result entry rendered as a block: an errored sheet becomes
/// an annotation carrying its message; a table becomes its Markdown block,
/// prefixed, when a heading is asked for, by the heading override or the
/// sheet name in bold.
pub open spec fn entry_md(
    e: Result<NamedTableView, ErroredTableView>,
    label: Option<Seq<char>>,
    with_name: bool,
) -> Seq<char> {
    match e {
        Err(er) => "**Table errored**: "@ + er.message,
        Ok(t) => if with_name {
            "**"@ + (match label {
                Some(l) => l,
                None => t.name,
            }) + "**\n"@ + table_md(t)
        } else {
            table_md(t)
        },
    }
}

/// A whole workbook result rendered: no entry at all is an error, a single
/// entry is one bare table block, and several entries are per-sheet blocks
/// with headings, joined by blank lines, in workbook order.
pub open spec fn render_tables_spec(
    entries: Seq<Result<NamedTableView, ErroredTableView>>,
    label: Option<Seq<char>>,
) -> Result<Seq<char>, Seq<char>> {
    if entries.len() == 0 {
        Err("no results"@)
    } else if entries.len() == 1 {
        Ok(entry_md(entries[0], label, false))
    } else {
        Ok(
            join_seqs(
                Seq::new(entries.len(), |i: int| entry_md(entries[i], label, true)),
                "\n\n"@,
            ),
        )
    }
}

/// The model of a rendering result.
pub open spec fn result_view(r: Result<String, String>) -> Result<Seq<char>, Seq<char>> {
    match r {
        Ok(s) => Ok(s@),
        Err(m) => Err(m@),
    }
}

/// All tables among the entries are well-formed.
pub open spec fn entries_wf(entries: Seq<Result<NamedTable, ErroredTable>>) -> bool {
    forall|i: int|
        0 <= i < entries.len() ==> ((#[trigger] entries[i]) matches Ok(t) ==> t@.wf())
}

fn push_spaces(out: &mut String, n: usize)
    ensures
        final(out)@ == old(out)@ + spaces(n as nat),
{
    let mut k: usize = 0;
    while k < n
        invariant
            k <= n,
            out@ == old(out)@ + spaces(k as nat),
        decreases n - k,
    {
        push_char(out, ' ');
        k = k + 1;
        proof {
            assert(old(out)@ + spaces(k as nat) =~= (old(out)@ + spaces((k - 1) as nat)).push(' '));
        }
    }
}

fn push_padded(out: &mut String, s: &String, w: usize)
    ensures
        final(out)@ == old(out)@ + pad_center(s@, w as nat),
{
    let len = s.as_str().unicode_len();
    if len >= w {
        out.append(s.as_str());
    } else {
        let pad = w - len;
        let left = pad / 2;
        push_spaces(out, left);
        out.append(s.as_str());
        push_spaces(out, pad - left);
        proof {
            assert(final(out)@ =~= old(out)@ + pad_center(s@, w as nat));
        }
    }
}

/// Appends one table line: every cell of `cells` centred in its column's
/// width and closed by a pipe, after a leading pipe.
fn push_row_line(out: &mut String, cells: &Vec<String>, widths: &Vec<usize>, Ghost(ws): Ghost<Seq<nat>>)
    requires
        cells@.len() == widths@.len(),
        ws == widths@.map_values(|w: usize| w as nat),
    ensures
        final(out)@ == old(out)@ + row_md(cells.deep_view(), ws),
{
    push_char(out, '|');
    let mut j: usize = 0;
    while j < cells.len()
        invariant
            j <= cells@.len(),
            cells@.len() == widths@.len(),
            ws == widths@.map_values(|w: usize| w as nat),
            old(out)@ + row_md(cells.deep_view(), ws) == out@ + row_cells_md(
                cells.deep_view(),
                ws,
                j as int,
            ),
        decreases cells@.len() - j,
    {
        let ghost prev = out@;
        push_padded(out, &cells[j], widths[j]);
        push_char(out, '|');
        proof {
            assert(cells.deep_view()[j as int] == cells@[j as int]@);
            assert(ws[j as int] == widths@[j as int] as nat);
            assert(out@ =~= prev + (pad_center(cells@[j as int]@, widths@[j as int] as nat)
                + seq!['|']));
            assert(prev + (pad_center(cells.deep_view()[j as int], ws[j as int]) + seq!['|'])
                + row_cells_md(cells.deep_view(), ws, j + 1) =~= prev + row_cells_md(
                cells.deep_view(),
                ws,
                j as int,
            ));
        }
        j = j + 1;
    }
    proof {
        assert(row_cells_md(cells.deep_view(), ws, cells@.len() as int) =~= Seq::<char>::empty());
        assert(out@ + Seq::<char>::empty() =~= out@);
    }
}

/// Appends the separator line under the header row.
fn push_dash_line(out: &mut String, widths: &Vec<usize>, Ghost(ws): Ghost<Seq<nat>>)
    requires
        ws == widths@.map_values(|w: usize| w as nat),
    ensures
        final(out)@ == old(out)@ + dash_row_md(ws),
{
    push_char(out, '|');
    let mut j: usize = 0;
    while j < widths.len()
        invariant
            j <= widths@.len(),
            ws == widths@.map_values(|w: usize| w as nat),
            old(out)@ + dash_row_md(ws) == out@ + dash_cells_md(ws, j as int),
        decreases widths@.len() - j,
    {
        let ghost prev = out@;
        let w = widths[j];
        if w == 0 {
            push_char(out, '-');
        } else {
            let mut k: usize = 0;
            while k < w
                invariant
                    k <= w,
                    out@ == prev + dashes(k as nat),
                decreases w - k,
            {
                push_char(out, '-');
                k = k + 1;
                proof {
                    assert(prev + dashes(k as nat) =~= (prev + dashes((k - 1) as nat)).push('-'));
                }
            }
        }
        push_char(out, '|');
        proof {
            assert(ws[j as int] == widths@[j as int] as nat);
            if w == 0 {
                assert(out@ =~= prev + (dash_cell(0) + seq!['|']));
            } else {
                assert(out@ =~= prev + (dash_cell(w as nat) + seq!['|']));
            }
            assert(prev + (dash_cell(ws[j as int]) + seq!['|']) + dash_cells_md(ws, j + 1) =~= prev
                + dash_cells_md(ws, j as int));
        }
        j = j + 1;
    }
    proof {
        assert(dash_cells_md(ws, widths@.len() as int) =~= Seq::<char>::empty());
        assert(out@ + Seq::<char>::empty() =~= out@);
    }
}

/// Computes every column's width: the widest of the column name and of the
/// column's values.
fn compute_widths(t: &NamedTable) -> (w: Vec<usize>)
    requires
        t@.wf(),
    ensures
        w@.len() == t@.header.len(),
        w@.map_values(|x: usize| x as nat) == table_widths(t@),
{
    let mut w: Vec<usize> = Vec::new();
    let mut j: usize = 0;
    while j < t.header.len()
        invariant
            t@.wf(),
            j <= t@.header.len(),
            w@.len() == j,
            forall|k: int| 0 <= k < j ==> #[trigger] w@[k] as nat == col_width(t@, k),
        decreases t@.header.len() - j,
    {
        let mut m: usize = t.header[j].as_str().unicode_len();
        proof {
            assert(t@.header[j as int] == t.header@[j as int]@);
        }
        let mut i: usize = 0;
        while i < t.rows.len()
            invariant
                t@.wf(),
                j < t@.header.len(),
                i <= t@.rows.len(),
                m as nat == col_width_rows(t@.rows.subrange(0, i as int), j as int, t@.header[j as int].len()),
            decreases t@.rows.len() - i,
        {
            let ghost prefix = t@.rows.subrange(0, i as int);
            let ghost step = t@.rows.subrange(0, i as int + 1);
            proof {
                assert(t@.rows[i as int] == t.rows@[i as int].deep_view());
                assert(t.rows@[i as int]@.len() == t@.rows[i as int].len());
                assert(t@.rows[i as int].len() == t@.header.len());
            }
            let l = t.rows[i][j].as_str().unicode_len();
            proof {
                assert(t@.rows[i as int] == t.rows@[i as int].deep_view());
                assert(t@.rows[i as int][j as int] == t.rows@[i as int]@[j as int]@);
                assert(step.drop_last() =~= prefix);
                assert(step.last() == t@.rows[i as int]);
            }
            if l > m {
                m = l;
            }
            i = i + 1;
        }
        proof {
            assert(t@.rows.subrange(0, t@.rows.len() as int) =~= t@.rows);
        }
        w.push(m);
        j = j + 1;
    }
    proof {
        assert(w@.map_values(|x: usize| x as nat) =~= table_widths(t@));
    }
    w
}

/// Renders one named table as a Markdown table block: header row, separator
/// row, and one line per data row.
pub fn mk_table(t: &NamedTable) -> (r: String)
    requires
        t@.wf(),
    ensures
        r@ == table_md(t@),
{
    let widths = compute_widths(t);
    let ghost ws = widths@.map_values(|x: usize| x as nat);
    let mut out = String::new();
    push_row_line(&mut out, &t.header, &widths, Ghost(ws));
    push_char(&mut out, '\n');
    push_dash_line(&mut out, &widths, Ghost(ws));
    push_char(&mut out, '\n');
    let ghost head = out@;
    let ghost lines = Seq::new(t@.rows.len(), |i: int| row_md(t@.rows[i], ws));
    let mut i: usize = 0;
    while i < t.rows.len()
        invariant
            t@.wf(),
            i <= t@.rows.len(),
            widths@.len() == t@.header.len(),
            ws == widths@.map_values(|x: usize| x as nat),
            lines == Seq::new(t@.rows.len(), |k: int| row_md(t@.rows[k], ws)),
            out@ == head + join_seqs(lines.subrange(0, i as int), seq!['\n']),
        decreases t@.rows.len() - i,
    {
        let ghost prev = out@;
        let ghost prefix = lines.subrange(0, i as int);
        let ghost step = lines.subrange(0, i as int + 1);
        if i > 0 {
            push_char(&mut out, '\n');
        }
        proof {
            assert(t.rows@[i as int].deep_view() == t@.rows[i as int]);
            assert(t.rows@[i as int]@.len() == t@.rows[i as int].len());
        }
        push_row_line(&mut out, &t.rows[i], &widths, Ghost(ws));
        proof {
            assert(step.drop_last() =~= prefix);
            assert(step.last() == lines[i as int]);
            if i == 0 {
                assert(join_seqs(prefix, seq!['\n']) =~= Seq::<char>::empty());
                assert(out@ =~= head + join_seqs(step, seq!['\n']));
            } else {
                assert(join_seqs(step, seq!['\n']) == join_seqs(prefix, seq!['\n']) + seq!['\n']
                    + lines[i as int]);
                assert(out@ =~= head + join_seqs(step, seq!['\n']));
            }
        }
        i = i + 1;
    }
    proof {
        assert(lines.subrange(0, t@.rows.len() as int) =~= lines);
        assert(out@ =~= table_md(t@));
    }
    out
}

/// Renders one workbook-result entry, with a bold heading over the table
/// when `with_name` is set; the heading override of the options, when
/// present, replaces the sheet name as the heading text.
pub fn named_table_to_md(
    entry: &Result<NamedTable, ErroredTable>,
    with_name: bool,
    options: &Option<RenderOptions>,
) -> (r: String)
    requires
        *entry matches Ok(t) ==> t@.wf(),
    ensures
        r@ == entry_md(entry_view(*entry), label_of(*options), with_name),
{
    match entry {
        Err(er) => {
            let mut m = String::from_str("**Table errored**: ");
            m.append(er.message.as_str());
            proof {
                assert(m@ =~= entry_md(entry_view(*entry), label_of(*options), with_name));
            }
            m
        },
        Ok(t) => {
            if with_name {
                let mut m = String::from_str("**");
                match options {
                    Some(o) => match &o.headings {
                        Some(h) => m.append(h.as_str()),
                        None => m.append(t.name.as_str()),
                    },
                    None => m.append(t.name.as_str()),
                }
                m.append("**\n");
                let block = mk_table(t);
                m.append(block.as_str());
                proof {
                    assert(m@ =~= entry_md(entry_view(*entry), label_of(*options), with_name));
                }
                m
            } else {
                mk_table(t)
            }
        },
    }
}

/// Renders a whole workbook result as one Markdown document: one bare table
/// block for a single entry, per-sheet blocks with headings joined by blank
/// lines for several, and an error when there is no entry at all.
pub fn tables_to_md(
    results: &Vec<Result<NamedTable, ErroredTable>>,
    options: &Option<RenderOptions>,
) -> (r: Result<String, String>)
    requires
        entries_wf(results@),
    ensures
        result_view(r) == render_tables_spec(entries_view(results@), label_of(*options)),
{
    if results.len() == 0 {
        Err(String::from_str("no results"))
    } else if results.len() == 1 {
        Ok(named_table_to_md(&results[0], false, options))
    } else {
        let ghost blocks = Seq::new(
            results@.len(),
            |i: int| entry_md(entry_view(results@[i]), label_of(*options), true),
        );
        let mut out = String::new();
        let mut i: usize = 0;
        while i < results.len()
            invariant
                entries_wf(results@),
                1 <= results@.len(),
                i <= results@.len(),
                blocks == Seq::new(
                    results@.len(),
                    |k: int| entry_md(entry_view(results@[k]), label_of(*options), true),
                ),
                out@ == join_seqs(blocks.subrange(0, i as int), "\n\n"@),
            decreases results@.len() - i,
        {
            let ghost prefix = blocks.subrange(0, i as int);
            let ghost step = blocks.subrange(0, i as int + 1);
            if i > 0 {
                out.append("\n\n");
            }
            let block = named_table_to_md(&results[i], true, options);
            out.append(block.as_str());
            proof {
                assert(step.drop_last() =~= prefix);
                assert(step.last() == blocks[i as int]);
                if i == 0 {
                    assert(join_seqs(prefix, "\n\n"@) =~= Seq::<char>::empty());
                    assert(out@ =~= join_seqs(step, "\n\n"@));
                } else {
                    assert(out@ =~= join_seqs(step, "\n\n"@));
                }
            }
            i = i + 1;
        }
        proof {
            assert(blocks.subrange(0, results@.len() as int) =~= blocks);
            assert(entries_view(results@).len() == results@.len());
            assert(Seq::new(
                entries_view(results@).len(),
                |i: int| entry_md(entries_view(results@)[i], label_of(*options), true),
            ) =~= blocks);
        }
        Ok(out)
    }
}

/// Rendering is deterministic: two renderings of the same workbook result
/// with the same options yield byte-identical output.
pub proof fn lemma_render_idempotent(
    r1: Result<String, String>,
    r2: Result<String, String>,
    entries: Seq<Result<NamedTableView, ErroredTableView>>,
    label: Option<Seq<char>>,
)
    requires
        result_view(r1) == render_tables_spec(entries, label),
        result_view(r2) == render_tables_spec(entries, label),
    ensures
        result_view(r1) == result_view(r2),
{
}

/// A workbook filtered to a sheet name that no sheet bears yields an empty
/// result, and rendering an empty result fails: with one result entry per
/// selected sheet, an absent name leaves nothing to render.
pub proof fn lemma_absent_filter_renders_nothing(
    names: Seq<Seq<char>>,
    f: Seq<char>,
    entries: Seq<Result<NamedTableView, ErroredTableView>>,
    label: Option<Seq<char>>,
)
    requires
        forall|i: int| 0 <= i < names.len() ==> names[i] != f,
        entries.len() == names.filter(crate::extract::name_eq(f)).len(),
    ensures
        render_tables_spec(entries, label) == Err::<Seq<char>, Seq<char>>("no results"@),
{
    crate::extract::lemma_select_absent(names, f);
}

/// Extracts every given sheet and renders the workbook result as one
/// Markdown document; the sheets are expected to have been selected
/// upstream when a sheet-name filter is in force.
pub fn spreadsheet_to_md(sheets: &Vec<SheetData>, options: &Option<RenderOptions>) -> (r: Result<
    String,
    String,
>)
    ensures
        result_view(r) == render_tables_spec(extracted_entries(sheets@), label_of(*options)),
{
    let entries = extract_workbook(sheets);
    proof {
        assert forall|i: int| 0 <= i < entries@.len() implies ((#[trigger] entries@[i]) matches Ok(t)
            ==> t@.wf()) by {
            assert(entry_view(entries@[i]) == entries_view(entries@)[i]);
            crate::extract::lemma_extracted_table_wf(sheets@[i]);
        }
    }
    tables_to_md(&entries, options)
}

} // verus!
