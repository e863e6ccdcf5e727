//! [`CsvTable`] collects comma-separated lines and renders them as a table
//! whose columns line up.

use vstd::prelude::*;
use vstd::utf8::{decode_utf8, valid_utf8};
use crate::text::{
    chars_of, extend_chars, join, joined, push_repeated, repeated, split_chars, split_on, string_of, trim,
    trimmed, views, lemma_trim_idempotent,
};

use std::str::Utf8Error;

verus! {

#[verifier::external_type_specification]
#[verifier::external_body]
pub struct ExUtf8Error(Utf8Error);

/// `std::str::from_utf8`: the text that `buf` encodes in UTF-8, or an error
/// when it is not valid UTF-8.
#[verifier::external_body]
fn utf8_text(buf: &[u8]) -> (r: Result<&str, Utf8Error>)
    ensures
        r is Ok <==> valid_utf8(buf@),
        r matches Ok(s) ==> s@ == decode_utf8(buf@),
{
    std::str::from_utf8(buf)
}

/// `ToString::to_string` on a `Utf8Error`: its message. Nothing is claimed of the text.
#[verifier::external_body]
fn utf8_error_text(e: &Utf8Error) -> String {
    e.to_string()
}

/// Why a line could not be added to the table.
#[derive(Debug, Clone)]
pub enum CsvError {
    /// The bytes are not valid UTF-8.
    InvalidData { message: String },
    /// The line does not have as many fields as the header.
    InvalidInput { message: String },
}

impl CsvError {
    /// The error's message.
    pub fn message(&self) -> (r: String)
        ensures
            r@ == match self {
                CsvError::InvalidData { message } => message@,
                CsvError::InvalidInput { message } => message@,
            },
    {
        match self {
            CsvError::InvalidData { message } => message.clone(),
            CsvError::InvalidInput { message } => message.clone(),
        }
    }
}

/// The fields of a line: the trimmed line split at commas, each part trimmed.
pub open spec fn csv_fields(line: Seq<char>) -> Seq<Seq<char>> {
    split_on(line, ',').map_values(|f: Seq<char>| trim(f))
}

/// The width of column `i`: its longest field, header included.
pub open spec fn widest(header: Seq<Seq<char>>, rows: Seq<Seq<Seq<char>>>, i: int) -> nat
    decreases rows.len(),
{
    if rows.len() == 0 {
        header[i].len()
    } else {
        let w = widest(header, rows.drop_last(), i);
        let f = rows.last()[i].len();
        if f > w {
            f
        } else {
            w
        }
    }
}

/// The contents of a table.
pub struct CsvView {
    pub header: Seq<Seq<char>>,
    pub rows: Seq<Seq<Seq<char>>>,
    pub widths: Seq<nat>,
}

/// A table's contents agree with one another: no rows before a header;
/// every row as long as the header; each column as wide as its longest field.
pub open spec fn consistent(v: CsvView) -> bool {
    &&& v.widths.len() == v.header.len()
    &&& v.header.len() == 0 ==> v.rows.len() == 0
    &&& forall|r: int| 0 <= r < v.rows.len() ==> (#[trigger] v.rows[r]).len() == v.header.len()
    &&& forall|i: int| 0 <= i < v.header.len() ==> #[trigger] v.widths[i] == widest(v.header, v.rows, i)
}

/// A field padded with spaces on the right to `width` characters.
pub open spec fn padded(field: Seq<char>, width: nat) -> Seq<char> {
    if field.len() >= width {
        field
    } else {
        field + repeated(' ', (width - field.len()) as nat)
    }
}

/// Every field padded to the width of its column.
pub open spec fn padded_all(fields: Seq<Seq<char>>, widths: Seq<nat>) -> Seq<Seq<char>> {
    Seq::new(fields.len(), |i: int| padded(fields[i], widths[i]))
}

/// What stands between two fields of a rendered line.
pub open spec fn column_separator() -> Seq<char> {
    seq![' ', '|', ' ']
}

/// A line of the table: its padded fields separated by ` | `.
pub open spec fn rendered_row(fields: Seq<Seq<char>>, widths: Seq<nat>) -> Seq<char> {
    join(padded_all(fields, widths), column_separator())
}

/// The sum of the widths.
pub open spec fn total(widths: Seq<nat>) -> nat
    decreases widths.len(),
{
    if widths.len() == 0 {
        0
    } else {
        total(widths.drop_last()) + widths.last()
    }
}

/// The width of a rendered line: the columns' widths plus three characters
/// for each separator.
pub open spec fn rule_width(widths: Seq<nat>) -> nat {
    total(widths) + 3 * ((widths.len() - 1) as nat)
}

/// The rendered rows, one per row.
pub open spec fn rendered_rows(rows: Seq<Seq<Seq<char>>>, widths: Seq<nat>) -> Seq<Seq<char>> {
    Seq::new(rows.len(), |r: int| rendered_row(rows[r], widths))
}

/// The table as text: the header line, a line of dashes as wide as a
/// rendered line, then the rows, one per line. A table without a header
/// renders as nothing.
pub open spec fn table_text(v: CsvView) -> Seq<char> {
    if v.header.len() == 0 {
        Seq::empty()
    } else {
        rendered_row(v.header, v.widths) + seq!['\n'] + repeated('-', rule_width(v.widths)) + seq![
            '\n',
        ] + join(rendered_rows(v.rows, v.widths), seq!['\n'])
    }
}

/// The table with every field padded to the width of its column.
pub open spec fn padded_view(v: CsvView) -> CsvView {
    CsvView {
        header: padded_all(v.header, v.widths),
        rows: Seq::new(v.rows.len(), |r: int| padded_all(v.rows[r], v.widths)),
        widths: v.widths,
    }
}

/// A column is at least as wide as each of its fields.
proof fn lemma_widest_bounds(header: Seq<Seq<char>>, rows: Seq<Seq<Seq<char>>>, i: int)
    ensures
        widest(header, rows, i) >= header[i].len(),
        forall|r: int| 0 <= r < rows.len() ==> widest(header, rows, i) >= #[trigger] rows[r][i].len(),
    decreases rows.len(),
{
    if rows.len() > 0 {
        lemma_widest_bounds(header, rows.drop_last(), i);
        assert forall|r: int| 0 <= r < rows.len() implies widest(header, rows, i) >= #[trigger] rows[r][i].len() by {
            if r < rows.len() - 1 {
                assert(rows.drop_last()[r] == rows[r]);
            }
        }
    }
}

/// A column whose fields all have the same length is exactly that wide.
proof fn lemma_widest_uniform(header: Seq<Seq<char>>, rows: Seq<Seq<Seq<char>>>, i: int, w: nat)
    requires
        header[i].len() == w,
        forall|r: int| 0 <= r < rows.len() ==> (#[trigger] rows[r])[i].len() == w,
    ensures
        widest(header, rows, i) == w,
    decreases rows.len(),
{
    if rows.len() > 0 {
        assert forall|r: int| 0 <= r < rows.drop_last().len() implies (#[trigger] rows.drop_last()[r])[i].len() == w by {
            assert(rows.drop_last()[r] == rows[r]);
        }
        lemma_widest_uniform(header, rows.drop_last(), i, w);
    }
}

/// Every field of a consistent table fits the width of its column.
proof fn lemma_fields_fit(v: CsvView)
    requires
        consistent(v),
    ensures
        forall|i: int| 0 <= i < v.header.len() ==> v.header[i].len() <= #[trigger] v.widths[i],
        forall|r: int, i: int|
            0 <= r < v.rows.len() && 0 <= i < v.header.len() ==> (#[trigger] v.rows[r])[i].len()
                <= #[trigger] v.widths[i],
{
    assert forall|i: int| 0 <= i < v.header.len() implies v.header[i].len() <= #[trigger] v.widths[i] by {
        lemma_widest_bounds(v.header, v.rows, i);
    }
    assert forall|r: int, i: int|
        0 <= r < v.rows.len() && 0 <= i < v.header.len() implies (#[trigger] v.rows[r])[i].len()
            <= #[trigger] v.widths[i] by {
        lemma_widest_bounds(v.header, v.rows, i);
    }
}

/// A rendered line is as wide as the line of dashes, when every field fits
/// its column.
pub proof fn lemma_row_width(fields: Seq<Seq<char>>, widths: Seq<nat>)
    requires
        fields.len() == widths.len() >= 1,
        forall|i: int| 0 <= i < fields.len() ==> (#[trigger] fields[i]).len() <= widths[i],
    ensures
        rendered_row(fields, widths).len() == rule_width(widths),
    decreases fields.len(),
{
    let p = padded_all(fields, widths);
    let n = fields.len();
    assert(fields[n - 1].len() <= widths[n - 1]);
    assert(p[n - 1].len() == widths[n - 1]);
    if n > 1 {
        let f = fields.drop_last();
        let w = widths.drop_last();
        assert forall|i: int| 0 <= i < f.len() implies (#[trigger] f[i]).len() <= w[i] by {
            assert(f[i] == fields[i]);
        }
        lemma_row_width(f, w);
        assert(p.drop_last() =~= padded_all(f, w));
        assert(join(p, column_separator()) == join(p.drop_last(), column_separator())
            + column_separator() + p.last());
        assert(total(widths) == total(w) + widths[n - 1]);
    } else {
        assert(widths.drop_last().len() == 0);
        assert(total(widths) == total(widths.drop_last()) + widths[0]);
        assert(join(p, column_separator()) == p[0]);
    }
}

/// The lines of a table line up: the header line and every row are as wide
/// as the line of dashes between them.
pub proof fn lemma_table_lines_aligned(v: CsvView)
    requires
        consistent(v),
        v.header.len() >= 1,
    ensures
        rendered_row(v.header, v.widths).len() == rule_width(v.widths),
        forall|r: int|
            0 <= r < v.rows.len() ==> (#[trigger] rendered_rows(v.rows, v.widths)[r]).len()
                == rule_width(v.widths),
{
    lemma_fields_fit(v);
    lemma_row_width(v.header, v.widths);
    assert forall|r: int| 0 <= r < v.rows.len() implies (#[trigger] rendered_rows(
        v.rows,
        v.widths,
    )[r]).len() == rule_width(v.widths) by {
        assert forall|i: int| 0 <= i < v.rows[r].len() implies (#[trigger] v.rows[r][i]).len()
            <= v.widths[i] by {
            assert(v.rows[r][i].len() <= v.widths[i]);
        }
        lemma_row_width(v.rows[r], v.widths);
    }
}

/// Padding a consistent table keeps it consistent, with the same widths;
/// every field then is exactly as wide as its column.
pub proof fn lemma_padding_consistent(v: CsvView)
    requires
        consistent(v),
    ensures
        consistent(padded_view(v)),
        forall|i: int| 0 <= i < v.header.len() ==> (#[trigger] padded_view(v).header[i]).len() == v.widths[i],
        forall|r: int, i: int|
            0 <= r < v.rows.len() && 0 <= i < v.header.len() ==> (#[trigger] padded_view(v).rows[r][i]).len()
                == v.widths[i],
{
    lemma_fields_fit(v);
    let p = padded_view(v);
    assert forall|i: int| 0 <= i < p.header.len() implies #[trigger] p.widths[i] == widest(
        p.header,
        p.rows,
        i,
    ) by {
        assert forall|r: int| 0 <= r < p.rows.len() implies (#[trigger] p.rows[r])[i].len()
            == v.widths[i] by {
            assert(v.rows[r][i].len() <= v.widths[i]);
        }
        lemma_widest_uniform(p.header, p.rows, i, v.widths[i]);
    }
    assert forall|r: int, i: int|
        0 <= r < v.rows.len() && 0 <= i < v.header.len() implies (#[trigger] padded_view(v).rows[r][i]).len()
            == v.widths[i] by {
        assert(v.rows[r][i].len() <= v.widths[i]);
    }
}

/// Rendering a table a second time gives the same text: the first rendering
/// pads the fields, and padding a padded table changes nothing.
pub proof fn lemma_rendering_stable(v: CsvView)
    requires
        consistent(v),
    ensures
        padded_view(padded_view(v)) == padded_view(v),
        table_text(padded_view(v)) == table_text(v),
{
    lemma_fields_fit(v);
    let p = padded_view(v);
    assert(p.header =~= padded_all(p.header, p.widths));
    assert forall|r: int| 0 <= r < p.rows.len() implies #[trigger] padded_all(p.rows[r], p.widths)
        == p.rows[r] by {
        assert forall|i: int| 0 <= i < p.rows[r].len() implies padded(p.rows[r][i], p.widths[i])
            == #[trigger] p.rows[r][i] by {
            assert(v.rows[r][i].len() <= v.widths[i]);
        }
        assert(padded_all(p.rows[r], p.widths) =~= p.rows[r]);
    }
    assert(padded_view(p).rows =~= p.rows);
    assert(padded_view(p).header =~= p.header);
    assert(padded_view(p) == p);
    assert(padded_all(p.header, p.widths) =~= padded_all(v.header, v.widths));
    assert forall|r: int| 0 <= r < v.rows.len() implies #[trigger] rendered_rows(p.rows, p.widths)[r]
        == rendered_rows(v.rows, v.widths)[r] by {
        assert(padded_all(p.rows[r], p.widths) =~= padded_all(v.rows[r], v.widths));
    }
    assert(rendered_rows(p.rows, p.widths) =~= rendered_rows(v.rows, v.widths));
}

/// How a table changes when it takes in a line of text: blank lines are
/// skipped; the first other line becomes the header; a later line whose
/// fields are as many as the header's becomes a row; any other line is
/// refused with the table unchanged.
pub open spec fn line_taken(
    before: CsvView,
    text: Seq<char>,
    after: CsvView,
    r: Result<(), CsvError>,
) -> bool {
    let line = trim(text);
    let fields = csv_fields(line);
    if line.len() == 0 {
        r is Ok && after == before
    } else if before.header.len() == 0 {
        &&& r is Ok
        &&& after.header == fields
        &&& after.rows.len() == 0
    } else if fields.len() != before.header.len() {
        &&& r matches Err(CsvError::InvalidInput { message })
        &&& message@ == "invalid number of columns"@
        &&& after == before
    } else {
        &&& r is Ok
        &&& after.header == before.header
        &&& after.rows == before.rows.push(fields)
    }
}

/// No field of the table has white space at its start or end.
pub open spec fn fields_trimmed(v: CsvView) -> bool {
    &&& forall|i: int| 0 <= i < v.header.len() ==> trim(#[trigger] v.header[i]) == v.header[i]
    &&& forall|r: int, i: int|
        0 <= r < v.rows.len() && 0 <= i < v.rows[r].len() ==> trim(#[trigger] v.rows[r][i])
            == v.rows[r][i]
}

/// The fields of a line carry no white space at their start or end.
proof fn lemma_csv_fields_trimmed(line: Seq<char>)
    ensures
        forall|i: int| 0 <= i < csv_fields(line).len() ==> trim(#[trigger] csv_fields(line)[i])
            == csv_fields(line)[i],
{
    assert forall|i: int| 0 <= i < csv_fields(line).len() implies trim(
        #[trigger] csv_fields(line)[i],
    ) == csv_fields(line)[i] by {
        lemma_trim_idempotent(split_on(line, ',')[i]);
    }
}

/// Taking in a line keeps every stored field free of white space at its
/// start and end: the fields of a line are trimmed before they are stored.
pub proof fn lemma_taken_fields_trimmed(
    before: CsvView,
    text: Seq<char>,
    after: CsvView,
    r: Result<(), CsvError>,
)
    requires
        fields_trimmed(before),
        line_taken(before, text, after, r),
    ensures
        fields_trimmed(after),
{
    let fields = csv_fields(trim(text));
    lemma_csv_fields_trimmed(trim(text));
    if trim(text).len() != 0 && !(before.header.len() != 0 && fields.len() != before.header.len()) {
        if before.header.len() != 0 {
            assert forall|r: int, i: int|
                0 <= r < after.rows.len() && 0 <= i < after.rows[r].len() implies trim(
                #[trigger] after.rows[r][i],
            ) == after.rows[r][i] by {
                if r < before.rows.len() {
                    assert(after.rows[r] == before.rows[r]);
                } else {
                    assert(after.rows[r] == fields);
                }
            }
        }
    }
}

/// A table with the given header and rows, each column as wide as its
/// longest field.
pub open spec fn with_widths(header: Seq<Seq<char>>, rows: Seq<Seq<Seq<char>>>) -> CsvView {
    CsvView { header, rows, widths: Seq::new(header.len(), |i: int| widest(header, rows, i)) }
}

/// The table after taking in a line of text, as `line_taken` describes it.
pub open spec fn take_line(before: CsvView, text: Seq<char>) -> CsvView {
    let line = trim(text);
    let fields = csv_fields(line);
    if line.len() == 0 {
        before
    } else if before.header.len() == 0 {
        with_widths(fields, Seq::empty())
    } else if fields.len() != before.header.len() {
        before
    } else {
        with_widths(before.header, before.rows.push(fields))
    }
}

/// The table that taking in the lines one after another builds, starting
/// from an empty one; lines it refuses leave it as it was.
pub open spec fn table_of(lines: Seq<Seq<char>>) -> CsvView
    decreases lines.len(),
{
    if lines.len() == 0 {
        CsvView { header: Seq::empty(), rows: Seq::empty(), widths: Seq::empty() }
    } else {
        take_line(table_of(lines.drop_last()), lines.last())
    }
}

/// Taking in a line as `take_line` describes keeps a table consistent and
/// its fields trimmed.
proof fn lemma_take_line_keeps(before: CsvView, text: Seq<char>)
    requires
        consistent(before),
        fields_trimmed(before),
    ensures
        consistent(take_line(before, text)),
        fields_trimmed(take_line(before, text)),
{
    let line = trim(text);
    let fields = csv_fields(line);
    let after = take_line(before, text);
    lemma_csv_fields_trimmed(line);
    if line.len() != 0 {
        if before.header.len() == 0 {
            assert(after.rows =~= Seq::<Seq<Seq<char>>>::empty());
        } else if fields.len() == before.header.len() {
            let rows = before.rows.push(fields);
            assert forall|r: int| 0 <= r < rows.len() implies (#[trigger] rows[r]).len()
                == before.header.len() by {
                if r < before.rows.len() {
                    assert(rows[r] == before.rows[r]);
                }
            }
            assert forall|r: int, i: int|
                0 <= r < after.rows.len() && 0 <= i < after.rows[r].len() implies trim(
                #[trigger] after.rows[r][i],
            ) == after.rows[r][i] by {
                if r < before.rows.len() {
                    assert(after.rows[r] == before.rows[r]);
                } else {
                    assert(after.rows[r] == fields);
                }
            }
        }
    }
}

/// Whatever lines a table takes in, one after another from an empty table,
/// it stays consistent: every row as long as the header, no rows before a
/// header, each column as wide as its widest field; and no field it stores
/// has white space at its start or end.
pub proof fn lemma_table_of_keeps(lines: Seq<Seq<char>>)
    ensures
        consistent(table_of(lines)),
        fields_trimmed(table_of(lines)),
    decreases lines.len(),
{
    if lines.len() > 0 {
        lemma_table_of_keeps(lines.drop_last());
        lemma_take_line_keeps(table_of(lines.drop_last()), lines.last());
    }
}

/// A consistent table after taking in a line is the one `take_line` gives.
pub proof fn lemma_line_taken_is_take_line(
    before: CsvView,
    text: Seq<char>,
    after: CsvView,
    r: Result<(), CsvError>,
)
    requires
        consistent(after),
        line_taken(before, text, after, r),
    ensures
        after == take_line(before, text),
{
    let line = trim(text);
    let fields = csv_fields(line);
    if line.len() != 0 && !(before.header.len() != 0 && fields.len() != before.header.len()) {
        let expected = take_line(before, text);
        if before.header.len() == 0 {
            assert(after.rows =~= Seq::<Seq<Seq<char>>>::empty());
        }
        assert(after.header == expected.header);
        assert(after.rows == expected.rows);
        assert(after.widths =~= expected.widths);
    }
}

/// A table of comma-separated values: a header, rows of as many fields, and
/// the width of each column.
#[derive(Debug, Default)]
pub struct CsvTable {
    header: Vec<Vec<char>>,
    rows: Vec<Vec<Vec<char>>>,
    max_len_per_column: Vec<usize>,
}

/// The views of a list of rows.
pub open spec fn row_views(rows: Seq<Vec<Vec<char>>>) -> Seq<Seq<Seq<char>>> {
    rows.map_values(|r: Vec<Vec<char>>| views(r@))
}

/// The widths as numbers.
pub open spec fn width_values(w: Seq<usize>) -> Seq<nat> {
    w.map_values(|x: usize| x as nat)
}

impl View for CsvTable {
    type V = CsvView;

    closed spec fn view(&self) -> CsvView {
        CsvView {
            header: views(self.header@),
            rows: row_views(self.rows@),
            widths: width_values(self.max_len_per_column@),
        }
    }
}

/// Column widths after one more row: each the larger of the old width and
/// the new field.
proof fn lemma_widest_push(header: Seq<Seq<char>>, rows: Seq<Seq<Seq<char>>>, row: Seq<Seq<char>>, i: int)
    ensures
        widest(header, rows.push(row), i) == if row[i].len() > widest(header, rows, i) {
            row[i].len()
        } else {
            widest(header, rows, i)
        },
{
    assert(rows.push(row).drop_last() =~= rows);
}

/// A copy of a character vector.
fn copy_chars(v: &Vec<char>) -> (r: Vec<char>)
    ensures
        r@ == v@,
{
    let mut r: Vec<char> = Vec::new();
    extend_chars(&mut r, v.as_slice());
    r
}

/// Every field padded with spaces to the width of its column.
fn pad_fields(fields: &Vec<Vec<char>>, widths: &Vec<usize>) -> (r: Vec<Vec<char>>)
    requires
        fields@.len() == widths@.len(),
        forall|i: int| 0 <= i < fields@.len() ==> (#[trigger] fields@[i])@.len() <= widths@[i],
    ensures
        views(r@) == padded_all(views(fields@), width_values(widths@)),
{
    let mut r: Vec<Vec<char>> = Vec::new();
    let n = fields.len();
    for i in 0..n
        invariant
            n == fields@.len(),
            n == widths@.len(),
            forall|j: int| 0 <= j < fields@.len() ==> (#[trigger] fields@[j])@.len() <= widths@[j],
            views(r@) == padded_all(views(fields@), width_values(widths@)).take(i as int),
    {
        let mut f = copy_chars(&fields[i]);
        assert(fields@[i as int]@.len() <= widths@[i as int]);
        let to_add = widths[i] - f.len();
        push_repeated(&mut f, ' ', to_add);
        let ghost prior = r@;
        let ghost fv = f@;
        r.push(f);
        assert(views(r@) =~= views(prior).push(fv));
        assert(padded_all(views(fields@), width_values(widths@)).take(i + 1) =~= padded_all(
            views(fields@),
            width_values(widths@),
        ).take(i as int).push(fv));
    }
    assert(padded_all(views(fields@), width_values(widths@)).take(n as int) =~= padded_all(
        views(fields@),
        width_values(widths@),
    ));
    r
}

/// The sum of the widths of the first `k` columns is at most that of all.
proof fn lemma_total_prefix(widths: Seq<nat>, k: int)
    requires
        0 <= k <= widths.len(),
    ensures
        total(widths.take(k)) <= total(widths),
    decreases widths.len(),
{
    if k < widths.len() {
        assert(widths.drop_last().take(k) =~= widths.take(k));
        lemma_total_prefix(widths.drop_last(), k);
    } else {
        assert(widths.take(k) =~= widths);
    }
}

impl CsvTable {
    /// The table's contents agree with one another.
    pub open spec fn wf(&self) -> bool {
        consistent(self@)
    }

    /// An empty table.
    pub fn new() -> (r: Self)
        ensures
            r.wf(),
            r@.header.len() == 0,
            r@.rows.len() == 0,
            fields_trimmed(r@),
    {
        let r = CsvTable { header: Vec::new(), rows: Vec::new(), max_len_per_column: Vec::new() };
        assert(r@.header =~= Seq::<Seq<char>>::empty());
        assert(r@.rows =~= Seq::<Seq<Seq<char>>>::empty());
        assert(r@.widths =~= Seq::<nat>::empty());
        r
    }

    /// Takes in one line of text. Blank lines are skipped; the first line
    /// that is not blank is the header; every later line is a row and must
    /// have as many fields as the header.
    pub fn write_text(&mut self, text: &str) -> (r: Result<(), CsvError>)
        requires
            old(self).wf(),
        ensures
            final(self).wf(),
            line_taken(old(self)@, text@, final(self)@, r),
            fields_trimmed(old(self)@) ==> fields_trimmed(final(self)@),
    {
        let r = self.take_text(text);
        proof {
            if fields_trimmed(old(self)@) {
                lemma_taken_fields_trimmed(old(self)@, text@, self@, r);
            }
        }
        r
    }

    /// Takes in one line of text, as `line_taken` describes it.
    fn take_text(&mut self, text: &str) -> (r: Result<(), CsvError>)
        requires
            old(self).wf(),
        ensures
            final(self).wf(),
            line_taken(old(self)@, text@, final(self)@, r),
    {
        let cs = chars_of(text);
        let line = trimmed(cs.as_slice());
        if line.len() == 0 {
            return Ok(());
        }
        let pieces = split_chars(line.as_slice(), ',');
        let ghost expected = csv_fields(line@);
        let mut fields: Vec<Vec<char>> = Vec::new();
        let n = pieces.len();
        assert(expected.len() == views(pieces@).len());
        for k in 0..n
            invariant
                n == pieces@.len(),
                views(pieces@) == split_on(line@, ','),
                expected == csv_fields(line@),
                expected.len() == n,
                views(fields@) == expected.take(k as int),
        {
            let f = trimmed(pieces[k].as_slice());
            assert(views(pieces@)[k as int] == pieces@[k as int]@);
            assert(expected[k as int] == trim(pieces@[k as int]@));
            let ghost prior = fields@;
            let ghost fv = f@;
            fields.push(f);
            assert(views(fields@) =~= views(prior).push(fv));
            assert(expected.take(k + 1) =~= expected.take(k as int).push(expected[k as int]));
        }
        assert(expected.take(n as int) =~= expected);
        let ghost before = self@;
        if self.header.len() == 0 {
            let mut widths: Vec<usize> = Vec::new();
            for k in 0..n
                invariant
                    n == fields@.len(),
                    widths@.len() == k,
                    forall|j: int| 0 <= j < k ==> widths@[j] == fields@[j]@.len(),
            {
                widths.push(fields[k].len());
            }
            self.header = fields;
            self.max_len_per_column = widths;
            assert(self.rows@.len() == 0);
            assert(self@.rows =~= Seq::<Seq<Seq<char>>>::empty());
            assert forall|i: int| 0 <= i < self@.header.len() implies #[trigger] self@.widths[i]
                == widest(self@.header, self@.rows, i) by {}
            Ok(())
        } else if n != self.header.len() {
            Err(CsvError::InvalidInput { message: String::from_str("invalid number of columns") })
        } else {
            let m = self.max_len_per_column.len();
            for k in 0..m
                invariant
                    m == self.max_len_per_column@.len(),
                    m == old(self).max_len_per_column@.len(),
                    m == n,
                    n == fields@.len(),
                    self.header == old(self).header,
                    self.rows == old(self).rows,
                    forall|j: int|
                        0 <= j < k ==> #[trigger] self.max_len_per_column@[j] as nat == if fields@[j]@.len()
                            > old(self).max_len_per_column@[j] {
                            fields@[j]@.len()
                        } else {
                            old(self).max_len_per_column@[j] as nat
                        },
                    forall|j: int| k <= j < m ==> #[trigger] self.max_len_per_column@[j] == old(self).max_len_per_column@[j],
            {
                if fields[k].len() > self.max_len_per_column[k] {
                    self.max_len_per_column.set(k, fields[k].len());
                }
            }
            let ghost new_row = views(fields@);
            let ghost fv = fields@;
            self.rows.push(fields);
            assert(row_views(self.rows@) =~= before.rows.push(new_row));
            assert forall|i: int| 0 <= i < self@.header.len() implies #[trigger] self@.widths[i]
                == widest(self@.header, self@.rows, i) by {
                lemma_widest_push(before.header, before.rows, new_row, i);
                assert(before.widths[i] == old(self).max_len_per_column@[i] as nat);
                assert(new_row[i] == fv[i]@);
                assert(self@.widths[i] == self.max_len_per_column@[i] as nat);
            }
            Ok(())
        }
    }

    /// Takes in one line of input given as UTF-8 bytes; on success, all of
    /// the bytes are taken.
    pub fn write(&mut self, buf: &[u8]) -> (r: Result<usize, CsvError>)
        requires
            old(self).wf(),
        ensures
            final(self).wf(),
            !valid_utf8(buf@) ==> r is Err && r->Err_0 is InvalidData && final(self)@ == old(
                self,
            )@,
            valid_utf8(buf@) ==> line_taken(
                old(self)@,
                decode_utf8(buf@),
                final(self)@,
                match r {
                    Ok(_) => Ok(()),
                    Err(e) => Err(e),
                },
            ),
            r is Ok ==> r == Ok::<usize, CsvError>(buf@.len() as usize),
            fields_trimmed(old(self)@) ==> fields_trimmed(final(self)@),
    {
        let text = match utf8_text(buf) {
            Ok(t) => t,
            Err(e) => {
                return Err(CsvError::InvalidData { message: utf8_error_text(&e) });
            },
        };
        match self.write_text(text) {
            Ok(()) => Ok(buf.len()),
            Err(e) => Err(e),
        }
    }

    /// Whether the table can be rendered: a rendered line's width must fit in
    /// a `usize`.
    pub fn fits_rendering(&self) -> (r: bool)
        requires
            self.wf(),
        ensures
            r == (self@.header.len() > 0 ==> rule_width(self@.widths) <= usize::MAX),
    {
        let n = self.max_len_per_column.len();
        if n == 0 {
            return true;
        }
        let ghost v = self@;
        let mut acc: u128 = 0;
        for i in 0..n
            invariant
                n == self.max_len_per_column@.len(),
                v == self@,
                n == v.widths.len(),
                consistent(v),
                acc == total(v.widths.take(i as int)),
                acc <= usize::MAX,
        {
            assert(v.widths.take(i + 1).drop_last() =~= v.widths.take(i as int));
            acc = acc + self.max_len_per_column[i] as u128;
            assert(v.widths[i as int] == self.max_len_per_column@[i as int] as nat);
            assert(acc == total(v.widths.take(i + 1)));
            if acc > usize::MAX as u128 {
                proof {
                    lemma_total_prefix(v.widths, i + 1);
                }
                return false;
            }
        }
        assert(v.widths.take(n as int) =~= v.widths);
        acc = acc + 3 * (n as u128 - 1);
        acc <= usize::MAX as u128
    }

    /// Renders the table as text, after padding every field in place to the
    /// width of its column. A table without a header renders as nothing.
    pub fn output_to(&mut self) -> (r: String)
        requires
            old(self).wf(),
            old(self)@.header.len() > 0 ==> rule_width(old(self)@.widths) <= usize::MAX,
        ensures
            final(self).wf(),
            r@ == table_text(old(self)@),
            final(self)@ == if old(self)@.header.len() == 0 {
                old(self)@
            } else {
                padded_view(old(self)@)
            },
    {
        if self.header.len() == 0 {
            return String::new();
        }
        let ghost v = self@;
        proof {
            lemma_fields_fit(v);
            lemma_padding_consistent(v);
        }
        let n = self.header.len();
        assert forall|i: int| 0 <= i < self.header@.len() implies (#[trigger] self.header@[i])@.len()
            <= self.max_len_per_column@[i] by {
            assert(v.header[i] == self.header@[i]@);
            assert(v.widths[i] == self.max_len_per_column@[i] as nat);
        }
        let header = pad_fields(&self.header, &self.max_len_per_column);
        let mut rows: Vec<Vec<Vec<char>>> = Vec::new();
        let m = self.rows.len();
        for r in 0..m
            invariant
                m == self.rows@.len(),
                v == self@,
                consistent(v),
                n == v.header.len(),
                row_views(rows@) == padded_view(v).rows.take(r as int),
                forall|r2: int, i: int|
                    0 <= r2 < v.rows.len() && 0 <= i < v.header.len() ==> (#[trigger] v.rows[r2])[i].len()
                        <= #[trigger] v.widths[i],
        {
            assert(v.rows[r as int] == views(self.rows@[r as int]@));
            assert forall|i: int| 0 <= i < self.rows@[r as int]@.len() implies (
            #[trigger] self.rows@[r as int]@[i])@.len() <= self.max_len_per_column@[i] by {
                assert(v.rows[r as int][i].len() <= v.widths[i]);
                assert(v.widths[i] == self.max_len_per_column@[i] as nat);
            }
            let padded_row = pad_fields(&self.rows[r], &self.max_len_per_column);
            let ghost prior = rows@;
            let ghost pv = views(padded_row@);
            rows.push(padded_row);
            assert(row_views(rows@) =~= row_views(prior).push(pv));
            assert(padded_view(v).rows.take(r + 1) =~= padded_view(v).rows.take(r as int).push(pv));
        }
        assert(padded_view(v).rows.take(m as int) =~= padded_view(v).rows);
        let sep: Vec<char> = vec![' ', '|', ' '];
        assert(sep@ =~= column_separator());
        let mut text = joined(&header, sep.as_slice());
        assert(text@ == rendered_row(v.header, v.widths));
        text.push('\n');
        let mut width: usize = 0;
        for i in 0..n
            invariant
                n == self.max_len_per_column@.len(),
                v == self@,
                n == v.widths.len(),
                rule_width(v.widths) <= usize::MAX,
                width == total(v.widths.take(i as int)),
        {
            proof {
                lemma_total_prefix(v.widths, i + 1);
            }
            assert(v.widths.take(i + 1).drop_last() =~= v.widths.take(i as int));
            width = width + self.max_len_per_column[i];
        }
        assert(v.widths.take(n as int) =~= v.widths);
        width = width + (n - 1) * 3;
        assert(width == rule_width(v.widths));
        let ghost t1 = text@;
        push_repeated(&mut text, '-', width);
        text.push('\n');
        let ghost t2 = text@;
        assert(t2 == t1 + repeated('-', rule_width(v.widths)) + seq!['\n']);
        let mut lines: Vec<Vec<char>> = Vec::new();
        for r in 0..m
            invariant
                m == rows@.len(),
                m == v.rows.len(),
                sep@ == column_separator(),
                row_views(rows@) == padded_view(v).rows,
                views(lines@) == rendered_rows(v.rows, v.widths).take(r as int),
        {
            assert(row_views(rows@)[r as int] == views(rows@[r as int]@));
            assert(views(rows@[r as int]@) == padded_all(v.rows[r as int], v.widths));
            let line = joined(&rows[r], sep.as_slice());
            let ghost prior = lines@;
            let ghost lv = line@;
            lines.push(line);
            assert(views(lines@) =~= views(prior).push(lv));
            assert(rendered_rows(v.rows, v.widths).take(r + 1) =~= rendered_rows(
                v.rows,
                v.widths,
            ).take(r as int).push(lv));
        }
        assert(rendered_rows(v.rows, v.widths).take(m as int) =~= rendered_rows(v.rows, v.widths));
        let newline: Vec<char> = vec!['\n'];
        assert(newline@ =~= seq!['\n']);
        let body = joined(&lines, newline.as_slice());
        assert(body@ == join(rendered_rows(v.rows, v.widths), seq!['\n']));
        extend_chars(&mut text, body.as_slice());
        assert(t1 == rendered_row(v.header, v.widths) + seq!['\n']);
        assert(text@ =~= table_text(v));
        proof {
            lemma_rendering_stable(v);
        }
        self.header = header;
        self.rows = rows;
        assert(self@ == padded_view(v));
        string_of(text.as_slice())
    }
}

} // verus!
