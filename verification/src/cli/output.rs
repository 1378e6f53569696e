//! What a command shows: lines of styled text, and tables.
use crate::text;
use vstd::prelude::*;
use vstd::string::*;

verus! {

/// How a piece of text looks.
#[derive(Clone, Copy, Debug, PartialEq, Eq, Structural)]
pub enum Style {
    Plain,
    Bold,
    Dim,
    Green,
    GreenBold,
    Red,
    Yellow,
    Blue,
    Cyan,
    DarkGrey,
}

/// A piece of text in one style.
#[derive(Debug)]
pub struct Span {
    pub text: String,
    pub style: Style,
}

/// A line or a table. A cell of a table is a line of its own.
#[derive(Debug)]
pub enum Output {
    Line(Vec<Span>),
    Table(Vec<String>, Vec<Vec<Vec<Span>>>),
}

/// The characters of a piece of text and its style.
pub type SpanDoc = (Seq<char>, Style);

/// The contents of a line or a table.
pub enum OutDoc {
    Line(Seq<SpanDoc>),
    Table(Seq<Seq<char>>, Seq<Seq<Seq<SpanDoc>>>),
}

/// The contents of a line.
pub open spec fn line_doc(spans: Seq<Span>) -> Seq<SpanDoc> {
    spans.map_values(|s: Span| (s.text@, s.style))
}

/// The contents of a row of a table.
pub open spec fn row_doc(cells: Seq<Vec<Span>>) -> Seq<Seq<SpanDoc>> {
    cells.map_values(|c: Vec<Span>| line_doc(c@))
}

/// The contents of the rows of a table.
pub open spec fn rows_doc(rows: Seq<Vec<Vec<Span>>>) -> Seq<Seq<Seq<SpanDoc>>> {
    rows.map_values(|r: Vec<Vec<Span>>| row_doc(r@))
}

/// The contents of a line or a table.
pub open spec fn out_doc(o: Output) -> OutDoc {
    match o {
        Output::Line(spans) => OutDoc::Line(line_doc(spans@)),
        Output::Table(header, rows) => OutDoc::Table(text::texts(header@), rows_doc(rows@)),
    }
}

/// The contents of all that is shown.
pub open spec fn outs_doc(outs: Seq<Output>) -> Seq<OutDoc> {
    outs.map_values(|o: Output| out_doc(o))
}

/// A line with one piece of text.
pub open spec fn one(t: Seq<char>, style: Style) -> Seq<SpanDoc> {
    seq![(t, style)]
}

/// An empty line.
pub fn no_spans() -> (res: Vec<Span>)
    ensures
        line_doc(res@) == Seq::<SpanDoc>::empty(),
{
    let res: Vec<Span> = Vec::new();
    assert(line_doc(res@) =~= Seq::<SpanDoc>::empty());
    res
}

/// Puts a piece of text at the end of a line.
pub fn push_span(line: &mut Vec<Span>, t: &str, style: Style)
    ensures
        line_doc(final(line)@) == line_doc(old(line)@).push((t@, style)),
{
    let ghost before = line@;
    line.push(Span { text: t.to_string(), style });
    assert(line_doc(line@) =~= line_doc(before).push((t@, style)));
}

/// A line with one piece of text.
pub fn span_line(t: &str, style: Style) -> (res: Vec<Span>)
    ensures
        line_doc(res@) == one(t@, style),
{
    let mut line = no_spans();
    push_span(&mut line, t, style);
    line
}

/// A row without cells.
pub fn no_cells() -> (res: Vec<Vec<Span>>)
    ensures
        row_doc(res@) == Seq::<Seq<SpanDoc>>::empty(),
{
    let res: Vec<Vec<Span>> = Vec::new();
    assert(row_doc(res@) =~= Seq::<Seq<SpanDoc>>::empty());
    res
}

/// Puts a cell at the end of a row.
pub fn push_cell(row: &mut Vec<Vec<Span>>, t: &str, style: Style)
    ensures
        row_doc(final(row)@) == row_doc(old(row)@).push(one(t@, style)),
{
    push_line_cell(row, span_line(t, style));
}

/// Puts a cell of several pieces of text at the end of a row.
pub fn push_line_cell(row: &mut Vec<Vec<Span>>, cell: Vec<Span>)
    ensures
        row_doc(final(row)@) == row_doc(old(row)@).push(line_doc(cell@)),
{
    let ghost before = row@;
    row.push(cell);
    assert(row_doc(row@) =~= row_doc(before).push(line_doc(cell@)));
}

/// A table without rows.
pub fn no_rows() -> (res: Vec<Vec<Vec<Span>>>)
    ensures
        rows_doc(res@) == Seq::<Seq<Seq<SpanDoc>>>::empty(),
{
    let res: Vec<Vec<Vec<Span>>> = Vec::new();
    assert(rows_doc(res@) =~= Seq::<Seq<Seq<SpanDoc>>>::empty());
    res
}

/// Puts a row at the end of a table.
pub fn push_row(rows: &mut Vec<Vec<Vec<Span>>>, row: Vec<Vec<Span>>)
    ensures
        rows_doc(final(rows)@) == rows_doc(old(rows)@).push(row_doc(row@)),
{
    let ghost before = rows@;
    rows.push(row);
    assert(rows_doc(rows@) =~= rows_doc(before).push(row_doc(row@)));
}

/// Nothing to show.
pub fn no_outputs() -> (res: Vec<Output>)
    ensures
        outs_doc(res@) == Seq::<OutDoc>::empty(),
{
    let res: Vec<Output> = Vec::new();
    assert(outs_doc(res@) =~= Seq::<OutDoc>::empty());
    res
}

/// Shows another line.
pub fn push_line(outs: &mut Vec<Output>, spans: Vec<Span>)
    ensures
        outs_doc(final(outs)@) == outs_doc(old(outs)@).push(OutDoc::Line(line_doc(spans@))),
{
    let ghost before = outs@;
    outs.push(Output::Line(spans));
    assert(outs_doc(outs@) =~= outs_doc(before).push(OutDoc::Line(line_doc(spans@))));
}

/// Shows another line of one piece of text.
pub fn push_text(outs: &mut Vec<Output>, t: &str, style: Style)
    ensures
        outs_doc(final(outs)@) == outs_doc(old(outs)@).push(OutDoc::Line(one(t@, style))),
{
    push_line(outs, span_line(t, style));
}

/// Shows another table.
pub fn push_table(outs: &mut Vec<Output>, header: Vec<String>, rows: Vec<Vec<Vec<Span>>>)
    ensures
        outs_doc(final(outs)@) == outs_doc(old(outs)@).push(
            OutDoc::Table(text::texts(header@), rows_doc(rows@)),
        ),
{
    let ghost before = outs@;
    outs.push(Output::Table(header, rows));
    assert(outs_doc(outs@) =~= outs_doc(before).push(
        OutDoc::Table(text::texts(header@), rows_doc(rows@)),
    ));
}

/// Shows `more` too.
pub fn append_outputs(outs: &mut Vec<Output>, more: Vec<Output>)
    ensures
        outs_doc(final(outs)@) == outs_doc(old(outs)@) + outs_doc(more@),
{
    let ghost before = outs@;
    let ghost added = more@;
    let mut more = more;
    outs.append(&mut more);
    assert(outs_doc(outs@) =~= outs_doc(before) + outs_doc(added));
}

/// Puts a title at the end of the header of a table.
pub fn push_title(header: &mut Vec<String>, t: &str)
    ensures
        text::texts(final(header)@) == text::texts(old(header)@).push(t@),
{
    let ghost before = header@;
    header.push(t.to_string());
    assert(text::texts(header@) =~= text::texts(before).push(t@));
}

/// A header without titles.
pub fn no_titles() -> (res: Vec<String>)
    ensures
        text::texts(res@) == Seq::<Seq<char>>::empty(),
{
    let res: Vec<String> = Vec::new();
    assert(text::texts(res@) =~= Seq::<Seq<char>>::empty());
    res
}

/// What is shown is what the pieces hold: every piece of a line with its style, every cell of a
/// table in its place, every line and table in order.
pub proof fn law_what_is_shown(
    spans: Vec<Span>,
    header: Vec<String>,
    rows: Vec<Vec<Vec<Span>>>,
    outs: Seq<Output>,
    i: int,
    k: int,
)
    ensures
        0 <= i < spans@.len() ==> line_doc(spans@)[i] == (spans@[i].text@, spans@[i].style),
        line_doc(spans@).len() == spans@.len(),
        out_doc(Output::Line(spans)) == OutDoc::Line(line_doc(spans@)),
        out_doc(Output::Table(header, rows)) == OutDoc::Table(
            text::texts(header@),
            rows_doc(rows@),
        ),
        rows_doc(rows@).len() == rows@.len(),
        0 <= i < rows@.len() ==> rows_doc(rows@)[i].len() == rows@[i]@.len(),
        0 <= i < rows@.len() && 0 <= k < rows@[i]@.len() ==> rows_doc(rows@)[i][k] == line_doc(
            rows@[i]@[k]@,
        ),
        outs_doc(outs).len() == outs.len(),
        0 <= i < outs.len() ==> outs_doc(outs)[i] == out_doc(outs[i]),
        forall|t: Seq<char>, style: Style|
            (#[trigger] one(t, style)).len() == 1 && one(t, style)[0] == (t, style),
{
}

} // verus!
