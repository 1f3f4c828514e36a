//! What a command prints when it is done, as rows of a table.
//!
//! How sizes, shares and durations are written is left to the one who prints.

use vstd::prelude::*;
use crate::text;

verus! {

/// A value in a table.
#[derive(Debug)]
pub enum Cell {
    /// A text.
    Text(String),
    /// A number of things.
    Count(u64),
    /// A size in bytes.
    Size(u64),
    /// A part of a whole, to be shown in percent; none of it where the whole is
    /// nothing.
    Share {
        /// The part.
        part: u64,
        /// The whole.
        whole: u64,
    },
}

/// A value in a table, with its text as characters.
pub enum CellView {
    /// A text.
    Text(Seq<char>),
    /// A number of things.
    Count(u64),
    /// A size in bytes.
    Size(u64),
    /// A part of a whole.
    Share(u64, u64),
}

impl View for Cell {
    type V = CellView;

    open spec fn view(&self) -> CellView {
        match self {
            Cell::Text(s) => CellView::Text(s@),
            Cell::Count(n) => CellView::Count(*n),
            Cell::Size(n) => CellView::Size(*n),
            Cell::Share { part, whole } => CellView::Share(*part, *whole),
        }
    }
}

/// A row of a table: a label and its values.
#[derive(Debug)]
pub struct Row {
    /// What the values are.
    pub label: String,
    /// The values.
    pub cells: Vec<Cell>,
}

/// A row, with its texts as characters.
#[verifier::ext_equal]
pub struct RowView {
    /// What the values are.
    pub label: Seq<char>,
    /// The values.
    pub cells: Seq<CellView>,
}

impl View for Row {
    type V = RowView;

    open spec fn view(&self) -> RowView {
        RowView { label: self.label@, cells: self.cells@.map_values(|c: Cell| c@) }
    }
}

/// A row with its label and its values.
pub open spec fn row_of(label: Seq<char>, cells: Seq<CellView>) -> RowView {
    RowView { label, cells }
}

/// The rows of a table, with their texts as characters.
pub open spec fn table(rows: Seq<Row>) -> Seq<RowView> {
    rows.map_values(|r: Row| r@)
}

/// Makes a row of one value.
pub fn row1(label: &str, a: Cell) -> (r: Row)
    ensures
        r@ == row_of(label@, seq![a@]),
{
    let mut cells: Vec<Cell> = Vec::new();
    cells.push(a);
    let r = Row { label: label.to_owned(), cells };
    assert(r@.cells =~= seq![a@]);
    r
}

/// Makes a row of two values.
pub fn row2(label: &str, a: Cell, b: Cell) -> (r: Row)
    ensures
        r@ == row_of(label@, seq![a@, b@]),
{
    let mut cells: Vec<Cell> = Vec::new();
    cells.push(a);
    cells.push(b);
    let r = Row { label: label.to_owned(), cells };
    assert(r@.cells =~= seq![a@, b@]);
    r
}

/// Makes a row of four numbers.
pub fn row4(label: &str, a: u64, b: u64, c: u64, d: u64) -> (r: Row)
    ensures
        r@ == row_of(label@, seq![CellView::Count(a), CellView::Count(b), CellView::Count(c), CellView::Count(d)]),
{
    let mut cells: Vec<Cell> = Vec::new();
    cells.push(Cell::Count(a));
    cells.push(Cell::Count(b));
    cells.push(Cell::Count(c));
    cells.push(Cell::Count(d));
    let r = Row { label: label.to_owned(), cells };
    assert(r@.cells =~= seq![CellView::Count(a), CellView::Count(b), CellView::Count(c), CellView::Count(d)]);
    r
}

/// Adds a row to a table.
pub fn add_row(rows: &mut Vec<Row>, row: Row)
    ensures
        table(final(rows)@) == table(old(rows)@).push(row@),
{
    let ghost before = rows@;
    rows.push(row);
    assert(table(rows@) =~= table(before).push(row@));
}

/// A table without rows.
pub fn no_rows() -> (r: Vec<Row>)
    ensures
        table(r@) == Seq::<RowView>::empty(),
{
    let r: Vec<Row> = Vec::new();
    assert(table(r@) =~= Seq::<RowView>::empty());
    r
}

/// The label of a dry run.
pub open spec fn dry_run_mark() -> Seq<char> {
    "[DRY RUN]"@
}

/// The label of a dry run.
pub fn dry_run_label() -> (r: String)
    ensures
        r@ == dry_run_mark(),
{
    "[DRY RUN]".to_owned()
}

/// How a text is made to stand out: what is written in front of it and behind it.
#[derive(Debug)]
pub struct Style {
    /// What is written in front.
    pub before: String,
    /// What is written behind.
    pub after: String,
}

/// Returns the label of a dry run, made to stand out, and a blank if dry run is
/// enabled, an empty string otherwise.
pub fn dry_run_prefix(dry_run: bool, style: &Style) -> (r: String)
    ensures
        r@ == (if dry_run {
            style.before@ + dry_run_mark() + style.after@ + " "@
        } else {
            Seq::<char>::empty()
        }),
{
    if dry_run {
        let mut s = text::join3(style.before.as_str(), dry_run_label().as_str(), style.after.as_str());
        s.append(" ");
        s
    } else {
        String::new()
    }
}

/// A table is seen as its rows are, in order, with the label and the values of each.
pub proof fn law_a_table_is_its_rows(rows: Seq<Row>, i: int, j: int)
    requires
        0 <= i < rows.len(),
        0 <= j < rows[i].cells@.len(),
    ensures
        table(rows).len() == rows.len(),
        table(rows)[i].label == rows[i].label@,
        table(rows)[i].cells.len() == rows[i].cells@.len(),
        rows[i].cells@[j] matches Cell::Text(s) ==> table(rows)[i].cells[j] == CellView::Text(s@),
        rows[i].cells@[j] matches Cell::Count(n) ==> table(rows)[i].cells[j] == CellView::Count(n),
        rows[i].cells@[j] matches Cell::Size(n) ==> table(rows)[i].cells[j] == CellView::Size(n),
        rows[i].cells@[j] matches Cell::Share { part, whole } ==> table(rows)[i].cells[j] == CellView::Share(
            part,
            whole,
        ),
{
}

/// A row that is made of a label and values has that label and those values.
pub proof fn law_a_row_has_its_label_and_values(label: Seq<char>, cells: Seq<CellView>)
    ensures
        row_of(label, cells).label == label,
        row_of(label, cells).cells == cells,
        dry_run_mark() == "[DRY RUN]"@,
{
}

} // verus!
