//! Text tables, laid out by prettytable.

use vstd::prelude::*;
use prettytable::format::consts::FORMAT_NO_LINESEP_WITH_TITLE;
use prettytable::{Cell, Row, Table};

verus! {

/// One cell of a table: its text and the number of columns it spans.
#[derive(Clone, Debug, PartialEq, Eq)]
pub struct TableCell {
    pub text: String,
    pub span: usize,
}

/// A cell as a plain value.
pub type CellView = (Seq<char>, nat);

pub open spec fn cell_view(cell: TableCell) -> CellView {
    (cell.text@, cell.span as nat)
}

pub open spec fn row_view(row: Seq<TableCell>) -> Seq<CellView> {
    row.map_values(|c: TableCell| cell_view(c))
}

pub open spec fn rows_view(rows: Seq<Vec<TableCell>>) -> Seq<Seq<CellView>> {
    rows.map_values(|r: Vec<TableCell>| row_view(r@))
}

/// The text that prettytable prints for a table of these rows, without
/// titles, in its default format: every row framed.
pub uninterp spec fn grid_table_text(rows: Seq<Seq<CellView>>) -> Seq<char>;

/// The text that prettytable prints for a table with these titles and rows
/// in its format without lines between the rows.
pub uninterp spec fn compact_table_text(titles: Seq<CellView>, rows: Seq<Seq<CellView>>) -> Seq<
    char,
>;

/// A cell of one column.
pub fn cell(text: String) -> (c: TableCell)
    ensures
        cell_view(c) == (text@, 1nat),
{
    TableCell { text, span: 1 }
}

/// Calls prettytable's `Table::init` and `Display`, with cells made by
/// `Cell::new` and `with_hspan`.
/// Claimed: the text depends on the rows alone, and is the one that
/// `grid_table_text` names.
#[verifier::external_body]
pub(crate) fn grid_table(rows: &Vec<Vec<TableCell>>) -> (text: String)
    ensures
        text@ == grid_table_text(rows_view(rows@)),
{
    let line = |cells: &Vec<TableCell>|
        Row::new(cells.iter().map(|c| Cell::new(&c.text).with_hspan(c.span)).collect());
    Table::init(rows.iter().map(line).collect()).to_string()
}

/// Calls prettytable's `Table::init`, `set_titles`, `set_format` with
/// `FORMAT_NO_LINESEP_WITH_TITLE`, and `Display`, with cells made by
/// `Cell::new` and `with_hspan`.
/// Claimed: the text depends on the titles and rows alone, and is the one
/// that `compact_table_text` names.
#[verifier::external_body]
pub(crate) fn compact_table(titles: &Vec<TableCell>, rows: &Vec<Vec<TableCell>>) -> (text: String)
    ensures
        text@ == compact_table_text(row_view(titles@), rows_view(rows@)),
{
    let line = |cells: &Vec<TableCell>|
        Row::new(cells.iter().map(|c| Cell::new(&c.text).with_hspan(c.span)).collect());
    let mut table = Table::init(rows.iter().map(line).collect());
    table.set_titles(line(titles));
    table.set_format(*FORMAT_NO_LINESEP_WITH_TITLE);
    table.to_string()
}

} // verus!
