//! The trusted boundary to the `comfy_table` rendering backend.
//!
//! The backend's cell, row and table types are declared opaquely. What each
//! one holds is named by a spec function, and each backend constructor the
//! projection calls is wrapped with a contract that says, over those names,
//! how it changes the contents. Nothing else is assumed of the backend.

use vstd::prelude::*;

verus! {

#[verifier::external_type_specification]
#[verifier::external_body]
pub struct ExComfyCell(comfy_table::Cell);

#[verifier::external_type_specification]
#[verifier::external_body]
pub struct ExComfyRow(comfy_table::Row);

#[verifier::external_type_specification]
#[verifier::external_body]
pub struct ExComfyTable(comfy_table::Table);

/// The content a backend cell holds.
pub uninterp spec fn cell_text(c: comfy_table::Cell) -> Seq<char>;

/// The cell contents a backend row holds, in cell order.
pub uninterp spec fn row_texts(r: comfy_table::Row) -> Seq<Seq<char>>;

/// The data row contents a backend table holds, in insertion order.
pub uninterp spec fn table_texts(t: comfy_table::Table) -> Seq<Seq<Seq<char>>>;

/// The header contents a backend table holds, once a header is set.
pub uninterp spec fn table_header_texts(t: comfy_table::Table) -> Option<Seq<Seq<char>>>;

/// Relies on `comfy_table::Cell::new`: the cell stores the given content.
#[verifier::external_body]
pub(crate) fn backend_cell(content: &str) -> (r: comfy_table::Cell)
    ensures
        cell_text(r) == content@,
{
    comfy_table::Cell::new(content)
}

/// Relies on `comfy_table::Row::new`: a row with no cells.
#[verifier::external_body]
pub(crate) fn backend_row() -> (r: comfy_table::Row)
    ensures
        row_texts(r) == Seq::<Seq<char>>::empty(),
{
    comfy_table::Row::new()
}

/// Relies on `comfy_table::Row::add_cell`: it appends the one cell.
#[verifier::external_body]
pub(crate) fn backend_row_add_cell(row: &mut comfy_table::Row, cell: comfy_table::Cell)
    ensures
        row_texts(*final(row)) == row_texts(*old(row)).push(cell_text(cell)),
{
    row.add_cell(cell);
}

/// Relies on `comfy_table::Row`'s `Clone` implementation: an exact copy,
/// cells included.
#[verifier::external_body]
pub(crate) fn clone_backend_row(row: &comfy_table::Row) -> (r: comfy_table::Row)
    ensures
        row_texts(r) == row_texts(*row),
{
    row.clone()
}

/// Relies on `comfy_table::Table::new`: a table with no rows and no header.
#[verifier::external_body]
pub(crate) fn backend_table() -> (r: comfy_table::Table)
    ensures
        table_texts(r) == Seq::<Seq<Seq<char>>>::empty(),
        table_header_texts(r) is None,
{
    comfy_table::Table::new()
}

/// Relies on `comfy_table::Table::add_row`: it appends the one row's cells
/// and leaves the header alone.
#[verifier::external_body]
pub(crate) fn backend_table_add_row(table: &mut comfy_table::Table, row: comfy_table::Row)
    ensures
        table_texts(*final(table)) == table_texts(*old(table)).push(row_texts(row)),
        table_header_texts(*final(table)) == table_header_texts(*old(table)),
{
    table.add_row(row);
}

/// Relies on `comfy_table::Table::set_header`: it replaces the header with
/// the one row's cells and leaves the data rows alone.
#[verifier::external_body]
pub(crate) fn backend_table_set_header(table: &mut comfy_table::Table, row: comfy_table::Row)
    ensures
        table_header_texts(*final(table)) == Some(row_texts(row)),
        table_texts(*final(table)) == table_texts(*old(table)),
{
    table.set_header(row);
}

} // verus!
