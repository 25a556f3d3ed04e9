//! Projection of a finished [`TextTable`] into the `comfy_table` rendering
//! backend.
//!
//! The backend's cell, row and table types are declared opaquely; what each
//! one holds is named by a spec function, and the backend constructors are
//! wrapped with contracts that say how they change those contents. The
//! projection itself — which cell lands in which backend row, in which
//! order — is verified against those contracts.

use vstd::prelude::*;

use crate::backend::backend_cell;
use crate::backend::backend_row;
use crate::backend::backend_row_add_cell;
use crate::backend::backend_table;
use crate::backend::backend_table_add_row;
use crate::backend::backend_table_set_header;
use crate::backend::clone_backend_row;
use crate::backend::row_texts;
use crate::backend::table_header_texts;
use crate::backend::table_texts;
use crate::cells::TextCell;
use crate::cells::Value;
use crate::cells::cells_content;
use crate::cells::values_content;
use crate::table::TextTable;
use crate::table::ToCellTable;
use crate::table::grid_content;

verus! {

/// The row contents of a sequence of backend rows, positionally.
pub open spec fn rows_texts(rs: Seq<comfy_table::Row>) -> Seq<Seq<Seq<char>>> {
    rs.map_values(|r: comfy_table::Row| row_texts(r))
}

/// An ordered list of cells that forms one backend row.
pub trait CellList {
    /// The contents of the row the list forms.
    spec fn row_content(&self) -> Seq<Seq<char>>;

    /// Append the cells to the backend row, in order.
    fn add_cells(&self, row: &mut comfy_table::Row)
        ensures
            row_texts(*final(row)) == row_texts(*old(row)) + self.row_content(),
    ;

    /// Form one backend row out of the cells, in order.
    fn to_row(&self) -> (r: comfy_table::Row)
        ensures
            row_texts(r) == self.row_content(),
    ;
}

impl CellList for Vec<TextCell> {
    open spec fn row_content(&self) -> Seq<Seq<char>> {
        cells_content(self@)
    }

    fn add_cells(&self, row: &mut comfy_table::Row) {
        proof {
            assert(row_texts(*row) =~~= row_texts(*old(row)) + cells_content(
                self@.take(0),
            ));
        }
        let mut i: usize = 0;
        while i < self.len()
            invariant
                i <= self@.len(),
                row_texts(*row) == row_texts(*old(row)) + cells_content(self@.take(i as int)),
            decreases self@.len() - i,
        {
            let cell = backend_cell(self[i].content.as_str());
            backend_row_add_cell(row, cell);
            proof {
                assert(cells_content(self@.take(i + 1)) =~~= cells_content(
                    self@.take(i as int),
                ).push(self@[i as int].content@));
                assert(row_texts(*row) =~~= row_texts(*old(row)) + cells_content(
                    self@.take(i + 1),
                ));
            }
            i += 1;
        }
        proof {
            assert(self@.take(self@.len() as int) == self@);
        }
    }

    fn to_row(&self) -> (r: comfy_table::Row) {
        let mut row = backend_row();
        self.add_cells(&mut row);
        proof {
            assert(row_texts(row) =~~= cells_content(self@));
        }
        row
    }
}

/// An ordered list of backend rows that forms one backend table.
pub trait RowList {
    /// The row contents of the table the list forms.
    spec fn table_content(&self) -> Seq<Seq<Seq<char>>>;

    /// Append the rows to the backend table, in order, header untouched.
    fn add_rows(&self, table: &mut comfy_table::Table)
        ensures
            table_texts(*final(table)) == table_texts(*old(table)) + self.table_content(),
            table_header_texts(*final(table)) == table_header_texts(*old(table)),
    ;

    /// Form one header-less backend table out of the rows, in order.
    fn to_table(&self) -> (t: comfy_table::Table)
        ensures
            table_texts(t) == self.table_content(),
            table_header_texts(t) is None,
    ;
}

impl RowList for Vec<comfy_table::Row> {
    open spec fn table_content(&self) -> Seq<Seq<Seq<char>>> {
        rows_texts(self@)
    }

    fn add_rows(&self, table: &mut comfy_table::Table) {
        proof {
            assert(table_texts(*table) =~~= table_texts(*old(table)) + rows_texts(
                self@.take(0),
            ));
        }
        let mut i: usize = 0;
        while i < self.len()
            invariant
                i <= self@.len(),
                table_texts(*table) == table_texts(*old(table)) + rows_texts(
                    self@.take(i as int),
                ),
                table_header_texts(*table) == table_header_texts(*old(table)),
            decreases self@.len() - i,
        {
            let row = clone_backend_row(&self[i]);
            backend_table_add_row(table, row);
            proof {
                assert(rows_texts(self@.take(i + 1)) =~~= rows_texts(self@.take(i as int)).push(
                    row_texts(self@[i as int]),
                ));
                assert(table_texts(*table) =~~= table_texts(*old(table)) + rows_texts(
                    self@.take(i + 1),
                ));
            }
            i += 1;
        }
        proof {
            assert(self@.take(self@.len() as int) == self@);
        }
    }

    fn to_table(&self) -> (t: comfy_table::Table) {
        let mut table = backend_table();
        self.add_rows(&mut table);
        proof {
            assert(table_texts(table) =~~= rows_texts(self@));
        }
        table
    }
}

/// An ordered grid of cell lists, each of which forms one backend row.
pub trait CellListTable {
    /// The row contents of the grid, list by list.
    spec fn rows_content_spec(&self) -> Seq<Seq<Seq<char>>>;

    /// Form one backend row per cell list, in order.
    fn table_to_rows(&self) -> (r: Vec<comfy_table::Row>)
        ensures
            rows_texts(r@) == self.rows_content_spec(),
    ;
}

impl CellListTable for Vec<Vec<TextCell>> {
    open spec fn rows_content_spec(&self) -> Seq<Seq<Seq<char>>> {
        grid_content(self@)
    }

    fn table_to_rows(&self) -> (r: Vec<comfy_table::Row>) {
        let mut out: Vec<comfy_table::Row> = Vec::new();
        let mut i: usize = 0;
        while i < self.len()
            invariant
                i <= self@.len(),
                out@.len() == i,
                forall|j: int|
                    0 <= j < i ==> row_texts(#[trigger] out@[j]) == cells_content(self@[j]@),
            decreases self@.len() - i,
        {
            out.push(self[i].to_row());
            i += 1;
        }
        proof {
            assert(rows_texts(out@) =~~= grid_content(self@));
        }
        out
    }
}

/// A grid of values that forms one header-less backend table directly:
/// conversion to cells, then to backend rows, then to the backend table.
pub trait ToTable {
    /// The row contents of the backend table the grid forms.
    spec fn backend_content(&self) -> Seq<Seq<Seq<char>>>;

    /// Form the backend table, outer and inner order preserved.
    fn to_table(&self) -> (t: comfy_table::Table)
        ensures
            table_texts(t) == self.backend_content(),
            table_header_texts(t) is None,
    ;
}

impl ToTable for Vec<Vec<Value>> {
    open spec fn backend_content(&self) -> Seq<Seq<Seq<char>>> {
        self@.map_values(|vs: Vec<Value>| values_content(vs@))
    }

    fn to_table(&self) -> (t: comfy_table::Table) {
        let cells = self.table_to_cells();
        let rows = cells.table_to_rows();
        let t = rows.to_table();
        proof {
            assert(table_texts(t) =~~= self.backend_content());
        }
        t
    }
}

/// Hand a finished table to the backend: one backend row per data row, in
/// row order, and the header, when present, set as the backend header.
pub fn table_to_display(t: &TextTable) -> (r: comfy_table::Table)
    ensures
        table_texts(r) == t.rows_content(),
        table_header_texts(r) == t.header_content(),
{
    let mut out = backend_table();
    let rows = t.rows.table_to_rows();
    rows.add_rows(&mut out);
    proof {
        assert(table_texts(out) =~~= t.rows_content());
    }
    match &t.header {
        Some(h) => {
            let header_row = h.to_row();
            backend_table_set_header(&mut out, header_row);
        },
        None => {},
    }
    out
}

} // verus!
