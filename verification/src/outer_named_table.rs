//! The outer-named builder: one name per column, given beside the column's
//! values.
//!
//! The input is an ordered sequence of named columns. The values are
//! converted to cells, transposed into rows, and the names become the header,
//! in column order.

use vstd::prelude::*;

use crate::cells::TextCell;
use crate::cells::ToCellList;
use crate::cells::Value;
use crate::cells::cells_content;
use crate::cells::values_content;
use crate::table::TextTable;
use crate::table::TableError;
use crate::table::column_height;
use crate::table::first_length_conflict;
use crate::table::grid_content;
use crate::table::is_rectangular;
use crate::table::transpose;
use crate::table::transpose_spec;

verus! {

/// One table column: its name and its ordered values.
#[derive(Debug)]
pub struct NamedColumn {
    pub name: String,
    pub values: Vec<Value>,
}

/// Whether `e` reports the first length conflict among the named columns:
/// column `j` is the first whose value count differs from column 0's.
pub open spec fn first_column_length_conflict(
    cols: Seq<NamedColumn>,
    e: TableError,
    j: int,
) -> bool {
    &&& 1 <= j < cols.len()
    &&& (#[trigger] cols[j]).values@.len() != cols[0].values@.len()
    &&& forall|k: int| 1 <= k < j ==> (#[trigger] cols[k]).values@.len() == cols[0].values@.len()
    &&& e == (TableError::StructuralMismatch {
        expected: cols[0].values@.len() as usize,
        found: cols[j].values@.len() as usize,
    })
}

/// An ordered sequence of named columns, buildable into a [`TextTable`].
#[derive(Debug)]
pub struct OuterNamedTable {
    pub columns: Vec<NamedColumn>,
}

impl OuterNamedTable {
    /// The name contents, in column order.
    pub open spec fn names_content(&self) -> Seq<Seq<char>> {
        self.columns@.map_values(|c: NamedColumn| c.name@)
    }

    /// The value contents, column by column.
    pub open spec fn value_grid(&self) -> Seq<Seq<Seq<char>>> {
        self.columns@.map_values(|c: NamedColumn| values_content(c.values@))
    }

    /// Build the table: convert the columns to cells, transpose them into
    /// rows, and attach the names as the header, in column order.
    ///
    /// Fails with `EmptyInput` on zero columns or zero rows, and with
    /// `StructuralMismatch` on the first column whose length conflicts.
    pub fn to_table(&self) -> (r: Result<TextTable, TableError>)
        ensures
            match r {
                Ok(t) => {
                    &&& self.columns@.len() > 0
                    &&& is_rectangular(self.value_grid())
                    &&& column_height(self.value_grid()) > 0
                    &&& t.wf()
                    &&& t.header_content() == Some(self.names_content())
                    &&& t.rows_content() == transpose_spec(self.value_grid())
                },
                Err(e) => {
                    ||| (self.columns@.len() == 0 && e == TableError::EmptyInput)
                    ||| (self.columns@.len() > 0 && !is_rectangular(self.value_grid())
                        && exists|j: int| first_column_length_conflict(self.columns@, e, j))
                    ||| (self.columns@.len() > 0 && is_rectangular(self.value_grid())
                        && column_height(self.value_grid()) == 0 && e == TableError::EmptyInput)
                },
            },
    {
        if self.columns.len() == 0 {
            return Err(TableError::EmptyInput);
        }
        let mut cell_cols: Vec<Vec<TextCell>> = Vec::new();
        let mut i: usize = 0;
        while i < self.columns.len()
            invariant
                i <= self.columns@.len(),
                cell_cols@.len() == i,
                forall|j: int|
                    0 <= j < i ==> cells_content((#[trigger] cell_cols@[j])@) == values_content(
                        self.columns@[j].values@,
                    ),
                forall|j: int|
                    0 <= j < i ==> (#[trigger] cell_cols@[j])@.len()
                        == self.columns@[j].values@.len(),
            decreases self.columns@.len() - i,
        {
            let cells = self.columns[i].values.list_to_cells();
            proof {
                assert(cells_content(cells@).len() == values_content(
                    self.columns@[i as int].values@,
                ).len());
            }
            cell_cols.push(cells);
            i += 1;
        }
        proof {
            assert(grid_content(cell_cols@) =~~= self.value_grid());
        }
        let rows = match transpose(&cell_cols) {
            Ok(rows) => rows,
            Err(e) => {
                proof {
                    let j = choose|j: int| first_length_conflict(cell_cols@, e, j);
                    assert(first_length_conflict(cell_cols@, e, j));
                    assert(cell_cols@[j]@.len() == self.columns@[j].values@.len());
                    assert(cell_cols@[0]@.len() == self.columns@[0].values@.len());
                    assert forall|k: int|
                        1 <= k < j implies (#[trigger] self.columns@[k]).values@.len()
                        == self.columns@[0].values@.len() by {
                        assert(cell_cols@[k]@.len() == cell_cols@[0]@.len());
                    }
                    assert(first_column_length_conflict(self.columns@, e, j));
                }
                return Err(e);
            },
        };
        if rows.len() == 0 {
            proof {
                assert(grid_content(rows@).len() == 0);
                assert(column_height(self.value_grid()) == 0);
            }
            return Err(TableError::EmptyInput);
        }
        let mut header: Vec<TextCell> = Vec::new();
        let mut c: usize = 0;
        while c < self.columns.len()
            invariant
                c <= self.columns@.len(),
                header@.len() == c,
                forall|k: int|
                    0 <= k < c ==> (#[trigger] header@[k]).content@ == self.columns@[k].name@,
            decreases self.columns@.len() - c,
        {
            header.push(TextCell { content: self.columns[c].name.clone() });
            c += 1;
        }
        proof {
            assert(cells_content(header@) =~~= self.names_content());
        }
        let t = TextTable { header: Some(header), rows };
        proof {
            assert(t.width() == self.columns@.len());
            assert forall|k: int| 0 <= k < t.rows@.len() implies (#[trigger] t.rows@[k])@.len()
                == t.width() by {
                assert(grid_content(t.rows@)[k] == transpose_spec(self.value_grid())[k]);
                assert(cells_content(t.rows@[k]@).len() == self.columns@.len());
            }
            assert(grid_content(rows@).len() > 0);
        }
        Ok(t)
    }
}

/// Header alignment: when a table's header holds the columns' names in
/// column order — what the outer-named builder ensures — its i-th cell
/// holds the i-th column's name.
pub proof fn lemma_header_alignment(t: TextTable, source: OuterNamedTable, i: int)
    requires
        t.header_content() == Some(source.names_content()),
        0 <= i < source.columns@.len(),
    ensures
        t.header_content()->Some_0[i] == source.columns@[i].name@,
{
}

} // verus!
