//! The finished table, its structural errors, and the transpose engine.
//!
//! A [`TextTable`] is an ordered sequence of equal-width rows of cells with an
//! optional header row. [`transpose`] converts an ordered sequence of
//! equal-length columns into rows, preserving positional alignment; the
//! round-trip and width-consistency laws are proved here.

use vstd::prelude::*;

use crate::cells::TextCell;
use crate::cells::ToCellList;
use crate::cells::Value;
use crate::cells::cells_content;
use crate::cells::values_content;

verus! {

/// Whether the outer dimension of a heterogeneous input holds table rows or
/// table columns; column-major input is transposed before assembly.
#[derive(Clone, Copy, Debug, PartialEq, Eq, Structural)]
pub enum Orientation {
    RowMajor,
    ColumnMajor,
}

/// The structural failures of the builders.
///
/// `StructuralMismatch` reports the two conflicting column lengths;
/// `NameShapeMismatch` reports the expected and the divergent name sequence;
/// `EmptyInput` reports zero columns or zero rows where a table needs at
/// least one of each.
#[derive(Debug)]
#[allow(inconsistent_fields)]
pub enum TableError {
    StructuralMismatch { expected: usize, found: usize },
    NameShapeMismatch { expected: Vec<String>, found: Vec<String> },
    EmptyInput,
}

/// Whether `e` reports the first length conflict among `lists`: entry `j` is
/// the first whose length differs from entry 0's, and `e` carries those two
/// lengths.
pub open spec fn first_length_conflict<T>(lists: Seq<Vec<T>>, e: TableError, j: int) -> bool {
    &&& 1 <= j < lists.len()
    &&& (#[trigger] lists[j])@.len() != lists[0]@.len()
    &&& forall|k: int| 1 <= k < j ==> (#[trigger] lists[k])@.len() == lists[0]@.len()
    &&& e == (TableError::StructuralMismatch {
        expected: lists[0]@.len() as usize,
        found: lists[j]@.len() as usize,
    })
}

/// The contents of a grid of cells, row by row, cell by cell.
pub open spec fn grid_content(g: Seq<Vec<TextCell>>) -> Seq<Seq<Seq<char>>> {
    g.map_values(|r: Vec<TextCell>| cells_content(r@))
}

/// An ordered sequence of rows of cells, all of one width, with an optional
/// header row of that same width.
#[derive(Debug)]
pub struct TextTable {
    pub header: Option<Vec<TextCell>>,
    pub rows: Vec<Vec<TextCell>>,
}

impl TextTable {
    /// The header contents, if a header is present.
    pub open spec fn header_content(&self) -> Option<Seq<Seq<char>>> {
        match self.header {
            Some(h) => Some(cells_content(h@)),
            None => None,
        }
    }

    /// The data row contents, in row order.
    pub open spec fn rows_content(&self) -> Seq<Seq<Seq<char>>> {
        grid_content(self.rows@)
    }

    /// The table's width: the common length of its rows.
    pub open spec fn width(&self) -> nat {
        match self.header {
            Some(h) => h@.len(),
            None => if self.rows@.len() > 0 {
                self.rows@[0]@.len()
            } else {
                0
            },
        }
    }

    /// Well-formedness: every row, the header included, has length
    /// [`TextTable::width`].
    pub open spec fn wf(&self) -> bool {
        &&& forall|i: int|
            0 <= i < self.rows@.len() ==> (#[trigger] self.rows@[i])@.len() == self.width()
        &&& match self.header {
            Some(h) => h@.len() == self.width(),
            None => true,
        }
    }

    pub fn row_count(&self) -> (n: usize)
        ensures
            n == self.rows_content().len(),
    {
        self.rows.len()
    }
}

/// Width consistency: in a well-formed table any two rows have the same
/// length, and the header, when present, has that length too.
pub proof fn lemma_width_consistency(t: TextTable, i: int, j: int)
    requires
        t.wf(),
        0 <= i < t.rows_content().len(),
        0 <= j < t.rows_content().len(),
    ensures
        t.rows_content()[i].len() == t.rows_content()[j].len(),
        t.header_content() is Some ==> t.header_content()->Some_0.len()
            == t.rows_content()[i].len(),
{
}

/// The common length of the columns: the height of the grid they form.
pub open spec fn column_height<A>(cols: Seq<Seq<A>>) -> nat {
    if cols.len() == 0 {
        0
    } else {
        cols[0].len()
    }
}

/// Whether every column has the common length.
pub open spec fn is_rectangular<A>(cols: Seq<Seq<A>>) -> bool {
    forall|i: int| 0 <= i < cols.len() ==> (#[trigger] cols[i]).len() == column_height(cols)
}

/// The transpose of a rectangular grid: entry `r` of the result's row `c` is
/// entry `r` of input column `c`.
pub open spec fn transpose_spec<A>(cols: Seq<Seq<A>>) -> Seq<Seq<A>> {
    Seq::new(column_height(cols), |r: int| Seq::new(cols.len(), |c: int| cols[c][r]))
}

/// Transpose round-trip: transposing a non-empty rectangular grid of
/// non-empty columns twice gives back the original grid, positionally.
pub proof fn lemma_transpose_round_trip<A>(cols: Seq<Seq<A>>)
    requires
        cols.len() > 0,
        column_height(cols) > 0,
        is_rectangular(cols),
    ensures
        transpose_spec(transpose_spec(cols)) == cols,
{
    assert(transpose_spec(transpose_spec(cols)) =~~= cols);
}

/// Convert an ordered sequence of equal-length cell columns into rows.
///
/// Succeeds exactly when the columns are rectangular; otherwise reports the
/// expected length and the first conflicting one, in column order.
pub fn transpose(columns: &Vec<Vec<TextCell>>) -> (r: Result<Vec<Vec<TextCell>>, TableError>)
    ensures
        match r {
            Ok(rows) => {
                &&& is_rectangular(grid_content(columns@))
                &&& grid_content(rows@) == transpose_spec(grid_content(columns@))
            },
            Err(e) => {
                &&& !is_rectangular(grid_content(columns@))
                &&& exists|j: int| first_length_conflict(columns@, e, j)
            },
        },
{
    if columns.len() == 0 {
        let rows: Vec<Vec<TextCell>> = Vec::new();
        proof {
            assert(grid_content(rows@) =~~= transpose_spec(grid_content(columns@)));
        }
        return Ok(rows);
    }
    let width = columns[0].len();
    let mut j: usize = 1;
    while j < columns.len()
        invariant
            1 <= j <= columns@.len(),
            columns@.len() > 0,
            width == columns@[0]@.len(),
            forall|k: int| 1 <= k < j ==> (#[trigger] columns@[k])@.len() == width,
        decreases columns@.len() - j,
    {
        if columns[j].len() != width {
            let e = TableError::StructuralMismatch { expected: width, found: columns[j].len() };
            proof {
                let g = grid_content(columns@);
                assert(g[j as int].len() != column_height(g));
                assert(!is_rectangular(g));
                assert(first_length_conflict(columns@, e, j as int));
            }
            return Err(e);
        }
        j += 1;
    }
    let mut rows: Vec<Vec<TextCell>> = Vec::new();
    let mut r: usize = 0;
    while r < width
        invariant
            r <= width,
            width == columns@[0]@.len(),
            columns@.len() > 0,
            forall|k: int| 0 <= k < columns@.len() ==> (#[trigger] columns@[k])@.len() == width,
            rows@.len() == r,
            forall|rr: int|
                0 <= rr < r ==> (#[trigger] rows@[rr])@.len() == columns@.len(),
            forall|rr: int, c: int|
                0 <= rr < r && 0 <= c < columns@.len() ==> (#[trigger] rows@[rr]@[c])
                    == columns@[c]@[rr],
        decreases width - r,
    {
        let mut row: Vec<TextCell> = Vec::new();
        let mut c: usize = 0;
        while c < columns.len()
            invariant
                c <= columns@.len(),
                r < width,
                forall|k: int| 0 <= k < columns@.len() ==> (#[trigger] columns@[k])@.len() == width,
                row@.len() == c,
                forall|cc: int| 0 <= cc < c ==> (#[trigger] row@[cc]) == columns@[cc]@[r as int],
            decreases columns@.len() - c,
        {
            row.push(columns[c][r].clone());
            c += 1;
        }
        rows.push(row);
        r += 1;
    }
    proof {
        assert(is_rectangular(grid_content(columns@)));
        assert(grid_content(rows@) =~~= transpose_spec(grid_content(columns@)));
    }
    Ok(rows)
}

/// A grid whose inner lists each convert to one list of cells.
pub trait ToCellTable {
    /// The cell contents the grid converts to, list by list.
    spec fn cell_grid_spec(&self) -> Seq<Seq<Seq<char>>>;

    /// Convert every inner list, outer and inner order preserved.
    fn table_to_cells(&self) -> (r: Vec<Vec<TextCell>>)
        ensures
            grid_content(r@) == self.cell_grid_spec(),
    ;
}

impl ToCellTable for Vec<Vec<Value>> {
    open spec fn cell_grid_spec(&self) -> Seq<Seq<Seq<char>>> {
        self@.map_values(|vs: Vec<Value>| values_content(vs@))
    }

    fn table_to_cells(&self) -> (r: Vec<Vec<TextCell>>) {
        let mut grid: Vec<Vec<TextCell>> = Vec::new();
        let mut i: usize = 0;
        while i < self.len()
            invariant
                i <= self@.len(),
                grid@.len() == i,
                forall|j: int|
                    0 <= j < i ==> cells_content((#[trigger] grid@[j])@) == values_content(
                        self@[j]@,
                    ),
            decreases self@.len() - i,
        {
            grid.push(self[i].list_to_cells());
            i += 1;
        }
        proof {
            assert(grid_content(grid@) =~~= self.cell_grid_spec());
        }
        grid
    }
}

/// Build a header-less table from row-major value lists, one pass, one row
/// per input list, in input order.
///
/// Succeeds exactly when the lists share one length; zero lists give the
/// empty table.
pub fn rows_to_table(rows: &Vec<Vec<Value>>) -> (r: Result<TextTable, TableError>)
    ensures
        match r {
            Ok(t) => {
                &&& is_rectangular(rows@.map_values(|vs: Vec<Value>| values_content(vs@)))
                &&& t.wf()
                &&& t.header_content() is None
                &&& t.rows_content() == rows@.map_values(|vs: Vec<Value>| values_content(vs@))
            },
            Err(e) => {
                &&& !is_rectangular(rows@.map_values(|vs: Vec<Value>| values_content(vs@)))
                &&& exists|j: int| first_length_conflict(rows@, e, j)
            },
        },
{
    let ghost target = rows@.map_values(|vs: Vec<Value>| values_content(vs@));
    if rows.len() == 0 {
        let t = TextTable { header: None, rows: Vec::new() };
        proof {
            assert(t.rows_content() =~~= target);
        }
        return Ok(t);
    }
    let width = rows[0].len();
    let mut out: Vec<Vec<TextCell>> = Vec::new();
    let mut i: usize = 0;
    while i < rows.len()
        invariant
            i <= rows@.len(),
            rows@.len() > 0,
            width == rows@[0]@.len(),
            forall|k: int| 0 <= k < i ==> (#[trigger] rows@[k])@.len() == width,
            out@.len() == i,
            forall|j: int|
                0 <= j < i ==> cells_content((#[trigger] out@[j])@) == values_content(rows@[j]@),
        decreases rows@.len() - i,
    {
        if rows[i].len() != width {
            let e = TableError::StructuralMismatch { expected: width, found: rows[i].len() };
            proof {
                let g = rows@.map_values(|vs: Vec<Value>| values_content(vs@));
                assert(g[i as int].len() != column_height(g));
                assert(!is_rectangular(g));
                assert(first_length_conflict(rows@, e, i as int));
            }
            return Err(e);
        }
        out.push(rows[i].list_to_cells());
        i += 1;
    }
    let t = TextTable { header: None, rows: out };
    proof {
        assert(t.rows_content() =~~= target);
        assert forall|k: int| 0 <= k < t.rows@.len() implies (#[trigger] t.rows@[k])@.len()
            == t.width() by {
            assert(cells_content(t.rows@[k]@).len() == values_content(rows@[k]@).len());
        }
        assert(is_rectangular(target));
    }
    Ok(t)
}

} // verus!
