//! The inner-named builders: names carried inside every column or row.
//!
//! A [`FieldTable`] builds a [`TextTable`] under either [`Orientation`]:
//! column-major input is validated for equal lengths and one name per
//! column, then transposed; row-major input is validated for one shared
//! name sequence, then converted row by row, order preserved. The
//! [`StreamingTable`] consumes a finite record sequence one record at a
//! time, in one pass; zero records give a legitimately empty table.

use vstd::prelude::*;

use crate::cells::TextCell;
use crate::cells::ToCellList;
use crate::cells::cells_content;
use crate::cells::values_content;
use crate::fields::FieldList;
use crate::fields::FieldTable;
use crate::fields::clone_strings;
use crate::fields::names_content;
use crate::fields::string_vecs_equal;
use crate::table::Orientation;
use crate::table::TextTable;
use crate::table::TableError;
use crate::table::grid_content;
use crate::table::is_rectangular;
use crate::table::transpose;
use crate::table::transpose_spec;

verus! {

/// Whether every name in the field list equals its first name: the shape a
/// column must have when each column carries one name.
pub open spec fn column_names_uniform(l: FieldList) -> bool {
    forall|p: int|
        0 <= p < l.names_seq().len() ==> #[trigger] l.names_seq()[p] == l.names_seq()[0]
}

/// Whether every list has the length of the first.
pub open spec fn lists_rectangular(lists: Seq<FieldList>) -> bool {
    forall|i: int|
        0 <= i < lists.len() ==> (#[trigger] lists[i]).fields@.len() == lists[0].fields@.len()
}

/// Whether `e` reports the first length conflict among the field lists.
pub open spec fn first_list_length_conflict(lists: Seq<FieldList>, e: TableError, j: int) -> bool {
    &&& 1 <= j < lists.len()
    &&& (#[trigger] lists[j]).fields@.len() != lists[0].fields@.len()
    &&& forall|k: int| 1 <= k < j ==> (#[trigger] lists[k]).fields@.len() == lists[0].fields@.len()
    &&& e == (TableError::StructuralMismatch {
        expected: lists[0].fields@.len() as usize,
        found: lists[j].fields@.len() as usize,
    })
}

/// Whether `e` reports the first column whose names are not all one name:
/// it carries the uniform shape the column should have had, and the names
/// found.
pub open spec fn first_inhomogeneous_column(lists: Seq<FieldList>, e: TableError, j: int) -> bool {
    &&& 0 <= j < lists.len()
    &&& !column_names_uniform(lists[j])
    &&& forall|k: int| 0 <= k < j ==> column_names_uniform(#[trigger] lists[k])
    &&& match e {
        TableError::NameShapeMismatch { expected, found } => {
            &&& expected@.len() == lists[j].names_seq().len()
            &&& forall|p: int|
                0 <= p < expected@.len() ==> (#[trigger] expected@[p])@ == lists[j].names_seq()[0]
            &&& names_content(found@) == lists[j].names_seq()
        },
        _ => false,
    }
}

/// Whether `e` reports the first list whose name sequence diverges from list
/// 0's: it carries the expected names and the divergent ones.
pub open spec fn first_name_divergence(lists: Seq<FieldList>, e: TableError, j: int) -> bool {
    &&& 1 <= j < lists.len()
    &&& (#[trigger] lists[j]).names_seq() != lists[0].names_seq()
    &&& forall|k: int| 1 <= k < j ==> (#[trigger] lists[k]).names_seq() == lists[0].names_seq()
    &&& match e {
        TableError::NameShapeMismatch { expected, found } => {
            &&& names_content(expected@) == lists[0].names_seq()
            &&& names_content(found@) == lists[j].names_seq()
        },
        _ => false,
    }
}

impl FieldTable {
    /// The value contents of every list, positionally.
    pub open spec fn values_grid_content(&self) -> Seq<Seq<Seq<char>>> {
        self.lists@.map_values(|l: FieldList| values_content(l.values_seq()))
    }

    /// Build the table under the given orientation.
    ///
    /// Column-major: the lists are columns; equal lengths and one name per
    /// column are validated, the values are transposed into rows, and the
    /// header holds each column's name, in column order. Row-major: the
    /// lists are rows; one shared name sequence is validated, every list
    /// becomes one data row in input order, and the header holds the shared
    /// names. Zero lists, and zero fields per list, fail with `EmptyInput`.
    pub fn to_table(&self, orientation: Orientation) -> (r: Result<TextTable, TableError>)
        ensures
            match orientation {
                Orientation::ColumnMajor => match r {
                    Ok(t) => {
                        &&& self.lists@.len() > 0
                        &&& lists_rectangular(self.lists@)
                        &&& self.lists@[0].fields@.len() > 0
                        &&& forall|c: int|
                            0 <= c < self.lists@.len() ==> column_names_uniform(
                                #[trigger] self.lists@[c],
                            )
                        &&& t.wf()
                        &&& t.header_content() == Some(
                            Seq::new(self.lists@.len(), |c: int| self.lists@[c].names_seq()[0]),
                        )
                        &&& t.rows_content() == transpose_spec(self.values_grid_content())
                    },
                    Err(e) => {
                        ||| (self.lists@.len() == 0 && e == TableError::EmptyInput)
                        ||| (self.lists@.len() > 0 && !lists_rectangular(self.lists@) && exists|
                            j: int,
                        | first_list_length_conflict(self.lists@, e, j))
                        ||| (self.lists@.len() > 0 && lists_rectangular(self.lists@)
                            && self.lists@[0].fields@.len() == 0 && e == TableError::EmptyInput)
                        ||| (self.lists@.len() > 0 && lists_rectangular(self.lists@)
                            && self.lists@[0].fields@.len() > 0 && exists|j: int|
                            first_inhomogeneous_column(self.lists@, e, j))
                    },
                },
                Orientation::RowMajor => match r {
                    Ok(t) => {
                        &&& self.lists@.len() > 0
                        &&& self.lists@[0].fields@.len() > 0
                        &&& forall|i: int|
                            0 <= i < self.lists@.len() ==> (#[trigger] self.lists@[i]).names_seq()
                                == self.lists@[0].names_seq()
                        &&& t.wf()
                        &&& t.header_content() == Some(self.lists@[0].names_seq())
                        &&& t.rows_content() == self.values_grid_content()
                    },
                    Err(e) => {
                        ||| (self.lists@.len() == 0 && e == TableError::EmptyInput)
                        ||| (self.lists@.len() > 0 && self.lists@[0].fields@.len() == 0
                            && e == TableError::EmptyInput)
                        ||| (self.lists@.len() > 0 && self.lists@[0].fields@.len() > 0 && exists|
                            j: int,
                        | first_name_divergence(self.lists@, e, j))
                    },
                },
            },
    {
        match orientation {
            Orientation::ColumnMajor => self.columns_to_table(),
            Orientation::RowMajor => self.rows_to_table_inner(),
        }
    }

    /// The column-major assembly behind [`FieldTable::to_table`].
    fn columns_to_table(&self) -> (r: Result<TextTable, TableError>)
        ensures
            match r {
                Ok(t) => {
                    &&& self.lists@.len() > 0
                    &&& lists_rectangular(self.lists@)
                    &&& self.lists@[0].fields@.len() > 0
                    &&& forall|c: int|
                        0 <= c < self.lists@.len() ==> column_names_uniform(
                            #[trigger] self.lists@[c],
                        )
                    &&& t.wf()
                    &&& t.header_content() == Some(
                        Seq::new(self.lists@.len(), |c: int| self.lists@[c].names_seq()[0]),
                    )
                    &&& t.rows_content() == transpose_spec(self.values_grid_content())
                },
                Err(e) => {
                    ||| (self.lists@.len() == 0 && e == TableError::EmptyInput)
                    ||| (self.lists@.len() > 0 && !lists_rectangular(self.lists@) && exists|j: int|
                        first_list_length_conflict(self.lists@, e, j))
                    ||| (self.lists@.len() > 0 && lists_rectangular(self.lists@)
                        && self.lists@[0].fields@.len() == 0 && e == TableError::EmptyInput)
                    ||| (self.lists@.len() > 0 && lists_rectangular(self.lists@)
                        && self.lists@[0].fields@.len() > 0 && exists|j: int|
                        first_inhomogeneous_column(self.lists@, e, j))
                },
            },
    {
        if self.lists.len() == 0 {
            return Err(TableError::EmptyInput);
        }
        let width = self.lists[0].len();
        let mut j: usize = 1;
        while j < self.lists.len()
            invariant
                1 <= j <= self.lists@.len(),
                self.lists@.len() > 0,
                width == self.lists@[0].fields@.len(),
                forall|k: int|
                    1 <= k < j ==> (#[trigger] self.lists@[k]).fields@.len() == width,
            decreases self.lists@.len() - j,
        {
            if self.lists[j].len() != width {
                let e = TableError::StructuralMismatch {
                    expected: width,
                    found: self.lists[j].len(),
                };
                proof {
                    assert(first_list_length_conflict(self.lists@, e, j as int));
                }
                return Err(e);
            }
            j += 1;
        }
        proof {
            assert(lists_rectangular(self.lists@));
        }
        if width == 0 {
            return Err(TableError::EmptyInput);
        }
        let mut header: Vec<TextCell> = Vec::new();
        let mut c: usize = 0;
        while c < self.lists.len()
            invariant
                c <= self.lists@.len(),
                self.lists@.len() > 0,
                width == self.lists@[0].fields@.len(),
                width > 0,
                lists_rectangular(self.lists@),
                header@.len() == c,
                forall|k: int| 0 <= k < c ==> column_names_uniform(#[trigger] self.lists@[k]),
                forall|k: int|
                    0 <= k < c ==> (#[trigger] header@[k]).content@
                        == self.lists@[k].names_seq()[0],
            decreases self.lists@.len() - c,
        {
            let names_c = self.lists[c].names();
            let mut p: usize = 1;
            while p < names_c.len()
                invariant
                    1 <= p <= names_c@.len(),
                    names_c@.len() > 0,
                    c < self.lists@.len(),
                    self.lists@.len() > 0,
                    lists_rectangular(self.lists@),
                    self.lists@[0].fields@.len() > 0,
                    names_content(names_c@) == self.lists@[c as int].names_seq(),
                    forall|k: int| 0 <= k < c ==> column_names_uniform(#[trigger] self.lists@[k]),
                    forall|q: int| 0 <= q < p ==> (#[trigger] names_c@[q])@ == names_c@[0]@,
                decreases names_c@.len() - p,
            {
                if !(names_c[p] == names_c[0]) {
                    let mut expected: Vec<String> = Vec::new();
                    let mut t: usize = 0;
                    while t < names_c.len()
                        invariant
                            t <= names_c@.len(),
                            names_c@.len() > 0,
                            expected@.len() == t,
                            forall|q: int|
                                0 <= q < t ==> (#[trigger] expected@[q])@ == names_c@[0]@,
                        decreases names_c@.len() - t,
                    {
                        expected.push(names_c[0].clone());
                        t += 1;
                    }
                    proof {
                        let l = self.lists@[c as int];
                        assert(names_content(names_c@)[p as int] == names_c@[p as int]@);
                        assert(names_content(names_c@)[0] == names_c@[0]@);
                        assert(l.names_seq()[p as int] != l.names_seq()[0]);
                        assert(!column_names_uniform(l));
                        assert(expected@.len() == l.names_seq().len());
                        assert(forall|q: int|
                            0 <= q < expected@.len() ==> (#[trigger] expected@[q])@
                                == l.names_seq()[0]);
                    }
                    let e = TableError::NameShapeMismatch { expected, found: names_c };
                    proof {
                        assert(first_inhomogeneous_column(self.lists@, e, c as int));
                    }
                    return Err(e);
                }
                p += 1;
            }
            proof {
                assert(column_names_uniform(self.lists@[c as int]));
            }
            header.push(TextCell { content: self.lists[c].fields[0].name.clone() });
            c += 1;
        }
        let mut cell_cols: Vec<Vec<TextCell>> = Vec::new();
        let mut i: usize = 0;
        while i < self.lists.len()
            invariant
                i <= self.lists@.len(),
                width == self.lists@[0].fields@.len(),
                lists_rectangular(self.lists@),
                cell_cols@.len() == i,
                forall|k: int|
                    0 <= k < i ==> cells_content((#[trigger] cell_cols@[k])@) == values_content(
                        self.lists@[k].values_seq(),
                    ),
                forall|k: int| 0 <= k < i ==> (#[trigger] cell_cols@[k])@.len() == width,
            decreases self.lists@.len() - i,
        {
            let vals = self.lists[i].values();
            let cells = vals.list_to_cells();
            proof {
                assert(cells_content(cells@).len() == values_content(
                    self.lists@[i as int].values_seq(),
                ).len());
            }
            cell_cols.push(cells);
            i += 1;
        }
        proof {
            assert(grid_content(cell_cols@) =~~= self.values_grid_content());
        }
        let rows = match transpose(&cell_cols) {
            Ok(rows) => rows,
            Err(_) => {
                proof {
                    assert(is_rectangular(grid_content(cell_cols@)));
                    assert(false);
                }
                return Err(TableError::EmptyInput);
            },
        };
        let t = TextTable { header: Some(header), rows };
        proof {
            assert(cells_content(header@) =~~= Seq::new(
                self.lists@.len(),
                |cc: int| self.lists@[cc].names_seq()[0],
            ));
            assert(t.width() == self.lists@.len());
            assert(self.values_grid_content()[0] == values_content(self.lists@[0].values_seq()));
            assert(crate::table::column_height(self.values_grid_content())
                == self.lists@[0].fields@.len());
            assert forall|k: int| 0 <= k < t.rows@.len() implies (#[trigger] t.rows@[k])@.len()
                == t.width() by {
                assert(grid_content(t.rows@).len() == t.rows@.len());
                assert(grid_content(t.rows@)[k] == transpose_spec(self.values_grid_content())[k]);
                assert(cells_content(t.rows@[k]@).len() == self.lists@.len());
            }
        }
        Ok(t)
    }

    /// The row-major assembly behind [`FieldTable::to_table`].
    fn rows_to_table_inner(&self) -> (r: Result<TextTable, TableError>)
        ensures
            match r {
                Ok(t) => {
                    &&& self.lists@.len() > 0
                    &&& self.lists@[0].fields@.len() > 0
                    &&& forall|i: int|
                        0 <= i < self.lists@.len() ==> (#[trigger] self.lists@[i]).names_seq()
                            == self.lists@[0].names_seq()
                    &&& t.wf()
                    &&& t.header_content() == Some(self.lists@[0].names_seq())
                    &&& t.rows_content() == self.values_grid_content()
                },
                Err(e) => {
                    ||| (self.lists@.len() == 0 && e == TableError::EmptyInput)
                    ||| (self.lists@.len() > 0 && self.lists@[0].fields@.len() == 0
                        && e == TableError::EmptyInput)
                    ||| (self.lists@.len() > 0 && self.lists@[0].fields@.len() > 0 && exists|j: int|
                        first_name_divergence(self.lists@, e, j))
                },
            },
    {
        if self.lists.len() == 0 {
            return Err(TableError::EmptyInput);
        }
        let first_names = self.lists[0].names();
        if first_names.len() == 0 {
            return Err(TableError::EmptyInput);
        }
        let mut j: usize = 1;
        while j < self.lists.len()
            invariant
                1 <= j <= self.lists@.len(),
                self.lists@.len() > 0,
                names_content(first_names@) == self.lists@[0].names_seq(),
                first_names@.len() > 0,
                forall|k: int|
                    1 <= k < j ==> (#[trigger] self.lists@[k]).names_seq()
                        == self.lists@[0].names_seq(),
            decreases self.lists@.len() - j,
        {
            let names_j = self.lists[j].names();
            if !string_vecs_equal(&first_names, &names_j) {
                proof {
                    assert(self.lists@[j as int].names_seq() != self.lists@[0].names_seq());
                    assert(names_content(first_names@).len() == first_names@.len());
                }
                let e = TableError::NameShapeMismatch { expected: first_names, found: names_j };
                proof {
                    assert(first_name_divergence(self.lists@, e, j as int));
                }
                return Err(e);
            }
            j += 1;
        }
        let mut rows: Vec<Vec<TextCell>> = Vec::new();
        let mut i: usize = 0;
        while i < self.lists.len()
            invariant
                i <= self.lists@.len(),
                rows@.len() == i,
                forall|k: int|
                    0 <= k < i ==> cells_content((#[trigger] rows@[k])@) == values_content(
                        self.lists@[k].values_seq(),
                    ),
            decreases self.lists@.len() - i,
        {
            let vals = self.lists[i].values();
            rows.push(vals.list_to_cells());
            i += 1;
        }
        let mut header: Vec<TextCell> = Vec::new();
        let mut h: usize = 0;
        while h < first_names.len()
            invariant
                h <= first_names@.len(),
                header@.len() == h,
                forall|k: int|
                    0 <= k < h ==> (#[trigger] header@[k]).content@ == first_names@[k]@,
            decreases first_names@.len() - h,
        {
            header.push(TextCell { content: first_names[h].clone() });
            h += 1;
        }
        proof {
            assert(cells_content(header@) =~~= names_content(first_names@));
        }
        let t = TextTable { header: Some(header), rows };
        proof {
            assert(t.rows_content() =~~= self.values_grid_content());
            assert forall|k: int| 0 <= k < t.rows@.len() implies (#[trigger] t.rows@[k])@.len()
                == t.width() by {
                assert(cells_content(t.rows@[k]@).len() == values_content(
                    self.lists@[k].values_seq(),
                ).len());
                assert(self.lists@[k].names_seq() == self.lists@[0].names_seq());
                assert(self.lists@[k].names_seq().len() == self.lists@[k].fields@.len());
                assert(self.lists@[k].values_seq().len() == self.lists@[k].fields@.len());
            }
        }
        Ok(t)
    }
}

/// The streaming builder's state: the header names taken from the first
/// record, and the data rows emitted so far, one per record, in input order.
#[derive(Debug)]
pub struct StreamingTable {
    pub names: Option<Vec<String>>,
    pub rows: Vec<Vec<TextCell>>,
}

impl StreamingTable {
    /// The header name contents, once a first record has been seen.
    pub open spec fn names_content(&self) -> Option<Seq<Seq<char>>> {
        match self.names {
            Some(ns) => Some(names_content(ns@)),
            None => None,
        }
    }

    /// The emitted row contents, in input order.
    pub open spec fn rows_content(&self) -> Seq<Seq<Seq<char>>> {
        grid_content(self.rows@)
    }

    /// Well-formedness: no rows before the first record, and every row as
    /// wide as the name sequence afterwards.
    pub open spec fn wf(&self) -> bool {
        match self.names {
            None => self.rows@.len() == 0,
            Some(ns) => forall|i: int|
                0 <= i < self.rows@.len() ==> (#[trigger] self.rows@[i])@.len() == ns@.len(),
        }
    }

    /// An empty stream: no header, no rows.
    pub fn new() -> (s: Self)
        ensures
            s.wf(),
            s.names_content() is None,
            s.rows_content() == Seq::<Seq<Seq<char>>>::empty(),
    {
        let s = StreamingTable { names: None, rows: Vec::new() };
        proof {
            assert(s.rows_content() =~~= Seq::<Seq<Seq<char>>>::empty());
        }
        s
    }

    /// Consume one record. The first record's names become the header and
    /// its values the first row; every later record must carry the same
    /// names and appends one row. On divergence nothing changes and the
    /// expected and found names are reported.
    pub fn push(&mut self, record: FieldList) -> (r: Result<(), TableError>)
        requires
            old(self).wf(),
        ensures
            final(self).wf(),
            match r {
                Ok(_) => {
                    &&& (old(self).names_content() is None ==> final(self).names_content()
                        == Some(record.names_seq()))
                    &&& (old(self).names_content() is Some
                        ==> old(self).names_content()->Some_0 == record.names_seq())
                    &&& (old(self).names_content() is Some
                        ==> final(self).names_content() == old(self).names_content())
                    &&& final(self).rows_content() == old(self).rows_content().push(
                        values_content(record.values_seq()),
                    )
                },
                Err(e) => {
                    &&& old(self).names_content() is Some
                    &&& old(self).names_content()->Some_0 != record.names_seq()
                    &&& final(self).names_content() == old(self).names_content()
                    &&& final(self).rows_content() == old(self).rows_content()
                    &&& match e {
                        TableError::NameShapeMismatch { expected, found } => {
                            &&& names_content(expected@) == old(self).names_content()->Some_0
                            &&& names_content(found@) == record.names_seq()
                        },
                        _ => false,
                    }
                },
            },
    {
        let rec_names = record.names();
        let vals = record.values();
        let cells = vals.list_to_cells();
        proof {
            assert(cells_content(cells@) == values_content(record.values_seq()));
            assert(cells@.len() == record.values_seq().len());
            assert(rec_names@.len() == record.names_seq().len());
            assert(record.names_seq().len() == record.fields@.len());
            assert(record.values_seq().len() == record.fields@.len());
        }
        if self.names.is_none() {
            self.names = Some(rec_names);
            self.rows.push(cells);
            proof {
                assert(self.rows@.len() == 1);
                assert(self.rows@[0] == cells);
                assert(self.wf());
                assert(self.rows_content() =~~= old(self).rows_content().push(
                    values_content(record.values_seq()),
                ));
            }
            Ok(())
        } else {
            let equal = {
                let ns = self.names.as_ref().unwrap();
                string_vecs_equal(ns, &rec_names)
            };
            if equal {
                self.rows.push(cells);
                proof {
                    let ns = self.names->Some_0;
                    assert(names_content(ns@).len() == names_content(rec_names@).len());
                    assert(ns@.len() == cells@.len());
                    assert forall|i: int| 0 <= i < self.rows@.len() implies (#[trigger] self
                        .rows@[i])@.len() == ns@.len() by {
                        if i < old(self).rows@.len() {
                            assert(self.rows@[i] == old(self).rows@[i]);
                        } else {
                            assert(self.rows@[i] == cells);
                        }
                    }
                    assert(self.wf());
                    assert(self.rows_content() =~~= old(self).rows_content().push(
                        values_content(record.values_seq()),
                    ));
                }
                Ok(())
            } else {
                let expected = {
                    let ns = self.names.as_ref().unwrap();
                    clone_strings(ns)
                };
                Err(TableError::NameShapeMismatch { expected, found: rec_names })
            }
        }
    }

    /// Finish the stream: the names, if any were seen, become the header.
    pub fn finish(self) -> (t: TextTable)
        requires
            self.wf(),
        ensures
            t.wf(),
            t.rows_content() == self.rows_content(),
            t.header_content() == self.names_content(),
    {
        match self.names {
            None => {
                let t = TextTable { header: None, rows: self.rows };
                t
            },
            Some(ns) => {
                let mut header: Vec<TextCell> = Vec::new();
                let mut h: usize = 0;
                while h < ns.len()
                    invariant
                        h <= ns@.len(),
                        header@.len() == h,
                        forall|k: int|
                            0 <= k < h ==> (#[trigger] header@[k]).content@ == ns@[k]@,
                    decreases ns@.len() - h,
                {
                    header.push(TextCell { content: ns[h].clone() });
                    h += 1;
                }
                proof {
                    assert(cells_content(header@) =~~= names_content(ns@));
                }
                let t = TextTable { header: Some(header), rows: self.rows };
                t
            },
        }
    }
}

/// Row-order preservation: when a table's rows are the converted value
/// lists of a row-major input — what the row-major builder and the
/// streaming builder ensure — the r-th data row's content equals the r-th
/// input record's converted values.
pub proof fn lemma_row_order_preserved(t: TextTable, records: Seq<FieldList>, r: int)
    requires
        t.rows_content() == records.map_values(|l: FieldList| values_content(l.values_seq())),
        0 <= r < records.len(),
    ensures
        t.rows_content()[r] == values_content(records[r].values_seq()),
{
}

/// Build a table from a finite record sequence in one pass: the first
/// record's names become the header, every record one data row, in input
/// order. Zero records give the empty table with no header; a record whose
/// names diverge from the first record's fails with `NameShapeMismatch`.
pub fn records_to_table(records: Vec<FieldList>) -> (r: Result<TextTable, TableError>)
    ensures
        match r {
            Ok(t) => {
                &&& t.wf()
                &&& (records@.len() == 0 ==> t.header_content() is None
                    && t.rows_content().len() == 0)
                &&& (records@.len() > 0 ==> (forall|i: int|
                    0 <= i < records@.len() ==> (#[trigger] records@[i]).names_seq()
                        == records@[0].names_seq()))
                &&& (records@.len() > 0 ==> t.header_content() == Some(records@[0].names_seq()))
                &&& (records@.len() > 0 ==> t.rows_content() == records@.map_values(
                    |l: FieldList| values_content(l.values_seq()),
                ))
            },
            Err(e) => exists|j: int| first_name_divergence(records@, e, j),
        },
{
    let ghost target = records@.map_values(|l: FieldList| values_content(l.values_seq()));
    let mut stream = StreamingTable::new();
    let mut i: usize = 0;
    while i < records.len()
        invariant
            i <= records@.len(),
            stream.wf(),
            i == 0 ==> stream.names_content() is None,
            i > 0 ==> stream.names_content() == Some(records@[0].names_seq()),
            i > 0 ==> forall|k: int|
                0 <= k < i ==> (#[trigger] records@[k]).names_seq() == records@[0].names_seq(),
            stream.rows_content() == records@.take(i as int).map_values(
                |l: FieldList| values_content(l.values_seq()),
            ),
        decreases records@.len() - i,
    {
        let rec = records[i].clone();
        proof {
            assert(rec.names_seq() == records@[i as int].names_seq());
            assert(rec.values_seq() == records@[i as int].values_seq());
        }
        match stream.push(rec) {
            Ok(_) => {},
            Err(e) => {
                proof {
                    assert(first_name_divergence(records@, e, i as int));
                }
                return Err(e);
            },
        }
        proof {
            assert(stream.rows_content() =~~= records@.take(i as int + 1).map_values(
                |l: FieldList| values_content(l.values_seq()),
            ));
        }
        i += 1;
    }
    proof {
        assert(records@.take(records@.len() as int) == records@);
    }
    Ok(stream.finish())
}

} // verus!
