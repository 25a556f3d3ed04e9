//! Named values and the fixed-length lists they form.
//!
//! A [`Field`] is one (name, value) pair. A [`FieldList`] is an ordered,
//! fixed-length sequence of fields with parallel `names` and `values` views:
//! `names()[i]` labels `values()[i]` for every position. A [`FieldTable`] is
//! an ordered sequence of field lists — the columns or the rows of a table,
//! depending on orientation.

use vstd::prelude::*;

use crate::cells::Value;

verus! {

/// One (name, value) pair: the atomic unit of a record.
#[derive(Debug)]
pub struct Field {
    pub name: String,
    pub value: Value,
}

impl Clone for Field {
    fn clone(&self) -> (res: Self)
        ensures
            res == *self,
    {
        Field { name: self.name.clone(), value: self.value.clone() }
    }
}

/// The contents of a sequence of names, positionally.
pub open spec fn names_content(s: Seq<String>) -> Seq<Seq<char>> {
    s.map_values(|n: String| n@)
}

/// An ordered, fixed-length sequence of fields.
#[derive(Debug)]
pub struct FieldList {
    pub fields: Vec<Field>,
}

impl FieldList {
    /// The name contents, in field order.
    pub open spec fn names_seq(&self) -> Seq<Seq<char>> {
        self.fields@.map_values(|f: Field| f.name@)
    }

    /// The values, in field order.
    pub open spec fn values_seq(&self) -> Seq<Value> {
        self.fields@.map_values(|f: Field| f.value)
    }

    pub fn len(&self) -> (n: usize)
        ensures
            n == self.fields@.len(),
    {
        self.fields.len()
    }

    /// The ordered name view: `names()[i]` labels `values()[i]`.
    pub fn names(&self) -> (r: Vec<String>)
        ensures
            r@.len() == self.fields@.len(),
            names_content(r@) == self.names_seq(),
    {
        let mut names: Vec<String> = Vec::new();
        let mut i: usize = 0;
        while i < self.fields.len()
            invariant
                i <= self.fields@.len(),
                names@.len() == i,
                forall|j: int| 0 <= j < i ==> (#[trigger] names@[j])@ == self.fields@[j].name@,
            decreases self.fields@.len() - i,
        {
            names.push(self.fields[i].name.clone());
            i += 1;
        }
        proof {
            assert(names_content(names@) =~~= self.names_seq());
        }
        names
    }

    /// The ordered value view, positionally aligned with `names()`.
    pub fn values(&self) -> (r: Vec<Value>)
        ensures
            r@ == self.values_seq(),
    {
        let mut values: Vec<Value> = Vec::new();
        let mut i: usize = 0;
        while i < self.fields.len()
            invariant
                i <= self.fields@.len(),
                values@.len() == i,
                forall|j: int| 0 <= j < i ==> values@[j] == self.fields@[j].value,
            decreases self.fields@.len() - i,
        {
            values.push(self.fields[i].value.clone());
            i += 1;
        }
        proof {
            assert(values@ =~= self.values_seq());
        }
        values
    }
}

impl Clone for FieldList {
    fn clone(&self) -> (res: Self)
        ensures
            res.fields@ == self.fields@,
    {
        let mut fields: Vec<Field> = Vec::new();
        let mut i: usize = 0;
        while i < self.fields.len()
            invariant
                i <= self.fields@.len(),
                fields@.len() == i,
                forall|j: int| 0 <= j < i ==> fields@[j] == self.fields@[j],
            decreases self.fields@.len() - i,
        {
            fields.push(self.fields[i].clone());
            i += 1;
        }
        proof {
            assert(fields@ =~= self.fields@);
        }
        FieldList { fields }
    }
}

/// Whether two name lists hold the same characters, positionally.
pub fn string_vecs_equal(a: &Vec<String>, b: &Vec<String>) -> (r: bool)
    ensures
        r == (names_content(a@) == names_content(b@)),
{
    if a.len() != b.len() {
        proof {
            assert(names_content(a@).len() != names_content(b@).len());
        }
        return false;
    }
    let mut i: usize = 0;
    while i < a.len()
        invariant
            i <= a@.len(),
            a@.len() == b@.len(),
            forall|j: int| 0 <= j < i ==> (#[trigger] a@[j])@ == b@[j]@,
        decreases a@.len() - i,
    {
        if !(a[i] == b[i]) {
            proof {
                assert(names_content(a@)[i as int] != names_content(b@)[i as int]);
            }
            return false;
        }
        i += 1;
    }
    proof {
        assert(names_content(a@) =~~= names_content(b@));
    }
    true
}

/// Copy a name list, characters preserved positionally.
pub fn clone_strings(v: &Vec<String>) -> (r: Vec<String>)
    ensures
        r@ == v@,
{
    let mut out: Vec<String> = Vec::new();
    let mut i: usize = 0;
    while i < v.len()
        invariant
            i <= v@.len(),
            out@.len() == i,
            forall|j: int| 0 <= j < i ==> out@[j] == v@[j],
        decreases v@.len() - i,
    {
        out.push(v[i].clone());
        i += 1;
    }
    proof {
        assert(out@ =~= v@);
    }
    out
}

/// An ordered sequence of field lists: the heterogeneous source a builder
/// projects into a table, read as columns or as rows.
#[derive(Debug)]
pub struct FieldTable {
    pub lists: Vec<FieldList>,
}

impl FieldTable {
    /// The name contents of every list, positionally.
    pub open spec fn names_grid(&self) -> Seq<Seq<Seq<char>>> {
        self.lists@.map_values(|l: FieldList| l.names_seq())
    }

    /// The values of every list, positionally.
    pub open spec fn values_grid(&self) -> Seq<Seq<Value>> {
        self.lists@.map_values(|l: FieldList| l.values_seq())
    }

    pub fn len(&self) -> (n: usize)
        ensures
            n == self.lists@.len(),
    {
        self.lists.len()
    }

    /// The ordered name views of every list, positionally aligned with
    /// `values()`.
    pub fn names(&self) -> (r: Vec<Vec<String>>)
        ensures
            r@.len() == self.lists@.len(),
            r@.map_values(|ns: Vec<String>| names_content(ns@)) == self.names_grid(),
    {
        let mut grid: Vec<Vec<String>> = Vec::new();
        let mut i: usize = 0;
        while i < self.lists.len()
            invariant
                i <= self.lists@.len(),
                grid@.len() == i,
                forall|j: int| 0 <= j < i ==> names_content((#[trigger] grid@[j])@)
                    == self.lists@[j].names_seq(),
            decreases self.lists@.len() - i,
        {
            grid.push(self.lists[i].names());
            i += 1;
        }
        proof {
            assert(grid@.map_values(|ns: Vec<String>| names_content(ns@)) =~~= self.names_grid());
        }
        grid
    }

    /// The ordered value views of every list, positionally aligned with
    /// `names()`.
    pub fn values(&self) -> (r: Vec<Vec<Value>>)
        ensures
            r@.map_values(|vs: Vec<Value>| vs@) == self.values_grid(),
    {
        let mut grid: Vec<Vec<Value>> = Vec::new();
        let mut i: usize = 0;
        while i < self.lists.len()
            invariant
                i <= self.lists@.len(),
                grid@.len() == i,
                forall|j: int| 0 <= j < i ==> (#[trigger] grid@[j])@ == self.lists@[j].values_seq(),
            decreases self.lists@.len() - i,
        {
            grid.push(self.lists[i].values());
            i += 1;
        }
        proof {
            assert(grid@.map_values(|vs: Vec<Value>| vs@) =~~= self.values_grid());
        }
        grid
    }
}

} // verus!
