//! Scalar values and the cells they are rendered into.
//!
//! A [`Value`] is one tagged scalar; a [`TextCell`] is the formatted content of
//! exactly one value. [`ToCellList`] converts an ordered list of values into
//! the cells of one table row or column, positionally.

use vstd::prelude::*;

verus! {

/// One scalar value, tagged by kind, to be projected into one table cell.
///
/// Scalars of other kinds (floating point among them) enter as `Text`,
/// formatted by the caller's converter.
#[derive(Debug)]
pub enum Value {
    Int(i64),
    Char(char),
    Text(String),
}

impl Clone for Value {
    fn clone(&self) -> (res: Self)
        ensures
            res == *self,
    {
        match self {
            Value::Int(i) => Value::Int(*i),
            Value::Char(c) => Value::Char(*c),
            Value::Text(s) => Value::Text(s.clone()),
        }
    }
}

/// One renderable cell: the formatted content of exactly one [`Value`].
#[derive(Debug)]
pub struct TextCell {
    pub content: String,
}

impl Clone for TextCell {
    fn clone(&self) -> (res: Self)
        ensures
            res == *self,
    {
        TextCell { content: self.content.clone() }
    }
}

/// The character for one decimal digit.
pub open spec fn digit_char(d: int) -> char
    recommends
        0 <= d < 10,
{
    if d == 0 {
        '0'
    } else if d == 1 {
        '1'
    } else if d == 2 {
        '2'
    } else if d == 3 {
        '3'
    } else if d == 4 {
        '4'
    } else if d == 5 {
        '5'
    } else if d == 6 {
        '6'
    } else if d == 7 {
        '7'
    } else if d == 8 {
        '8'
    } else {
        '9'
    }
}

/// The decimal digits of a non-negative integer, most significant first.
pub open spec fn dec_digits(n: nat) -> Seq<char>
    decreases n,
{
    if n < 10 {
        seq![digit_char(n as int)]
    } else {
        dec_digits(n / 10) + seq![digit_char((n % 10) as int)]
    }
}

/// The decimal rendering of an integer: its digits, preceded by `-` when
/// negative.
pub open spec fn dec_str(i: int) -> Seq<char> {
    if i < 0 {
        seq!['-'] + dec_digits((-i) as nat)
    } else {
        dec_digits(i as nat)
    }
}

/// The content a [`Value`] formats to.
pub open spec fn value_content(v: Value) -> Seq<char> {
    match v {
        Value::Int(i) => dec_str(i as int),
        Value::Char(c) => seq![c],
        Value::Text(s) => s@,
    }
}

/// The contents of a sequence of values, positionally.
pub open spec fn values_content(s: Seq<Value>) -> Seq<Seq<char>> {
    s.map_values(|v: Value| value_content(v))
}

/// The contents of a sequence of cells, positionally.
pub open spec fn cells_content(s: Seq<TextCell>) -> Seq<Seq<char>> {
    s.map_values(|c: TextCell| c.content@)
}

/// Relies on `i64`'s `Display` implementation: the decimal digits of the
/// value, preceded by `-` when it is negative.
#[verifier::external_body]
fn int_to_content(i: i64) -> (r: String)
    ensures
        r@ == dec_str(i as int),
{
    i.to_string()
}

/// Relies on `char`'s `Display` implementation: the one character itself.
#[verifier::external_body]
fn char_to_content(c: char) -> (r: String)
    ensures
        r@ == seq![c],
{
    c.to_string()
}

/// Convert one value into its cell without consuming the value.
pub fn value_to_cell(v: &Value) -> (r: TextCell)
    ensures
        r.content@ == value_content(*v),
{
    match v {
        Value::Int(i) => TextCell { content: int_to_content(*i) },
        Value::Char(c) => TextCell { content: char_to_content(*c) },
        Value::Text(s) => TextCell { content: s.clone() },
    }
}

/// An ordered list whose elements each convert to one [`TextCell`].
pub trait ToCellList {
    /// The contents of the cells this list converts to, positionally.
    spec fn cell_contents(&self) -> Seq<Seq<char>>;

    /// Convert every element into its cell, order preserved.
    fn list_to_cells(&self) -> (r: Vec<TextCell>)
        ensures
            cells_content(r@) == self.cell_contents(),
    ;
}

impl ToCellList for Vec<Value> {
    open spec fn cell_contents(&self) -> Seq<Seq<char>> {
        values_content(self@)
    }

    fn list_to_cells(&self) -> (r: Vec<TextCell>) {
        let mut cells: Vec<TextCell> = Vec::new();
        let mut i: usize = 0;
        while i < self.len()
            invariant
                i <= self@.len(),
                cells@.len() == i,
                forall|j: int| 0 <= j < i ==> (#[trigger] cells@[j]).content@ == value_content(
                    self@[j],
                ),
            decreases self@.len() - i,
        {
            cells.push(value_to_cell(&self[i]));
            i += 1;
        }
        proof {
            assert(cells_content(cells@) =~~= values_content(self@));
        }
        cells
    }
}

} // verus!
