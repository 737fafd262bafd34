//! Column groups: an ordered schema and the rows checked against it.
//!
//! The schema grows only by appending columns.  A row is checked against the
//! schema as it stands when the row is stored; rows already stored are left as
//! they are when a column is added later, so a stored row may be shorter than
//! the schema.  Such a row has no value in the later columns and never matches
//! a search there.

use vstd::prelude::*;
use crate::error::{DBResult, DBERROR};
use crate::value::{Datatypes, Value};

verus! {

/// The mathematical content of a [`ColumnGroup`].
pub struct ColumnGroupView {
    pub name: Seq<char>,
    /// The columns in the order in which they were added: name and prototype.
    pub schema: Seq<(Seq<char>, Value)>,
    /// The rows in insertion order.
    pub rows: Seq<Seq<Value>>,
}

impl ColumnGroupView {
    /// Every stored row fits a prefix of the schema.
    pub open spec fn wf(self) -> bool {
        forall|r: int|
            0 <= r < self.rows.len() ==> {
                &&& (#[trigger] self.rows[r]).len() <= self.schema.len()
                &&& forall|i: int|
                    0 <= i < self.rows[r].len() ==> (#[trigger] self.rows[r][i]).same_type(
                        self.schema[i].1,
                    )
            }
    }

    /// Whether the schema holds this very pair of name and prototype.
    pub open spec fn has_column(self, name: Seq<char>, prototype: Value) -> bool {
        exists|i: int|
            0 <= i < self.schema.len() && (#[trigger] self.schema[i]).0 == name
                && self.schema[i].1.full_eq(prototype)
    }

    /// The first column at or after `start` that bears `name`.
    pub open spec fn column_index_from(self, name: Seq<char>, start: int) -> Option<int>
        decreases self.schema.len() - start,
    {
        if start < 0 || start >= self.schema.len() {
            None
        } else if self.schema[start].0 == name {
            Some(start)
        } else {
            self.column_index_from(name, start + 1)
        }
    }

    /// The position of the first column that bears `name`.
    pub open spec fn column_index(self, name: Seq<char>) -> Option<int> {
        self.column_index_from(name, 0)
    }

    /// Whether `row` has the schema's length and, slot by slot, its types.
    pub open spec fn row_fits(self, row: Seq<Value>) -> bool {
        &&& row.len() == self.schema.len()
        &&& forall|i: int| 0 <= i < row.len() ==> (#[trigger] row[i]).same_type(self.schema[i].1)
    }

    /// Whether row `r` holds, in column `col`, a value fully equal to `item`.
    pub open spec fn row_matches(self, r: int, col: int, item: Value) -> bool {
        &&& 0 <= r < self.rows.len()
        &&& 0 <= col < self.rows[r].len()
        &&& self.rows[r][col].full_eq(item)
    }

    /// The first row at or after `start` that matches `item` in column `col`.
    pub open spec fn first_match_from(self, col: int, item: Value, start: int) -> Option<int>
        decreases self.rows.len() - start,
    {
        if start < 0 || start >= self.rows.len() {
            None
        } else if self.row_matches(start, col, item) {
            Some(start)
        } else {
            self.first_match_from(col, item, start + 1)
        }
    }

    /// The row that search, update and removal select: the first one, in
    /// insertion order, that matches `item` in column `col`.
    pub open spec fn first_match(self, col: int, item: Value) -> Option<int> {
        self.first_match_from(col, item, 0)
    }

    /// The values of column `col` in the first `n` rows, in row order; rows
    /// too short to have the column are passed over.
    pub open spec fn column_prefix(self, col: int, n: int) -> Seq<Value>
        decreases n,
    {
        if n <= 0 || n > self.rows.len() {
            Seq::empty()
        } else if 0 <= col < self.rows[n - 1].len() {
            self.column_prefix(col, n - 1).push(self.rows[n - 1][col])
        } else {
            self.column_prefix(col, n - 1)
        }
    }

    /// The values of column `col` over all rows.
    pub open spec fn column_values(self, col: int) -> Seq<Value> {
        self.column_prefix(col, self.rows.len() as int)
    }

    /// The group with one more column at the end of the schema.
    pub open spec fn with_column(self, name: Seq<char>, prototype: Value) -> ColumnGroupView {
        ColumnGroupView { schema: self.schema.push((name, prototype)), ..self }
    }

    /// The group with one more row at the end.
    pub open spec fn with_row(self, row: Seq<Value>) -> ColumnGroupView {
        ColumnGroupView { rows: self.rows.push(row), ..self }
    }

    /// The group with row `r` replaced in place.
    pub open spec fn with_row_replaced(self, r: int, row: Seq<Value>) -> ColumnGroupView {
        ColumnGroupView { rows: self.rows.update(r, row), ..self }
    }

    /// The group without row `r`; later rows move up by one.
    pub open spec fn without_row(self, r: int) -> ColumnGroupView {
        ColumnGroupView { rows: self.rows.remove(r), ..self }
    }
}

/// The mathematical content of a row.
pub open spec fn row_view(row: Seq<Datatypes>) -> Seq<Value> {
    Seq::new(row.len(), |i: int| row[i]@)
}

/// The mathematical content of a schema.
pub open spec fn schema_view(schema: Seq<(String, Datatypes)>) -> Seq<(Seq<char>, Value)> {
    Seq::new(schema.len(), |i: int| (schema[i].0@, schema[i].1@))
}

/// The mathematical content of a row store.
pub open spec fn rows_view(rows: Seq<Vec<Datatypes>>) -> Seq<Seq<Value>> {
    Seq::new(rows.len(), |r: int| row_view(rows[r]@))
}

/// A named schema with its rows.
#[derive(Debug)]
pub struct ColumnGroup {
    name: String,
    schema: Vec<(String, Datatypes)>,
    rows: Vec<Vec<Datatypes>>,
}

impl View for ColumnGroup {
    type V = ColumnGroupView;

    closed spec fn view(&self) -> ColumnGroupView {
        ColumnGroupView {
            name: self.name@,
            schema: schema_view(self.schema@),
            rows: rows_view(self.rows@),
        }
    }
}

/// An exact copy of a row.
pub fn clone_row(row: &Vec<Datatypes>) -> (r: Vec<Datatypes>)
    ensures
        r@ == row@,
{
    let mut out: Vec<Datatypes> = Vec::new();
    let mut i: usize = 0;
    while i < row.len()
        invariant
            i <= row.len(),
            out@ == row@.subrange(0, i as int),
        decreases row.len() - i,
    {
        out.push(row[i].clone());
        assert(out@ =~= row@.subrange(0, i + 1));
        i += 1;
    }
    assert(out@ =~= row@);
    out
}

impl ColumnGroup {
    /// An empty group: no columns, no rows.
    pub fn new(name: String) -> (r: ColumnGroup)
        ensures
            r@ == (ColumnGroupView { name: name@, schema: Seq::empty(), rows: Seq::empty() }),
    {
        let r = ColumnGroup { name, schema: Vec::new(), rows: Vec::new() };
        assert(schema_view(r.schema@) =~= Seq::empty());
        assert(rows_view(r.rows@) =~= Seq::empty());
        r
    }

    /// The group's name.
    pub fn name(&self) -> (r: &String)
        ensures
            r@ == self@.name,
    {
        &self.name
    }

    /// The number of columns in the schema.
    pub fn numofcolumns(&self) -> (r: usize)
        ensures
            r == self@.schema.len(),
    {
        self.schema.len()
    }

    /// The schema, in the order in which the columns were added.
    pub fn schema(&self) -> (r: &Vec<(String, Datatypes)>)
        ensures
            schema_view(r@) == self@.schema,
    {
        &self.schema
    }

    /// The rows, in insertion order.
    pub fn rows(&self) -> (r: &Vec<Vec<Datatypes>>)
        ensures
            rows_view(r@) == self@.rows,
    {
        &self.rows
    }

    /// Whether the schema holds this very pair of name and prototype.
    fn has_column(&self, column: &(String, Datatypes)) -> (r: bool)
        ensures
            r == self@.has_column(column.0@, column.1@),
    {
        let mut i: usize = 0;
        while i < self.schema.len()
            invariant
                i <= self.schema.len(),
                forall|j: int|
                    0 <= j < i ==> !((#[trigger] self@.schema[j]).0 == column.0@
                        && self@.schema[j].1.full_eq(column.1@)),
            decreases self.schema.len() - i,
        {
            if self.schema[i].0 == column.0 && self.schema[i].1 == column.1 {
                assert(self@.schema[i as int].0 == column.0@);
                return true;
            }
            i += 1;
        }
        false
    }

    /// Appends a column to the schema, unless the schema already holds the
    /// very same pair of name and prototype.  Two columns may share a name as
    /// long as their prototypes differ.  Stored rows are not touched.
    pub fn add_column(&mut self, column: (String, Datatypes)) -> (r: DBResult<()>)
        ensures
            old(self)@.has_column(column.0@, column.1@) ==> r == Err::<(), DBERROR>(
                DBERROR::InsertError,
            ) && final(self)@ == old(self)@,
            !old(self)@.has_column(column.0@, column.1@) ==> r == Ok::<(), DBERROR>(())
                && final(self)@ == old(self)@.with_column(column.0@, column.1@),
            final(self)@.schema.len() == old(self)@.schema.len() + (if r.is_ok() {
                1int
            } else {
                0int
            }),
            old(self)@.wf() ==> final(self)@.wf(),
    {
        if self.has_column(&column) {
            return Err(DBERROR::InsertError);
        }
        self.schema.push(column);
        assert(schema_view(self.schema@) =~= schema_view(old(self).schema@).push(
            (column.0@, column.1@),
        ));
        Ok(())
    }

    /// Checks a row against the schema: the same length and, slot by slot, a
    /// value of the prototype's type.
    pub fn validate_row(&self, row: &Vec<Datatypes>) -> (r: DBResult<()>)
        ensures
            self@.row_fits(row_view(row@)) ==> r == Ok::<(), DBERROR>(()),
            !self@.row_fits(row_view(row@)) ==> r == Err::<(), DBERROR>(DBERROR::InsertError),
    {
        if row.len() != self.schema.len() {
            return Err(DBERROR::InsertError);
        }
        let mut i: usize = 0;
        while i < self.schema.len()
            invariant
                i <= self.schema.len(),
                row.len() == self.schema.len(),
                forall|j: int|
                    0 <= j < i ==> (#[trigger] row_view(row@)[j]).same_type(self@.schema[j].1),
            decreases self.schema.len() - i,
        {
            if !row[i].is_same_type(&self.schema[i].1) {
                assert(!row_view(row@)[i as int].same_type(self@.schema[i as int].1));
                return Err(DBERROR::InsertError);
            }
            i += 1;
        }
        Ok(())
    }

    /// Stores a row at the end, provided that it fits the schema; a row that
    /// does not fit leaves the group as it was.
    pub fn insert_row(&mut self, row: Vec<Datatypes>) -> (r: DBResult<()>)
        ensures
            old(self)@.row_fits(row_view(row@)) ==> r == Ok::<(), DBERROR>(()) && final(self)@
                == old(self)@.with_row(row_view(row@)),
            !old(self)@.row_fits(row_view(row@)) ==> r == Err::<(), DBERROR>(
                DBERROR::InsertError,
            ) && final(self)@ == old(self)@,
            final(self)@.schema == old(self)@.schema,
            old(self)@.wf() ==> final(self)@.wf(),
    {
        if let Err(e) = self.validate_row(&row) {
            return Err(e);
        }
        self.rows.push(row);
        assert(rows_view(self.rows@) =~= rows_view(old(self).rows@).push(row_view(row@)));
        Ok(())
    }

    /// The position of the first column that bears `name`.
    pub fn column_position(&self, name: &String) -> (r: Option<usize>)
        ensures
            match r {
                Some(c) => self@.column_index(name@) == Some(c as int) && c < self@.schema.len()
                    && self@.schema[c as int].0 == name@,
                None => self@.column_index(name@).is_none(),
            },
    {
        let mut i: usize = 0;
        while i < self.schema.len()
            invariant
                i <= self.schema.len(),
                self@.column_index(name@) == self@.column_index_from(name@, i as int),
            decreases self.schema.len() - i,
        {
            if self.schema[i].0 == *name {
                return Some(i);
            }
            i += 1;
        }
        None
    }

    /// The position of the first row, in insertion order, whose value in
    /// column `col` fully equals `item`.
    pub fn first_match_position(&self, col: usize, item: &Datatypes) -> (r: Option<usize>)
        ensures
            match r {
                Some(i) => self@.first_match(col as int, item@) == Some(i as int)
                    && self@.row_matches(i as int, col as int, item@),
                None => self@.first_match(col as int, item@).is_none(),
            },
    {
        let mut i: usize = 0;
        while i < self.rows.len()
            invariant
                i <= self.rows.len(),
                self@.first_match(col as int, item@) == self@.first_match_from(
                    col as int,
                    item@,
                    i as int,
                ),
            decreases self.rows.len() - i,
        {
            let row = &self.rows[i];
            assert(self@.rows[i as int] == row_view(row@));
            if col < row.len() && row[col] == *item {
                return Some(i);
            }
            i += 1;
        }
        None
    }

    /// Replaces, by `row`, the first row whose value in the column named
    /// `columnname` fully equals `item`.  The new row must fit the schema; if
    /// it does not, or if no column or no row is found, the group is left as
    /// it was.
    pub fn update_row(&mut self, columnname: &str, item: Datatypes, row: Vec<Datatypes>) -> (r:
        DBResult<()>)
        ensures
            match old(self)@.column_index(columnname@) {
                None => r == Err::<(), DBERROR>(DBERROR::SelectError) && final(self)@ == old(self)@,
                Some(c) => match old(self)@.first_match(c, item@) {
                    None => r == Err::<(), DBERROR>(DBERROR::UpdateError)
                        && final(self)@ == old(self)@,
                    Some(i) => (if old(self)@.row_fits(row_view(row@)) {
                        r == Ok::<(), DBERROR>(()) && final(self)@ == old(self)@.with_row_replaced(
                            i,
                            row_view(row@),
                        )
                    } else {
                        r == Err::<(), DBERROR>(DBERROR::InsertError) && final(self)@ == old(self)@
                    }),
                },
            },
            final(self)@.schema == old(self)@.schema,
            old(self)@.wf() ==> final(self)@.wf(),
    {
        let name = columnname.to_owned();
        match self.column_position(&name) {
            None => Err(DBERROR::SelectError),
            Some(c) => match self.first_match_position(c, &item) {
                None => Err(DBERROR::UpdateError),
                Some(i) => {
                    if let Err(e) = self.validate_row(&row) {
                        return Err(e);
                    }
                    self.rows[i] = row;
                    assert(rows_view(self.rows@) =~= rows_view(old(self).rows@).update(
                        i as int,
                        row_view(row@),
                    ));
                    Ok(())
                },
            },
        }
    }

    /// Removes the first row whose value in the column named `columnname`
    /// fully equals `item`; the rows after it move up by one.  If no column or
    /// no row is found, the group is left as it was.
    pub fn delete_row(&mut self, columnname: &str, item: Datatypes) -> (r: DBResult<()>)
        ensures
            match old(self)@.column_index(columnname@) {
                None => r == Err::<(), DBERROR>(DBERROR::SelectError) && final(self)@ == old(self)@,
                Some(c) => match old(self)@.first_match(c, item@) {
                    None => r == Err::<(), DBERROR>(DBERROR::DeleteError)
                        && final(self)@ == old(self)@,
                    Some(i) => r == Ok::<(), DBERROR>(())
                        && final(self)@ == old(self)@.without_row(i),
                },
            },
            final(self)@.schema == old(self)@.schema,
            old(self)@.wf() ==> final(self)@.wf(),
    {
        let name = columnname.to_owned();
        match self.column_position(&name) {
            None => Err(DBERROR::SelectError),
            Some(c) => match self.first_match_position(c, &item) {
                None => Err(DBERROR::DeleteError),
                Some(i) => {
                    self.rows.remove(i);
                    assert(rows_view(self.rows@) =~= rows_view(old(self).rows@).remove(
                        i as int,
                    ));
                    Ok(())
                },
            },
        }
    }

    /// A copy of the first row whose value in the column named `columname`
    /// fully equals `item`.
    pub fn search_row(&self, columname: &str, item: Datatypes) -> (r: DBResult<Vec<Datatypes>>)
        ensures
            match self@.column_index(columname@) {
                None => r == Err::<Vec<Datatypes>, DBERROR>(DBERROR::SelectError),
                Some(c) => match self@.first_match(c, item@) {
                    None => r == Err::<Vec<Datatypes>, DBERROR>(DBERROR::NoDataError),
                    Some(i) => r.is_ok() && row_view(r.unwrap()@) == self@.rows[i],
                },
            },
    {
        let name = columname.to_owned();
        match self.column_position(&name) {
            None => Err(DBERROR::SelectError),
            Some(c) => match self.first_match_position(c, &item) {
                None => Err(DBERROR::NoDataError),
                Some(i) => Ok(clone_row(&self.rows[i])),
            },
        }
    }

    /// The values of the column named `column`, in row order.  A row stored
    /// before the column was added has no value there and is passed over.
    pub fn get_column(&self, column: String) -> (r: DBResult<Vec<Datatypes>>)
        ensures
            match self@.column_index(column@) {
                None => r == Err::<Vec<Datatypes>, DBERROR>(DBERROR::SelectError),
                Some(c) => r.is_ok() && row_view(r.unwrap()@) == self@.column_values(c),
            },
    {
        match self.column_position(&column) {
            None => Err(DBERROR::SelectError),
            Some(c) => {
                let mut result: Vec<Datatypes> = Vec::new();
                let mut i: usize = 0;
                assert(row_view(result@) =~= self@.column_prefix(c as int, 0));
                while i < self.rows.len()
                    invariant
                        i <= self.rows.len(),
                        row_view(result@) == self@.column_prefix(c as int, i as int),
                    decreases self.rows.len() - i,
                {
                    let row = &self.rows[i];
                    assert(self@.rows[i as int] == row_view(row@));
                    if c < row.len() {
                        let ghost before = result@;
                        result.push(row[c].clone());
                        assert(row_view(result@) =~= row_view(before).push(row[c as int]@));
                    }
                    i += 1;
                }
                Ok(result)
            },
        }
    }
}

} // verus!
