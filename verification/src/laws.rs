//! What holds of the containers whatever their content.

use vstd::prelude::*;
use crate::column_group::ColumnGroupView;
use crate::database::{tables_in, DatabaseView};
use crate::dbtypes::TypeGroupView;
use crate::registry::{
    first_taken, first_taken_from, has_key, key_index, keys_distinct, lemma_key_index_from,
    lemma_push_keeps_keys_distinct, lemma_update_keeps_keys_distinct, name_taken,
};
use crate::table::{columns_in, TableView};
use crate::value::Value;

verus! {

/// Type-only equality is an equivalence, and full equality is narrower:
/// values that are fully equal are of the same type.  Full equality is
/// symmetric; it is not reflexive, since a NaN equals nothing.
pub proof fn law_two_equalities(a: Value, b: Value, c: Value)
    ensures
        a.same_type(a),
        a.same_type(b) == b.same_type(a),
        a.same_type(b) && b.same_type(c) ==> a.same_type(c),
        a.full_eq(b) ==> a.same_type(b),
        a.full_eq(b) == b.full_eq(a),
{
    assert(a.full_eq(b) == b.full_eq(a)) by {
        match (a, b) {
            (Value::Float32(x), Value::Float32(y)) => {
                assert((x | y) == (y | x)) by (bit_vector);
            },
            (Value::Float64(x), Value::Float64(y)) => {
                assert((x | y) == (y | x)) by (bit_vector);
            },
            _ => {},
        }
    }
}

/// Apart from the floats, a value fully equals itself, and full equality is
/// equality of the values.
pub proof fn law_full_equality_of_exact_values(a: Value, b: Value)
    requires
        !(a is Float32),
        !(a is Float64),
    ensures
        a.full_eq(a),
        a.full_eq(b) == (a == b),
{
}

/// From `start` on, the scan over the names stops at the lowest position
/// whose name is taken.
pub proof fn lemma_first_taken_from<V>(
    entries: Seq<(Seq<char>, V)>,
    names: Seq<Seq<char>>,
    start: int,
)
    requires
        0 <= start <= names.len(),
    ensures
        start <= first_taken_from(entries, names, start) <= names.len(),
        first_taken_from(entries, names, start) < names.len() ==> name_taken(
            entries,
            names,
            first_taken_from(entries, names, start),
        ),
        forall|k: int|
            start <= k < first_taken_from(entries, names, start) ==> !name_taken(entries, names, k),
    decreases names.len() - start,
{
    if start < names.len() && !name_taken(entries, names, start) {
        lemma_first_taken_from(entries, names, start + 1);
    }
}

/// Bulk registration gets as far as the first name that is taken: a name
/// that is a key already, or that occurs earlier among the names.  Every
/// name before it is free when its turn comes.
pub proof fn law_bulk_stops_at_first_taken<V>(entries: Seq<(Seq<char>, V)>, names: Seq<Seq<char>>)
    ensures
        0 <= first_taken(entries, names) <= names.len(),
        first_taken(entries, names) < names.len() ==> name_taken(
            entries,
            names,
            first_taken(entries, names),
        ),
        forall|k: int| 0 <= k < first_taken(entries, names) ==> !name_taken(entries, names, k),
{
    lemma_first_taken_from(entries, names, 0);
}

/// From `start` on, the scan for a row finds the matching row of lowest
/// position, or none where no row matches.
pub proof fn lemma_first_match_from(g: ColumnGroupView, col: int, item: Value, start: int)
    requires
        0 <= start <= g.rows.len(),
    ensures
        match g.first_match_from(col, item, start) {
            Some(i) => start <= i < g.rows.len() && g.row_matches(i, col, item) && forall|j: int|
                start <= j < i ==> !g.row_matches(j, col, item),
            None => forall|j: int| start <= j < g.rows.len() ==> !g.row_matches(j, col, item),
        },
    decreases g.rows.len() - start,
{
    if start < g.rows.len() && !g.row_matches(start, col, item) {
        lemma_first_match_from(g, col, item, start + 1);
    }
}

/// Search, update and removal all go by `first_match`, and the row that it
/// selects is the one of lowest insertion index among the rows whose value in
/// the column fully equals the item.  It selects none exactly when no row
/// matches.
pub proof fn law_first_match_is_lowest(g: ColumnGroupView, col: int, item: Value)
    ensures
        match g.first_match(col, item) {
            Some(i) => 0 <= i < g.rows.len() && g.row_matches(i, col, item) && forall|j: int|
                0 <= j < i ==> !g.row_matches(j, col, item),
            None => forall|j: int| 0 <= j < g.rows.len() ==> !g.row_matches(j, col, item),
        },
{
    lemma_first_match_from(g, col, item, 0);
}

/// Whichever row matches, the selected row exists and lies at or before it.
pub proof fn law_first_match_before_any_match(g: ColumnGroupView, col: int, item: Value, r: int)
    requires
        g.row_matches(r, col, item),
    ensures
        g.first_match(col, item).is_some(),
        g.first_match(col, item).unwrap() <= r,
{
    law_first_match_is_lowest(g, col, item);
}

/// From `start` on, the scan for a column finds the column of lowest position
/// that bears the name, or none where no column bears it.
pub proof fn lemma_column_index_from(g: ColumnGroupView, name: Seq<char>, start: int)
    requires
        0 <= start <= g.schema.len(),
    ensures
        match g.column_index_from(name, start) {
            Some(c) => start <= c < g.schema.len() && g.schema[c].0 == name && forall|j: int|
                start <= j < c ==> (#[trigger] g.schema[j]).0 != name,
            None => forall|j: int| start <= j < g.schema.len() ==> (#[trigger] g.schema[j]).0
                != name,
        },
    decreases g.schema.len() - start,
{
    if start < g.schema.len() && g.schema[start].0 != name {
        lemma_column_index_from(g, name, start + 1);
    }
}

/// A column name resolves to the first column that bears it, and to none
/// exactly when no column bears it.
pub proof fn law_column_index_is_first(g: ColumnGroupView, name: Seq<char>)
    ensures
        match g.column_index(name) {
            Some(c) => 0 <= c < g.schema.len() && g.schema[c].0 == name && forall|j: int|
                0 <= j < c ==> (#[trigger] g.schema[j]).0 != name,
            None => forall|j: int| 0 <= j < g.schema.len() ==> (#[trigger] g.schema[j]).0 != name,
        },
{
    lemma_column_index_from(g, name, 0);
}

/// None of the changes to a column group takes a column away: storing,
/// replacing and removing rows leave the schema as it is, and a new column
/// lengthens it by one, behind the columns that were there.
pub proof fn law_schema_only_grows(
    g: ColumnGroupView,
    name: Seq<char>,
    prototype: Value,
    row: Seq<Value>,
    r: int,
)
    ensures
        g.with_row(row).schema == g.schema,
        g.with_row_replaced(r, row).schema == g.schema,
        g.without_row(r).schema == g.schema,
        g.with_column(name, prototype).schema.len() == g.schema.len() + 1,
        g.with_column(name, prototype).schema.subrange(0, g.schema.len() as int) == g.schema,
{
    assert(g.with_column(name, prototype).schema.subrange(0, g.schema.len() as int) =~= g.schema);
}

/// A new column keeps a well-formed group well formed: the rows that are
/// stored fit a prefix of the longer schema as they fitted one of the shorter.
pub proof fn law_new_column_keeps_rows_fitting(
    g: ColumnGroupView,
    name: Seq<char>,
    prototype: Value,
)
    requires
        g.wf(),
    ensures
        g.with_column(name, prototype).wf(),
{
    let a = g.with_column(name, prototype);
    assert forall|k: int| 0 <= k < a.rows.len() implies {
        &&& (#[trigger] a.rows[k]).len() <= a.schema.len()
        &&& forall|i: int|
            0 <= i < a.rows[k].len() ==> (#[trigger] a.rows[k][i]).same_type(a.schema[i].1)
    } by {
        assert(g.rows[k].len() <= g.schema.len());
    }
}

/// A row that fits the schema keeps a well-formed group well formed, whether
/// it is stored at the end or in the place of another row.
pub proof fn law_fitting_row_keeps_rows_fitting(g: ColumnGroupView, row: Seq<Value>, r: int)
    requires
        g.wf(),
        g.row_fits(row),
    ensures
        g.with_row(row).wf(),
        0 <= r < g.rows.len() ==> g.with_row_replaced(r, row).wf(),
{
}

/// Removing a row keeps a well-formed group well formed.
pub proof fn law_removal_keeps_rows_fitting(g: ColumnGroupView, r: int)
    requires
        g.wf(),
        0 <= r < g.rows.len(),
    ensures
        g.without_row(r).wf(),
{
    let b = g.without_row(r);
    assert forall|k: int| 0 <= k < b.rows.len() implies {
        &&& (#[trigger] b.rows[k]).len() <= b.schema.len()
        &&& forall|i: int|
            0 <= i < b.rows[k].len() ==> (#[trigger] b.rows[k][i]).same_type(b.schema[i].1)
    } by {
        if k < r {
            assert(b.rows[k] == g.rows[k]);
        } else {
            assert(b.rows[k] == g.rows[k + 1]);
        }
    }
}

/// Where the first `n` rows all have column `col`, the column's values over
/// those rows are the rows' values there, one for each row.
pub proof fn lemma_column_prefix_of_full_rows(g: ColumnGroupView, col: int, n: int)
    requires
        0 <= n <= g.rows.len(),
        0 <= col,
        forall|r: int| 0 <= r < n ==> col < (#[trigger] g.rows[r]).len(),
    ensures
        g.column_prefix(col, n).len() == n,
        forall|r: int| 0 <= r < n ==> (#[trigger] g.column_prefix(col, n)[r]) == g.rows[r][col],
    decreases n,
{
    if n > 0 {
        lemma_column_prefix_of_full_rows(g, col, n - 1);
        assert(0 <= col < g.rows[n - 1].len());
    }
}

/// Where every row has column `col`, the column's values are the rows'
/// values there, one for each row and in row order.
pub proof fn law_column_values_of_full_rows(g: ColumnGroupView, col: int)
    requires
        0 <= col,
        forall|r: int| 0 <= r < g.rows.len() ==> col < (#[trigger] g.rows[r]).len(),
    ensures
        g.column_values(col).len() == g.rows.len(),
        forall|r: int|
            0 <= r < g.rows.len() ==> (#[trigger] g.column_values(col)[r]) == g.rows[r][col],
{
    lemma_column_prefix_of_full_rows(g, col, g.rows.len() as int);
}

/// Where no key occurs twice, a key stands for one entry: the search by key
/// finds the position of whichever entry bears it.
pub proof fn law_key_names_one_entry<V>(entries: Seq<(Seq<char>, V)>, i: int)
    requires
        keys_distinct(entries),
        0 <= i < entries.len(),
    ensures
        key_index(entries, entries[i].0) == Some(i),
{
    lemma_key_index_from(entries, entries[i].0, 0);
    let found = key_index(entries, entries[i].0);
    assert(found.is_some());
    if found.unwrap() < i {
        assert(entries[found.unwrap()].0 != entries[i].0);
    }
}

/// Registering a well-formed column group under a free key, or putting one
/// in the place of another, keeps a well-formed table well formed.
pub proof fn law_table_stays_well_formed(
    t: TableView,
    key: Seq<char>,
    group: ColumnGroupView,
    i: int,
)
    requires
        t.wf(),
        group.wf(),
    ensures
        !has_key(t.groups, key) ==> t.with_group(key, group).wf(),
        0 <= i < t.groups.len() ==> t.with_group_at(i, group).wf(),
{
    if !has_key(t.groups, key) {
        lemma_push_keeps_keys_distinct(t.groups, key, group);
    }
    if 0 <= i < t.groups.len() {
        lemma_update_keeps_keys_distinct(t.groups, i, group);
    }
}

/// Registering a well-formed table under a free key, or putting one in the
/// place of another, keeps a well-formed type group well formed.
pub proof fn law_type_group_stays_well_formed(
    g: TypeGroupView,
    key: Seq<char>,
    table: TableView,
    i: int,
)
    requires
        g.wf(),
        table.wf(),
    ensures
        !has_key(g.tables, key) ==> g.with_table(key, table).wf(),
        0 <= i < g.tables.len() ==> g.with_table_at(i, table).wf(),
{
    if !has_key(g.tables, key) {
        lemma_push_keeps_keys_distinct(g.tables, key, table);
    }
    if 0 <= i < g.tables.len() {
        lemma_update_keeps_keys_distinct(g.tables, i, table);
    }
}

/// Registering a well-formed type group under a free key, or putting one in
/// the place of another, keeps a well-formed database well formed.
pub proof fn law_database_stays_well_formed(
    d: DatabaseView,
    key: Seq<char>,
    group: TypeGroupView,
    i: int,
)
    requires
        d.wf(),
        group.wf(),
    ensures
        !has_key(d.types, key) ==> d.with_type(key, group).wf(),
        0 <= i < d.types.len() ==> d.with_type_at(i, group).wf(),
{
    if !has_key(d.types, key) {
        lemma_push_keeps_keys_distinct(d.types, key, group);
    }
    if 0 <= i < d.types.len() {
        lemma_update_keeps_keys_distinct(d.types, i, group);
    }
}

/// The column count of a table is a sum: a group more adds that group's
/// columns.
pub proof fn law_total_columns_is_sum(t: TableView, key: Seq<char>, group: ColumnGroupView)
    ensures
        (TableView { groups: Seq::empty(), ..t }).total_columns() == 0,
        t.with_group(key, group).total_columns() == t.total_columns() + group.schema.len(),
{
    lemma_columns_in_prefix(t.groups, t.groups.push((key, group)), t.groups.len() as int);
}

/// The column count of a prefix depends on that prefix alone.
pub proof fn lemma_columns_in_prefix(
    a: Seq<(Seq<char>, ColumnGroupView)>,
    b: Seq<(Seq<char>, ColumnGroupView)>,
    n: int,
)
    requires
        0 <= n <= a.len(),
        n <= b.len(),
        forall|i: int| 0 <= i < n ==> a[i] == b[i],
    ensures
        columns_in(a, n) == columns_in(b, n),
    decreases n,
{
    if n > 0 {
        lemma_columns_in_prefix(a, b, n - 1);
    }
}

/// The table count of a database is a sum over the live table counts of its
/// type groups: a group more adds the number of tables that it holds.
pub proof fn law_total_tables_is_sum(d: DatabaseView, key: Seq<char>, group: TypeGroupView)
    ensures
        (DatabaseView { types: Seq::empty(), ..d }).total_tables() == 0,
        d.with_type(key, group).total_tables() == d.total_tables() + group.tables.len(),
{
    lemma_tables_in_prefix(d.types, d.types.push((key, group)), d.types.len() as int);
}

/// The table count of a prefix depends on that prefix alone.
pub proof fn lemma_tables_in_prefix(
    a: Seq<(Seq<char>, TypeGroupView)>,
    b: Seq<(Seq<char>, TypeGroupView)>,
    n: int,
)
    requires
        0 <= n <= a.len(),
        n <= b.len(),
        forall|i: int| 0 <= i < n ==> a[i] == b[i],
    ensures
        tables_in(a, n) == tables_in(b, n),
    decreases n,
{
    if n > 0 {
        lemma_tables_in_prefix(a, b, n - 1);
    }
}

} // verus!
