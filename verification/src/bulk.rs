//! Bulk construction: one child per name, in order, up to the first name
//! that is taken.  Children made before that name stay registered.

use vstd::prelude::*;
use crate::column_group::ColumnGroupView;
use crate::database::{empty_type, Database, DatabaseView};
use crate::dbtypes::{empty_table, DBtypes, TypeGroupView};
use crate::error::{DBResult, DBERROR};
use crate::registry::{first_taken, first_taken_from, lemma_name_taken, names_view};
use crate::table::{Table, TableView};

verus! {

/// The content of a column group that was just created.
pub open spec fn empty_group(name: Seq<char>) -> ColumnGroupView {
    ColumnGroupView { name, schema: Seq::empty(), rows: Seq::empty() }
}

/// An empty type group for each of the first `k` names.
pub open spec fn new_types(names: Seq<Seq<char>>, k: int) -> Seq<(Seq<char>, TypeGroupView)> {
    Seq::new(k as nat, |j: int| (names[j], empty_type(names[j])))
}

/// An empty table for each of the first `k` names.
pub open spec fn new_tables(names: Seq<Seq<char>>, node: Seq<char>, k: int) -> Seq<
    (Seq<char>, TableView),
> {
    Seq::new(k as nat, |j: int| (names[j], empty_table(names[j], node)))
}

/// An empty column group for each of the first `k` names.
pub open spec fn new_groups(names: Seq<Seq<char>>, k: int) -> Seq<(Seq<char>, ColumnGroupView)> {
    Seq::new(k as nat, |j: int| (names[j], empty_group(names[j])))
}

/// Creates and registers an empty type group for each name, in order, and
/// stops at the first name that is taken.  The groups made before that name
/// stay; the names after it are not tried.
pub fn create_dbtype_set(database: &mut Database, dbtypename: Vec<String>) -> (r: DBResult<()>)
    ensures
        ({
            let names = names_view(dbtypename@);
            let k = first_taken(old(database)@.types, names);
            &&& final(database)@ == (DatabaseView {
                types: old(database)@.types + new_types(names, k),
                ..old(database)@
            })
            &&& k == names.len() ==> r == Ok::<(), DBERROR>(())
            &&& k < names.len() ==> r == Err::<(), DBERROR>(DBERROR::InsertError)
        }),
        old(database)@.wf() ==> final(database)@.wf(),
{
    let ghost names = names_view(dbtypename@);
    let mut i: usize = 0;
    assert(database@.types =~= old(database)@.types + new_types(names, 0));
    while i < dbtypename.len()
        invariant
            i <= dbtypename.len(),
            names == names_view(dbtypename@),
            first_taken(old(database)@.types, names) == first_taken_from(
                old(database)@.types,
                names,
                i as int,
            ),
            database@ == (DatabaseView {
                types: old(database)@.types + new_types(names, i as int),
                ..old(database)@
            }),
            old(database)@.wf() ==> database@.wf(),
        decreases dbtypename.len() - i,
    {
        let name = dbtypename[i].clone();
        proof {
            lemma_name_taken(old(database)@.types, database@.types, names, i as int);
        }
        if let Err(e) = database.create_type(name) {
            return Err(e);
        }
        assert(database@.types =~= old(database)@.types + new_types(names, i + 1));
        i += 1;
    }
    Ok(())
}

/// Creates and registers an empty table for each name, in order, and stops
/// at the first name that is taken.  Each table bears the group's name as
/// its origin.  The tables made before that name stay; the names after it
/// are not tried.
pub fn create_table_set(dbtype: &mut DBtypes, tablename: Vec<String>) -> (r: DBResult<()>)
    ensures
        ({
            let names = names_view(tablename@);
            let k = first_taken(old(dbtype)@.tables, names);
            &&& final(dbtype)@ == (TypeGroupView {
                tables: old(dbtype)@.tables + new_tables(names, old(dbtype)@.name, k),
                ..old(dbtype)@
            })
            &&& k == names.len() ==> r == Ok::<(), DBERROR>(())
            &&& k < names.len() ==> r == Err::<(), DBERROR>(DBERROR::InsertError)
        }),
        old(dbtype)@.wf() ==> final(dbtype)@.wf(),
{
    let ghost names = names_view(tablename@);
    let ghost node = dbtype@.name;
    let mut i: usize = 0;
    assert(dbtype@.tables =~= old(dbtype)@.tables + new_tables(names, node, 0));
    while i < tablename.len()
        invariant
            i <= tablename.len(),
            names == names_view(tablename@),
            node == old(dbtype)@.name,
            first_taken(old(dbtype)@.tables, names) == first_taken_from(
                old(dbtype)@.tables,
                names,
                i as int,
            ),
            dbtype@ == (TypeGroupView {
                tables: old(dbtype)@.tables + new_tables(names, node, i as int),
                ..old(dbtype)@
            }),
            old(dbtype)@.wf() ==> dbtype@.wf(),
        decreases tablename.len() - i,
    {
        let name = tablename[i].clone();
        let origin = dbtype.name().clone();
        proof {
            lemma_name_taken(old(dbtype)@.tables, dbtype@.tables, names, i as int);
        }
        if let Err(e) = dbtype.create_table(name, origin) {
            return Err(e);
        }
        assert(dbtype@.tables =~= old(dbtype)@.tables + new_tables(names, node, i + 1));
        i += 1;
    }
    Ok(())
}

/// Creates and registers an empty column group for each name, in order, and
/// stops at the first name that is taken.  The groups made before that name
/// stay; the names after it are not tried.
pub fn create_columngroup_set(table: &mut Table, columngroupname: Vec<String>) -> (r: DBResult<()>)
    ensures
        ({
            let names = names_view(columngroupname@);
            let k = first_taken(old(table)@.groups, names);
            &&& final(table)@ == (TableView {
                groups: old(table)@.groups + new_groups(names, k),
                ..old(table)@
            })
            &&& k == names.len() ==> r == Ok::<(), DBERROR>(())
            &&& k < names.len() ==> r == Err::<(), DBERROR>(DBERROR::InsertError)
        }),
        old(table)@.wf() ==> final(table)@.wf(),
{
    let ghost names = names_view(columngroupname@);
    let mut i: usize = 0;
    assert(table@.groups =~= old(table)@.groups + new_groups(names, 0));
    while i < columngroupname.len()
        invariant
            i <= columngroupname.len(),
            names == names_view(columngroupname@),
            first_taken(old(table)@.groups, names) == first_taken_from(
                old(table)@.groups,
                names,
                i as int,
            ),
            table@ == (TableView {
                groups: old(table)@.groups + new_groups(names, i as int),
                ..old(table)@
            }),
            old(table)@.wf() ==> table@.wf(),
        decreases columngroupname.len() - i,
    {
        let name = columngroupname[i].clone();
        proof {
            lemma_name_taken(old(table)@.groups, table@.groups, names, i as int);
        }
        if let Err(e) = table.create_columngroup(name) {
            return Err(e);
        }
        assert(table@.groups =~= old(table)@.groups + new_groups(names, i + 1));
        i += 1;
    }
    Ok(())
}

} // verus!
