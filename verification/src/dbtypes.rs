//! Type groups: tables registered by name, and a list of informational
//! pairs.

use vstd::prelude::*;
use crate::error::{DBResult, DBERROR};
use crate::laws::law_type_group_stays_well_formed;
use crate::registry::{has_key, key_index, keys_distinct, lemma_same_keys, NameMap};
use crate::table::{Table, TableView};
use crate::text::{has_pair, pairs_view, push_new_pair};

verus! {

/// The mathematical content of a [`DBtypes`].
pub struct TypeGroupView {
    pub name: Seq<char>,
    /// The tables, each under its key, in registration order.
    pub tables: Seq<(Seq<char>, TableView)>,
    /// The informational pairs, in the order in which they were added.
    pub info: Seq<(Seq<char>, Seq<char>)>,
}

impl TypeGroupView {
    /// No key occurs twice, and every table is well formed.
    pub open spec fn wf(self) -> bool {
        &&& keys_distinct(self.tables)
        &&& forall|i: int| 0 <= i < self.tables.len() ==> (#[trigger] self.tables[i]).1.wf()
    }

    /// The running table count: the number of tables that the group holds.
    pub open spec fn numoftables(self) -> nat {
        self.tables.len()
    }

    /// The group with one more table, registered under `key`.
    pub open spec fn with_table(self, key: Seq<char>, table: TableView) -> TypeGroupView {
        TypeGroupView { tables: self.tables.push((key, table)), ..self }
    }

    /// The group with the table at position `i` replaced.
    pub open spec fn with_table_at(self, i: int, table: TableView) -> TypeGroupView {
        TypeGroupView { tables: self.tables.update(i, (self.tables[i].0, table)), ..self }
    }

    /// The group with one more informational pair.
    pub open spec fn with_info(self, key: Seq<char>, value: Seq<char>) -> TypeGroupView {
        TypeGroupView { info: self.info.push((key, value)), ..self }
    }
}

/// The content of a table that was just created.
pub open spec fn empty_table(name: Seq<char>, node: Seq<char>) -> TableView {
    TableView { name, node, groups: Seq::empty(), config: Seq::empty() }
}

/// The mathematical content of registered tables.
pub open spec fn tables_view(entries: Seq<(Seq<char>, Table)>) -> Seq<(Seq<char>, TableView)> {
    Seq::new(entries.len(), |i: int| (entries[i].0, entries[i].1@))
}

/// A named collection of tables.
#[derive(Debug)]
pub struct DBtypes {
    name: String,
    tables: NameMap<Table>,
    info: Vec<(String, String)>,
}

impl View for DBtypes {
    type V = TypeGroupView;

    closed spec fn view(&self) -> TypeGroupView {
        TypeGroupView {
            name: self.name@,
            tables: tables_view(self.tables.entries()),
            info: pairs_view(self.info@),
        }
    }
}

impl DBtypes {
    /// An empty type group.
    pub fn new(name: String) -> (r: DBtypes)
        ensures
            r@ == (TypeGroupView { name: name@, tables: Seq::empty(), info: Seq::empty() }),
    {
        let r = DBtypes { name, tables: NameMap::new(), info: Vec::new() };
        assert(tables_view(r.tables.entries()) =~= Seq::empty());
        assert(pairs_view(r.info@) =~= Seq::empty());
        r
    }

    /// The group's name.
    pub fn name(&self) -> (r: &String)
        ensures
            r@ == self@.name,
    {
        &self.name
    }

    /// The running table count.
    pub fn numoftables(&self) -> (r: usize)
        ensures
            r == self@.numoftables(),
    {
        self.tables.len()
    }

    /// The tables, each under its key, in registration order.
    pub fn tables(&self) -> (r: &NameMap<Table>)
        ensures
            tables_view(r.entries()) == self@.tables,
    {
        &self.tables
    }

    /// The informational pairs, in the order in which they were added.
    pub fn info(&self) -> (r: &Vec<(String, String)>)
        ensures
            pairs_view(r@) == self@.info,
    {
        &self.info
    }

    /// Creates an empty table and registers it under `name`.
    pub fn create_table(&mut self, name: String, node: String) -> (r: DBResult<&Table>)
        ensures
            match r {
                Ok(t) => !has_key(old(self)@.tables, name@) && t@ == empty_table(name@, node@)
                    && final(self)@ == old(self)@.with_table(name@, t@),
                Err(e) => e == DBERROR::InsertError && has_key(old(self)@.tables, name@)
                    && final(self)@ == old(self)@,
            },
            old(self)@.wf() ==> final(self)@.wf(),
    {
        let new = Table::new(name, node);
        self.addtable(new)
    }

    /// Registers a table under its own name and counts it.  Where the name is
    /// taken, the group is left as it was.
    pub fn addtable(&mut self, table: Table) -> (r: DBResult<&Table>)
        ensures
            match r {
                Ok(t) => !has_key(old(self)@.tables, table@.name) && *t == table && final(self)@
                    == old(self)@.with_table(table@.name, table@),
                Err(e) => e == DBERROR::InsertError && has_key(old(self)@.tables, table@.name)
                    && final(self)@ == old(self)@,
            },
            old(self)@.wf() && table@.wf() ==> final(self)@.wf(),
    {
        let key = table.name().clone();
        proof {
            lemma_same_keys(self.tables.entries(), self@.tables, key@);
        }
        match self.tables.register(key, table) {
            None => Err(DBERROR::InsertError),
            Some(i) => {
                assert(self@.tables =~= old(self)@.tables.push((key@, table@)));
                Ok(self.tables.get(i))
            },
        }
    }

    /// Appends an informational pair, unless the group already holds the very
    /// same pair; then the group is left as it was.
    pub fn add_config(&mut self, config: (String, String)) -> (r: DBResult<()>)
        ensures
            has_pair(old(self)@.info, config.0@, config.1@) ==> r == Err::<(), DBERROR>(
                DBERROR::InsertError,
            ) && final(self)@ == old(self)@,
            !has_pair(old(self)@.info, config.0@, config.1@) ==> r == Ok::<(), DBERROR>(())
                && final(self)@ == old(self)@.with_info(config.0@, config.1@),
            old(self)@.wf() ==> final(self)@.wf(),
    {
        if push_new_pair(&mut self.info, config) {
            Ok(())
        } else {
            Err(DBERROR::InsertError)
        }
    }

    /// Looks the table `name` up for reading.
    pub fn search_table(&self, name: String) -> (r: DBResult<&Table>)
        ensures
            match key_index(self@.tables, name@) {
                Some(i) => r.is_ok() && r.unwrap()@ == self@.tables[i].1,
                None => r == Err::<&Table, DBERROR>(DBERROR::SelectError),
            },
    {
        proof {
            lemma_same_keys(self.tables.entries(), self@.tables, name@);
        }
        match self.tables.position(&name) {
            None => Err(DBERROR::SelectError),
            Some(i) => Ok(self.tables.get(i)),
        }
    }

    /// Looks the table `name` up and hands it out for changes.
    pub fn get_table(&mut self, name: String) -> (r: DBResult<&mut Table>)
        ensures
            match r {
                Ok(t) => match key_index(old(self)@.tables, name@) {
                    Some(i) => ({
                        &&& t@ == old(self)@.tables[i].1
                        &&& final(self)@ == old(self)@.with_table_at(i, final(t)@)
                        &&& old(self)@.wf() && final(t)@.wf() ==> final(self)@.wf()
                    }),
                    None => false,
                },
                Err(e) => e == DBERROR::SelectError && key_index(old(self)@.tables, name@).is_none()
                    && final(self)@ == old(self)@,
            },
    {
        proof {
            lemma_same_keys(self.tables.entries(), self@.tables, name@);
        }
        match self.tables.position(&name) {
            None => Err(DBERROR::SelectError),
            Some(i) => {
                let ghost now = self.tables.entries();
                assert forall|v: Table| #[trigger]
                    tables_view(now.update(i as int, (name@, v))) == self@.tables.update(
                        i as int,
                        (name@, v@),
                    ) by {
                    assert(tables_view(now.update(i as int, (name@, v))) =~= self@.tables.update(
                        i as int,
                        (name@, v@),
                    ));
                }
                assert forall|v: TableView| old(self)@.wf() && v.wf() implies (
                #[trigger] old(self)@.with_table_at(i as int, v)).wf() by {
                    law_type_group_stays_well_formed(old(self)@, name@, v, i as int);
                }
                Ok(self.tables.get_mut(i))
            },
        }
    }

    /// A handle on the table at position `i`, in registration order.
    pub fn table_at_mut(&mut self, i: usize) -> (r: &mut Table)
        requires
            i < old(self)@.tables.len(),
        ensures
            r@ == old(self)@.tables[i as int].1,
            final(self)@ == old(self)@.with_table_at(i as int, final(r)@),
            old(self)@.wf() && final(r)@.wf() ==> final(self)@.wf(),
    {
        assert forall|v: TableView| old(self)@.wf() && v.wf() implies (
        #[trigger] old(self)@.with_table_at(i as int, v)).wf() by {
            law_type_group_stays_well_formed(old(self)@, Seq::empty(), v, i as int);
        }
        let ghost now = self.tables.entries();
        assert forall|v: Table| #[trigger]
            tables_view(now.update(i as int, (now[i as int].0, v))) == self@.tables.update(
                i as int,
                (now[i as int].0, v@),
            ) by {
            assert(tables_view(now.update(i as int, (now[i as int].0, v))) =~= self@.tables.update(
                i as int,
                (now[i as int].0, v@),
            ));
        }
        self.tables.get_mut(i)
    }
}

} // verus!
