//! Databases: type groups registered by name, and the time of creation.

use vstd::prelude::*;
use crate::dbtypes::{DBtypes, TypeGroupView};
use crate::error::{DBResult, DBERROR};
use crate::laws::law_database_stays_well_formed;
use crate::registry::{has_key, key_index, keys_distinct, lemma_same_keys, NameMap};
use crate::text::{decimal_text, pairs_view, to_decimal};

verus! {

/// The mathematical content of a [`Database`].
pub struct DatabaseView {
    pub name: Seq<char>,
    /// The time of creation, as text.
    pub create_time: Seq<char>,
    /// The type groups, each under its key, in registration order.
    pub types: Seq<(Seq<char>, TypeGroupView)>,
}

/// The number of tables in the first `n` of `types`, taken together.
pub open spec fn tables_in(types: Seq<(Seq<char>, TypeGroupView)>, n: int) -> nat
    decreases n,
{
    if n <= 0 || n > types.len() {
        0
    } else {
        tables_in(types, n - 1) + types[n - 1].1.numoftables()
    }
}

/// The content of a type group that was just created.
pub open spec fn empty_type(name: Seq<char>) -> TypeGroupView {
    TypeGroupView { name, tables: Seq::empty(), info: Seq::empty() }
}

impl DatabaseView {
    /// No key occurs twice, and every type group is well formed.
    pub open spec fn wf(self) -> bool {
        &&& keys_distinct(self.types)
        &&& forall|i: int| 0 <= i < self.types.len() ==> (#[trigger] self.types[i]).1.wf()
    }

    /// The number of tables of all type groups together.
    pub open spec fn total_tables(self) -> nat {
        tables_in(self.types, self.types.len() as int)
    }

    /// The database with one more type group, registered under `key`.
    pub open spec fn with_type(self, key: Seq<char>, group: TypeGroupView) -> DatabaseView {
        DatabaseView { types: self.types.push((key, group)), ..self }
    }

    /// The database with the type group at position `i` replaced.
    pub open spec fn with_type_at(self, i: int, group: TypeGroupView) -> DatabaseView {
        DatabaseView { types: self.types.update(i, (self.types[i].0, group)), ..self }
    }

    /// What the database reports of itself: its name, the time of its
    /// creation, the number of its type groups and the number of their
    /// tables.
    pub open spec fn info(self) -> Seq<(Seq<char>, Seq<char>)> {
        seq![
            ("name"@, self.name),
            ("create_time"@, self.create_time),
            ("numoftypes"@, decimal_text(self.types.len())),
            ("totalnumtables"@, decimal_text(self.total_tables())),
        ]
    }
}

/// The mathematical content of registered type groups.
pub open spec fn types_view(entries: Seq<(Seq<char>, DBtypes)>) -> Seq<
    (Seq<char>, TypeGroupView),
> {
    Seq::new(entries.len(), |i: int| (entries[i].0, entries[i].1@))
}

/// The root container.
#[derive(Debug)]
pub struct Database {
    name: String,
    create_time: String,
    types: NameMap<DBtypes>,
}

impl View for Database {
    type V = DatabaseView;

    closed spec fn view(&self) -> DatabaseView {
        DatabaseView {
            name: self.name@,
            create_time: self.create_time@,
            types: types_view(self.types.entries()),
        }
    }
}

/// The present moment in UTC, written out as `chrono` displays a
/// `DateTime<Utc>`.  Calls `chrono::Utc::now`.  Nothing is claimed of the
/// text: it depends on the clock.  `chrono` reads the system clock and does
/// not return where that clock stands before 1970.
#[verifier::external_body]
fn utc_now_text() -> (r: String) {
    chrono::Utc::now().to_string()
}

impl Database {
    /// An empty database, created now.
    pub fn new(name: String) -> (r: Database)
        ensures
            r@.name == name@,
            r@.types == Seq::<(Seq<char>, TypeGroupView)>::empty(),
    {
        Database::created_at(name, utc_now_text())
    }

    /// An empty database with the given time of creation.
    pub fn created_at(name: String, create_time: String) -> (r: Database)
        ensures
            r@ == (DatabaseView { name: name@, create_time: create_time@, types: Seq::empty() }),
    {
        let r = Database { name, create_time, types: NameMap::new() };
        assert(types_view(r.types.entries()) =~= Seq::empty());
        r
    }

    /// The database's name.
    pub fn name(&self) -> (r: &String)
        ensures
            r@ == self@.name,
    {
        &self.name
    }

    /// The time of creation, as text.
    pub fn create_time(&self) -> (r: &String)
        ensures
            r@ == self@.create_time,
    {
        &self.create_time
    }

    /// The type groups, each under its key, in registration order.
    pub fn types(&self) -> (r: &NameMap<DBtypes>)
        ensures
            types_view(r.entries()) == self@.types,
    {
        &self.types
    }

    /// The number of type groups.
    pub fn numoftypes(&self) -> (r: usize)
        ensures
            r == self@.types.len(),
    {
        self.types.len()
    }

    /// The number of tables of all type groups together.
    pub fn totalnumtables(&self) -> (r: u128)
        ensures
            r == self@.total_tables(),
    {
        let mut total: u128 = 0;
        let mut i: usize = 0;
        while i < self.types.len()
            invariant
                i <= self.types.entries().len(),
                total == tables_in(self@.types, i as int),
                total <= i * 0xffff_ffff_ffff_ffff,
            decreases self.types.entries().len() - i,
        {
            let n: usize = self.types.get(i).numoftables();
            assert((i + 1) * 0xffff_ffff_ffff_ffff <= 0xffff_ffff_ffff_ffff * 0xffff_ffff_ffff_ffff)
                by (nonlinear_arith)
                requires
                    i + 1 <= 0xffff_ffff_ffff_ffff,
            ;
            total = total + (n as u128);
            i += 1;
        }
        total
    }

    /// What the database reports of itself: its name, the time of its
    /// creation, the number of its type groups and the number of their
    /// tables.
    pub fn get_info(&self) -> (r: Vec<(String, String)>)
        ensures
            pairs_view(r@) == self@.info(),
    {
        let mut info: Vec<(String, String)> = Vec::new();
        info.push(("name".to_owned(), self.name.clone()));
        info.push(("create_time".to_owned(), self.create_time.clone()));
        info.push(("numoftypes".to_owned(), to_decimal(self.types.len() as u128)));
        info.push(("totalnumtables".to_owned(), to_decimal(self.totalnumtables())));
        assert(pairs_view(info@) =~= self@.info());
        info
    }

    /// Registers a type group under its own name.  Where the name is taken,
    /// the database is left as it was.
    pub fn addtype(&mut self, dbtype: DBtypes) -> (r: DBResult<&DBtypes>)
        ensures
            match r {
                Ok(t) => !has_key(old(self)@.types, dbtype@.name) && *t == dbtype && final(self)@
                    == old(self)@.with_type(dbtype@.name, dbtype@),
                Err(e) => e == DBERROR::InsertError && has_key(old(self)@.types, dbtype@.name)
                    && final(self)@ == old(self)@,
            },
            old(self)@.wf() && dbtype@.wf() ==> final(self)@.wf(),
    {
        let key = dbtype.name().clone();
        proof {
            lemma_same_keys(self.types.entries(), self@.types, key@);
        }
        match self.types.register(key, dbtype) {
            None => Err(DBERROR::InsertError),
            Some(i) => {
                assert(self@.types =~= old(self)@.types.push((key@, dbtype@)));
                Ok(self.types.get(i))
            },
        }
    }

    /// Creates an empty type group and registers it under `name`.
    pub fn create_type(&mut self, name: String) -> (r: DBResult<&DBtypes>)
        ensures
            match r {
                Ok(t) => !has_key(old(self)@.types, name@) && t@ == empty_type(name@)
                    && final(self)@ == old(self)@.with_type(name@, t@),
                Err(e) => e == DBERROR::InsertError && has_key(old(self)@.types, name@)
                    && final(self)@ == old(self)@,
            },
            old(self)@.wf() ==> final(self)@.wf(),
    {
        let new = DBtypes::new(name);
        self.addtype(new)
    }

    /// Looks the type group `name` up and hands it out for changes.
    pub fn get_dbtype(&mut self, name: String) -> (r: DBResult<&mut DBtypes>)
        ensures
            match r {
                Ok(t) => match key_index(old(self)@.types, name@) {
                    Some(i) => ({
                        &&& t@ == old(self)@.types[i].1
                        &&& final(self)@ == old(self)@.with_type_at(i, final(t)@)
                        &&& old(self)@.wf() && final(t)@.wf() ==> final(self)@.wf()
                    }),
                    None => false,
                },
                Err(e) => e == DBERROR::SelectError && key_index(old(self)@.types, name@).is_none()
                    && final(self)@ == old(self)@,
            },
    {
        proof {
            lemma_same_keys(self.types.entries(), self@.types, name@);
        }
        match self.types.position(&name) {
            None => Err(DBERROR::SelectError),
            Some(i) => {
                let ghost now = self.types.entries();
                assert forall|v: DBtypes| #[trigger]
                    types_view(now.update(i as int, (name@, v))) == self@.types.update(
                        i as int,
                        (name@, v@),
                    ) by {
                    assert(types_view(now.update(i as int, (name@, v))) =~= self@.types.update(
                        i as int,
                        (name@, v@),
                    ));
                }
                assert forall|v: TypeGroupView| old(self)@.wf() && v.wf() implies (
                #[trigger] old(self)@.with_type_at(i as int, v)).wf() by {
                    law_database_stays_well_formed(old(self)@, name@, v, i as int);
                }
                Ok(self.types.get_mut(i))
            },
        }
    }

    /// A handle on the type group at position `i`, in registration order.
    pub fn dbtype_at_mut(&mut self, i: usize) -> (r: &mut DBtypes)
        requires
            i < old(self)@.types.len(),
        ensures
            r@ == old(self)@.types[i as int].1,
            final(self)@ == old(self)@.with_type_at(i as int, final(r)@),
            old(self)@.wf() && final(r)@.wf() ==> final(self)@.wf(),
    {
        assert forall|v: TypeGroupView| old(self)@.wf() && v.wf() implies (
        #[trigger] old(self)@.with_type_at(i as int, v)).wf() by {
            law_database_stays_well_formed(old(self)@, Seq::empty(), v, i as int);
        }
        let ghost now = self.types.entries();
        assert forall|v: DBtypes| #[trigger]
            types_view(now.update(i as int, (now[i as int].0, v))) == self@.types.update(
                i as int,
                (now[i as int].0, v@),
            ) by {
            assert(types_view(now.update(i as int, (now[i as int].0, v))) =~= self@.types.update(
                i as int,
                (now[i as int].0, v@),
            ));
        }
        self.types.get_mut(i)
    }
}

} // verus!
