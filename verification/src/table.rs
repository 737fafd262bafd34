//! Tables: column groups registered by name, and a list of configuration
//! pairs.

use vstd::prelude::*;
use crate::column_group::{ColumnGroup, ColumnGroupView};
use crate::error::{DBResult, DBERROR};
use crate::registry::{has_key, key_index, keys_distinct, lemma_same_keys, NameMap};
use crate::laws::law_table_stays_well_formed;
use crate::text::{decimal_text, has_pair, pairs_view, push_new_pair, to_decimal};

verus! {

/// The mathematical content of a [`Table`].
pub struct TableView {
    pub name: Seq<char>,
    /// The label of where the table comes from.
    pub node: Seq<char>,
    /// The column groups, each under its key, in registration order.
    pub groups: Seq<(Seq<char>, ColumnGroupView)>,
    /// The configuration pairs, in the order in which they were added.
    pub config: Seq<(Seq<char>, Seq<char>)>,
}

/// The number of columns in the first `n` of `groups`, taken together.
pub open spec fn columns_in(groups: Seq<(Seq<char>, ColumnGroupView)>, n: int) -> nat
    decreases n,
{
    if n <= 0 || n > groups.len() {
        0
    } else {
        columns_in(groups, n - 1) + groups[n - 1].1.schema.len()
    }
}

impl TableView {
    /// No key occurs twice, and every column group is well formed.
    pub open spec fn wf(self) -> bool {
        &&& keys_distinct(self.groups)
        &&& forall|i: int| 0 <= i < self.groups.len() ==> (#[trigger] self.groups[i]).1.wf()
    }

    /// The number of columns of all column groups together.
    pub open spec fn total_columns(self) -> nat {
        columns_in(self.groups, self.groups.len() as int)
    }

    /// The table with one more column group, registered under `key`.
    pub open spec fn with_group(self, key: Seq<char>, group: ColumnGroupView) -> TableView {
        TableView { groups: self.groups.push((key, group)), ..self }
    }

    /// The table with the column group at position `i` replaced.
    pub open spec fn with_group_at(self, i: int, group: ColumnGroupView) -> TableView {
        TableView { groups: self.groups.update(i, (self.groups[i].0, group)), ..self }
    }

    /// The table with one more configuration pair.
    pub open spec fn with_config(self, key: Seq<char>, value: Seq<char>) -> TableView {
        TableView { config: self.config.push((key, value)), ..self }
    }

    /// What the table reports of itself: its name, its origin, the number of
    /// its column groups and the number of their columns.
    pub open spec fn info(self) -> Seq<(Seq<char>, Seq<char>)> {
        seq![
            ("name"@, self.name),
            ("node"@, self.node),
            ("numofcolumngroups"@, decimal_text(self.groups.len())),
            ("totalnumcolumns"@, decimal_text(self.total_columns())),
        ]
    }
}

/// The mathematical content of registered column groups.
pub open spec fn groups_view(entries: Seq<(Seq<char>, ColumnGroup)>) -> Seq<
    (Seq<char>, ColumnGroupView),
> {
    Seq::new(entries.len(), |i: int| (entries[i].0, entries[i].1@))
}

/// A named collection of column groups.
#[derive(Debug)]
pub struct Table {
    name: String,
    node: String,
    groups: NameMap<ColumnGroup>,
    config: Vec<(String, String)>,
}

impl View for Table {
    type V = TableView;

    closed spec fn view(&self) -> TableView {
        TableView {
            name: self.name@,
            node: self.node@,
            groups: groups_view(self.groups.entries()),
            config: pairs_view(self.config@),
        }
    }
}

impl Table {
    /// An empty table.
    pub fn new(name: String, node: String) -> (r: Table)
        ensures
            r@ == (TableView {
                name: name@,
                node: node@,
                groups: Seq::empty(),
                config: Seq::empty(),
            }),
    {
        let r = Table { name, node, groups: NameMap::new(), config: Vec::new() };
        assert(groups_view(r.groups.entries()) =~= Seq::empty());
        assert(pairs_view(r.config@) =~= Seq::empty());
        r
    }

    /// The table's name.
    pub fn name(&self) -> (r: &String)
        ensures
            r@ == self@.name,
    {
        &self.name
    }

    /// The label of where the table comes from.
    pub fn node(&self) -> (r: &String)
        ensures
            r@ == self@.node,
    {
        &self.node
    }

    /// The column groups, each under its key, in registration order.
    pub fn columngroups(&self) -> (r: &NameMap<ColumnGroup>)
        ensures
            groups_view(r.entries()) == self@.groups,
    {
        &self.groups
    }

    /// The configuration pairs, in the order in which they were added.
    pub fn config(&self) -> (r: &Vec<(String, String)>)
        ensures
            pairs_view(r@) == self@.config,
    {
        &self.config
    }

    /// Registers a column group under its own name and hands it back for
    /// further changes.  Where the name is taken, the table is left as it
    /// was.
    pub fn add_columngroup(&mut self, column: ColumnGroup) -> (r: DBResult<&mut ColumnGroup>)
        ensures
            match r {
                Ok(g) => ({
                    &&& !has_key(old(self)@.groups, column@.name)
                    &&& *g == column
                    &&& final(self)@ == old(self)@.with_group(column@.name, final(g)@)
                    &&& old(self)@.wf() && final(g)@.wf() ==> final(self)@.wf()
                }),
                Err(e) => e == DBERROR::InsertError && has_key(old(self)@.groups, column@.name)
                    && final(self)@ == old(self)@,
            },
    {
        let key = column.name().clone();
        proof {
            lemma_same_keys(self.groups.entries(), self@.groups, key@);
        }
        match self.groups.register(key, column) {
            None => Err(DBERROR::InsertError),
            Some(i) => {
                let ghost now = self.groups.entries();
                assert forall|v: ColumnGroup| #[trigger]
                    groups_view(now.update(i as int, (key@, v))) == self@.groups.update(
                        i as int,
                        (key@, v@),
                    ) by {
                    assert(groups_view(now.update(i as int, (key@, v))) =~= self@.groups.update(
                        i as int,
                        (key@, v@),
                    ));
                }
                assert(self@.groups =~= old(self)@.groups.push((key@, column@)));
                assert forall|v: ColumnGroupView|
                    (#[trigger] self@.groups.update(i as int, (key@, v))) == old(
                        self,
                    )@.groups.push((key@, v)) by {
                    assert(self@.groups.update(i as int, (key@, v)) =~= old(self)@.groups.push(
                        (key@, v),
                    ));
                }
                assert forall|v: ColumnGroupView| old(self)@.wf() && v.wf() implies (
                #[trigger] old(self)@.with_group(key@, v)).wf() by {
                    law_table_stays_well_formed(old(self)@, key@, v, 0);
                }
                Ok(self.groups.get_mut(i))
            },
        }
    }

    /// Creates an empty column group and registers it under `name`.
    pub fn create_columngroup(&mut self, name: String) -> (r: DBResult<&mut ColumnGroup>)
        ensures
            match r {
                Ok(g) => ({
                    &&& !has_key(old(self)@.groups, name@)
                    &&& g@ == (ColumnGroupView {
                        name: name@,
                        schema: Seq::empty(),
                        rows: Seq::empty(),
                    })
                    &&& final(self)@ == old(self)@.with_group(name@, final(g)@)
                    &&& old(self)@.wf() && final(g)@.wf() ==> final(self)@.wf()
                }),
                Err(e) => e == DBERROR::InsertError && has_key(old(self)@.groups, name@)
                    && final(self)@ == old(self)@,
            },
    {
        let new = ColumnGroup::new(name);
        self.add_columngroup(new)
    }

    /// Appends a configuration pair, unless the table already holds the very
    /// same pair; then the table is left as it was.
    pub fn add_config(&mut self, config: (String, String)) -> (r: DBResult<()>)
        ensures
            has_pair(old(self)@.config, config.0@, config.1@) ==> r == Err::<(), DBERROR>(
                DBERROR::InsertError,
            ) && final(self)@ == old(self)@,
            !has_pair(old(self)@.config, config.0@, config.1@) ==> r == Ok::<(), DBERROR>(())
                && final(self)@ == old(self)@.with_config(config.0@, config.1@),
            old(self)@.wf() ==> final(self)@.wf(),
    {
        if push_new_pair(&mut self.config, config) {
            Ok(())
        } else {
            Err(DBERROR::InsertError)
        }
    }

    /// Looks the column group `name` up and hands it out for changes.
    pub fn search_columngroup(&mut self, name: String) -> (r: DBResult<&mut ColumnGroup>)
        ensures
            match r {
                Ok(g) => match key_index(old(self)@.groups, name@) {
                    Some(i) => ({
                        &&& g@ == old(self)@.groups[i].1
                        &&& final(self)@ == old(self)@.with_group_at(i, final(g)@)
                        &&& old(self)@.wf() && final(g)@.wf() ==> final(self)@.wf()
                    }),
                    None => false,
                },
                Err(e) => e == DBERROR::SelectError && key_index(old(self)@.groups, name@).is_none()
                    && final(self)@ == old(self)@,
            },
    {
        proof {
            lemma_same_keys(self.groups.entries(), self@.groups, name@);
        }
        match self.groups.position(&name) {
            None => Err(DBERROR::SelectError),
            Some(i) => {
                let ghost now = self.groups.entries();
                assert forall|v: ColumnGroup| #[trigger]
                    groups_view(now.update(i as int, (name@, v))) == self@.groups.update(
                        i as int,
                        (name@, v@),
                    ) by {
                    assert(groups_view(now.update(i as int, (name@, v))) =~= self@.groups.update(
                        i as int,
                        (name@, v@),
                    ));
                }
                assert forall|v: ColumnGroupView| old(self)@.wf() && v.wf() implies (
                #[trigger] old(self)@.with_group_at(i as int, v)).wf() by {
                    law_table_stays_well_formed(old(self)@, name@, v, i as int);
                }
                Ok(self.groups.get_mut(i))
            },
        }
    }

    /// Looks the column group `name` up for reading.
    pub fn get_columngroup(&self, name: String) -> (r: DBResult<&ColumnGroup>)
        ensures
            match key_index(self@.groups, name@) {
                Some(i) => r.is_ok() && r.unwrap()@ == self@.groups[i].1,
                None => r == Err::<&ColumnGroup, DBERROR>(DBERROR::SelectError),
            },
    {
        proof {
            lemma_same_keys(self.groups.entries(), self@.groups, name@);
        }
        match self.groups.position(&name) {
            None => Err(DBERROR::SelectError),
            Some(i) => Ok(self.groups.get(i)),
        }
    }

    /// The number of column groups.
    pub fn numofcolumngroups(&self) -> (r: usize)
        ensures
            r == self@.groups.len(),
    {
        self.groups.len()
    }

    /// The number of columns of all column groups together.
    pub fn totalnumcolumns(&self) -> (r: u128)
        ensures
            r == self@.total_columns(),
    {
        let mut total: u128 = 0;
        let mut i: usize = 0;
        while i < self.groups.len()
            invariant
                i <= self.groups.entries().len(),
                total == columns_in(self@.groups, i as int),
                total <= i * 0xffff_ffff_ffff_ffff,
            decreases self.groups.entries().len() - i,
        {
            let n: usize = self.groups.get(i).numofcolumns();
            assert((i + 1) * 0xffff_ffff_ffff_ffff <= 0xffff_ffff_ffff_ffff * 0xffff_ffff_ffff_ffff)
                by (nonlinear_arith)
                requires
                    i + 1 <= 0xffff_ffff_ffff_ffff,
            ;
            total = total + (n as u128);
            i += 1;
        }
        total
    }

    /// What the table reports of itself: its name, its origin, the number of
    /// its column groups and the number of their columns.
    pub fn get_info(&self) -> (r: Vec<(String, String)>)
        ensures
            pairs_view(r@) == self@.info(),
    {
        let mut info: Vec<(String, String)> = Vec::new();
        info.push(("name".to_owned(), self.name.clone()));
        info.push(("node".to_owned(), self.node.clone()));
        info.push(("numofcolumngroups".to_owned(), to_decimal(self.groups.len() as u128)));
        info.push(("totalnumcolumns".to_owned(), to_decimal(self.totalnumcolumns())));
        assert(pairs_view(info@) =~= self@.info());
        info
    }

    /// A handle on the column group at position `i`, in registration order.
    pub fn columngroup_at_mut(&mut self, i: usize) -> (r: &mut ColumnGroup)
        requires
            i < old(self)@.groups.len(),
        ensures
            r@ == old(self)@.groups[i as int].1,
            final(self)@ == old(self)@.with_group_at(i as int, final(r)@),
            old(self)@.wf() && final(r)@.wf() ==> final(self)@.wf(),
    {
        assert forall|v: ColumnGroupView| old(self)@.wf() && v.wf() implies (
        #[trigger] old(self)@.with_group_at(i as int, v)).wf() by {
            law_table_stays_well_formed(old(self)@, Seq::empty(), v, i as int);
        }
        let ghost now = self.groups.entries();
        assert forall|v: ColumnGroup| #[trigger]
            groups_view(now.update(i as int, (now[i as int].0, v))) == self@.groups.update(
                i as int,
                (now[i as int].0, v@),
            ) by {
            assert(groups_view(now.update(i as int, (now[i as int].0, v))) =~= self@.groups.update(
                i as int,
                (now[i as int].0, v@),
            ));
        }
        self.groups.get_mut(i)
    }
}

} // verus!
