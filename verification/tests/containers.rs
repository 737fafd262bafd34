use rdb::{
    create_columngroup_set, create_dbtype_set, create_table_set, ColumnGroup, DBtypes, Database,
    Datatypes, Table, DBERROR,
};

fn names(list: &[&str]) -> Vec<String> {
    list.iter().map(|s| s.to_string()).collect()
}

fn pair(a: &str, b: &str) -> (String, String) {
    (a.to_string(), b.to_string())
}

fn keys_of_types(db: &Database) -> Vec<String> {
    (0..db.types().len()).map(|i| db.types().key(i).clone()).collect()
}

#[test]
fn bulk_types_stop_at_the_first_duplicate() {
    let mut db = Database::new("db".to_string());
    db.create_type("taken".to_string()).unwrap();

    let r = create_dbtype_set(&mut db, names(&["first", "taken", "third"]));
    assert!(matches!(r, Err(DBERROR::InsertError)));
    assert_eq!(keys_of_types(&db), names(&["taken", "first"]));
    assert!(db.get_dbtype("first".to_string()).is_ok());
    assert!(matches!(db.get_dbtype("third".to_string()), Err(DBERROR::SelectError)));
}

#[test]
fn database_info_counts_types_and_tables() {
    let mut db = Database::created_at("db".to_string(), "then".to_string());
    create_dbtype_set(&mut db, names(&["a", "b"])).unwrap();
    for key in ["a", "b"] {
        let group = db.get_dbtype(key.to_string()).unwrap();
        create_table_set(group, names(&["t1", "t2", "t3"])).unwrap();
    }
    assert_eq!(db.numoftypes(), 2);
    assert_eq!(db.totalnumtables(), 6);
    assert_eq!(
        db.get_info(),
        vec![
            pair("name", "db"),
            pair("create_time", "then"),
            pair("numoftypes", "2"),
            pair("totalnumtables", "6"),
        ]
    );
}

#[test]
fn an_empty_database_reports_zeros() {
    let db = Database::created_at("empty".to_string(), "t0".to_string());
    assert_eq!(db.name(), "empty");
    assert_eq!(db.create_time(), "t0");
    assert_eq!(
        db.get_info(),
        vec![
            pair("name", "empty"),
            pair("create_time", "t0"),
            pair("numoftypes", "0"),
            pair("totalnumtables", "0"),
        ]
    );
}

#[test]
fn a_new_database_bears_the_present_time() {
    let before = chrono::Utc::now();
    let db = Database::new("db".to_string());
    let after = chrono::Utc::now();
    let stamp: chrono::DateTime<chrono::Utc> = db.create_time().parse().unwrap();
    assert!(before <= stamp && stamp <= after);
    assert_eq!(db.name(), "db");
    assert_eq!(db.numoftypes(), 0);
    let info = db.get_info();
    assert_eq!(info.len(), 4);
    assert_eq!(info[1], (String::from("create_time"), db.create_time().clone()));
}

#[test]
fn a_type_name_registers_once() {
    let mut db = Database::created_at("db".to_string(), "t".to_string());
    let made = db.create_type("a".to_string()).unwrap();
    assert_eq!(made.name(), "a");
    assert_eq!(made.numoftables(), 0);

    let mut other = DBtypes::new("a".to_string());
    other.create_table("t".to_string(), "n".to_string()).unwrap();
    assert!(matches!(db.addtype(other), Err(DBERROR::InsertError)));
    assert!(matches!(db.create_type("a".to_string()), Err(DBERROR::InsertError)));

    assert_eq!(db.numoftypes(), 1);
    assert_eq!(db.totalnumtables(), 0);
    assert_eq!(db.get_dbtype("a".to_string()).unwrap().numoftables(), 0);
}

#[test]
fn addtype_keeps_what_the_group_holds() {
    let mut db = Database::created_at("db".to_string(), "t".to_string());
    let mut group = DBtypes::new("g".to_string());
    create_table_set(&mut group, names(&["x", "y"])).unwrap();
    let stored = db.addtype(group).unwrap();
    assert_eq!(stored.numoftables(), 2);
    assert_eq!(db.totalnumtables(), 2);
    assert!(matches!(db.get_dbtype("h".to_string()), Err(DBERROR::SelectError)));
}

#[test]
fn a_table_name_registers_once() {
    let mut group = DBtypes::new("g".to_string());
    let made = group.create_table("t".to_string(), "origin".to_string()).unwrap();
    assert_eq!(made.name(), "t");
    assert_eq!(made.node(), "origin");
    assert_eq!(group.numoftables(), 1);

    let again = group.addtable(Table::new("t".to_string(), "elsewhere".to_string()));
    assert!(matches!(again, Err(DBERROR::InsertError)));
    assert!(matches!(
        group.create_table("t".to_string(), "elsewhere".to_string()),
        Err(DBERROR::InsertError)
    ));
    assert_eq!(group.numoftables(), 1);
    assert_eq!(group.search_table("t".to_string()).unwrap().node(), "origin");
}

#[test]
fn the_table_count_follows_the_tables() {
    let mut group = DBtypes::new("g".to_string());
    assert_eq!(group.numoftables(), 0);
    for (i, name) in ["a", "b", "c"].iter().enumerate() {
        group.create_table(name.to_string(), "n".to_string()).unwrap();
        assert_eq!(group.numoftables(), i + 1);
        assert_eq!(group.tables().len(), i + 1);
    }
    assert!(group.create_table("b".to_string(), "n".to_string()).is_err());
    assert_eq!(group.numoftables(), 3);
}

#[test]
fn tables_are_found_by_name() {
    let mut group = DBtypes::new("g".to_string());
    create_table_set(&mut group, names(&["a", "b"])).unwrap();
    assert_eq!(group.search_table("b".to_string()).unwrap().name(), "b");
    assert!(matches!(group.search_table("c".to_string()), Err(DBERROR::SelectError)));
    assert!(matches!(group.get_table("c".to_string()), Err(DBERROR::SelectError)));

    let table = group.get_table("a".to_string()).unwrap();
    table.create_columngroup("cg".to_string()).unwrap();
    assert_eq!(group.search_table("a".to_string()).unwrap().numofcolumngroups(), 1);
    assert_eq!(group.search_table("b".to_string()).unwrap().numofcolumngroups(), 0);
}

#[test]
fn bulk_tables_bear_the_group_name_as_origin() {
    let mut group = DBtypes::new("origin".to_string());
    create_table_set(&mut group, names(&["a", "b"])).unwrap();
    assert_eq!(group.search_table("a".to_string()).unwrap().node(), "origin");
    assert_eq!(group.search_table("b".to_string()).unwrap().node(), "origin");
}

#[test]
fn bulk_tables_stop_at_the_first_duplicate() {
    let mut group = DBtypes::new("g".to_string());
    let r = create_table_set(&mut group, names(&["a", "b", "a", "c"]));
    assert!(matches!(r, Err(DBERROR::InsertError)));
    assert_eq!(group.numoftables(), 2);
    assert!(group.search_table("a".to_string()).is_ok());
    assert!(group.search_table("b".to_string()).is_ok());
    assert!(group.search_table("c".to_string()).is_err());
}

#[test]
fn bulk_column_groups_stop_at_the_first_duplicate() {
    let mut table = Table::new("t".to_string(), "n".to_string());
    table.create_columngroup("b".to_string()).unwrap();
    let r = create_columngroup_set(&mut table, names(&["a", "b", "c"]));
    assert!(matches!(r, Err(DBERROR::InsertError)));
    assert_eq!(table.numofcolumngroups(), 2);
    assert!(table.search_columngroup("a".to_string()).is_ok());
    assert!(matches!(table.search_columngroup("c".to_string()), Err(DBERROR::SelectError)));
}

#[test]
fn bulk_helpers_with_no_names_change_nothing() {
    let mut db = Database::created_at("db".to_string(), "t".to_string());
    assert!(create_dbtype_set(&mut db, vec![]).is_ok());
    assert_eq!(db.numoftypes(), 0);
    let mut table = Table::new("t".to_string(), "n".to_string());
    assert!(create_columngroup_set(&mut table, vec![]).is_ok());
    assert_eq!(table.numofcolumngroups(), 0);
}

#[test]
fn bulk_helpers_register_every_free_name() {
    let mut db = Database::created_at("db".to_string(), "t".to_string());
    create_dbtype_set(&mut db, names(&["x", "y", "z"])).unwrap();
    assert_eq!(keys_of_types(&db), names(&["x", "y", "z"]));
    let mut table = Table::new("t".to_string(), "n".to_string());
    create_columngroup_set(&mut table, names(&["p", "q"])).unwrap();
    assert_eq!(table.columngroups().key(0), "p");
    assert_eq!(table.columngroups().key(1), "q");
    assert_eq!(table.columngroups().get(1).name(), "q");
}

#[test]
fn a_column_group_name_registers_once() {
    let mut table = Table::new("t".to_string(), "n".to_string());
    {
        let group = table.create_columngroup("cg".to_string()).unwrap();
        group.add_column(("id".to_string(), Datatypes::Integers(0))).unwrap();
    }
    let mut other = ColumnGroup::new("cg".to_string());
    other.add_column(("a".to_string(), Datatypes::Booleans(false))).unwrap();
    other.add_column(("b".to_string(), Datatypes::Booleans(false))).unwrap();
    assert!(matches!(table.add_columngroup(other), Err(DBERROR::InsertError)));
    assert!(matches!(table.create_columngroup("cg".to_string()), Err(DBERROR::InsertError)));

    assert_eq!(table.numofcolumngroups(), 1);
    assert_eq!(table.totalnumcolumns(), 1);
    let kept = table.search_columngroup("cg".to_string()).unwrap();
    assert_eq!(kept.schema()[0], ("id".to_string(), Datatypes::Integers(0)));
}

#[test]
fn table_info_sums_the_columns_of_its_groups() {
    let mut table = Table::new("t".to_string(), "origin".to_string());
    assert_eq!(
        table.get_info(),
        vec![
            pair("name", "t"),
            pair("node", "origin"),
            pair("numofcolumngroups", "0"),
            pair("totalnumcolumns", "0"),
        ]
    );
    let mut wide = ColumnGroup::new("wide".to_string());
    for i in 0..11 {
        wide.add_column((format!("c{}", i), Datatypes::BigUIntegers(0))).unwrap();
    }
    table.add_columngroup(wide).unwrap();
    table.create_columngroup("none".to_string()).unwrap();
    {
        let two = table.create_columngroup("two".to_string()).unwrap();
        two.add_column(("a".to_string(), Datatypes::Booleans(false))).unwrap();
        two.add_column(("b".to_string(), Datatypes::Doubles(0))).unwrap();
    }
    assert_eq!(table.numofcolumngroups(), 3);
    assert_eq!(table.totalnumcolumns(), 13);
    assert_eq!(
        table.get_info(),
        vec![
            pair("name", "t"),
            pair("node", "origin"),
            pair("numofcolumngroups", "3"),
            pair("totalnumcolumns", "13"),
        ]
    );
}

#[test]
fn changes_through_a_handle_reach_the_tree() {
    let mut db = Database::created_at("db".to_string(), "t".to_string());
    db.create_type("g".to_string()).unwrap();
    {
        let group = db.get_dbtype("g".to_string()).unwrap();
        group.create_table("t".to_string(), "g".to_string()).unwrap();
        let table = group.get_table("t".to_string()).unwrap();
        let cg = table.create_columngroup("cg".to_string()).unwrap();
        cg.add_column(("id".to_string(), Datatypes::Integers(0))).unwrap();
        cg.insert_row(vec![Datatypes::Integers(5)]).unwrap();
    }
    let group = db.get_dbtype("g".to_string()).unwrap();
    let table = group.get_table("t".to_string()).unwrap();
    let cg = table.search_columngroup("cg".to_string()).unwrap();
    assert_eq!(cg.search_row("id", Datatypes::Integers(5)).unwrap(), vec![Datatypes::Integers(5)]);
    assert_eq!(db.totalnumtables(), 1);
}

#[test]
fn a_table_config_pair_is_kept_once() {
    let mut table = Table::new("t".to_string(), "n".to_string());
    table.add_config(pair("k", "v")).unwrap();
    assert!(matches!(table.add_config(pair("k", "v")), Err(DBERROR::InsertError)));
    table.add_config(pair("k", "w")).unwrap();
    table.add_config(pair("j", "v")).unwrap();
    assert_eq!(table.config(), &vec![pair("k", "v"), pair("k", "w"), pair("j", "v")]);
}

#[test]
fn a_group_info_pair_is_kept_once() {
    let mut group = DBtypes::new("g".to_string());
    group.add_config(pair("k", "v")).unwrap();
    group.add_config(pair("v", "k")).unwrap();
    assert!(matches!(group.add_config(pair("v", "k")), Err(DBERROR::InsertError)));
    assert_eq!(group.info(), &vec![pair("k", "v"), pair("v", "k")]);
}

#[test]
fn column_groups_are_found_by_name_for_reading() {
    let mut table = Table::new("t".to_string(), "n".to_string());
    create_columngroup_set(&mut table, names(&["a", "b"])).unwrap();
    table
        .search_columngroup("b".to_string())
        .unwrap()
        .add_column(("c".to_string(), Datatypes::Integers(0)))
        .unwrap();
    assert_eq!(table.get_columngroup("a".to_string()).unwrap().numofcolumns(), 0);
    assert_eq!(table.get_columngroup("b".to_string()).unwrap().numofcolumns(), 1);
    assert_eq!(table.get_columngroup("b".to_string()).unwrap().name(), "b");
    assert!(matches!(table.get_columngroup("c".to_string()), Err(DBERROR::SelectError)));
}
