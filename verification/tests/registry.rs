use rdb::text::{contains_pair, push_new_pair};
use rdb::{Database, Datatypes, NameMap, Table};

#[test]
fn a_name_map_keeps_registration_order() {
    let mut map: NameMap<u32> = NameMap::new();
    assert_eq!(map.len(), 0);
    assert_eq!(map.register("b".to_string(), 2), Some(0));
    assert_eq!(map.register("a".to_string(), 1), Some(1));
    assert_eq!(map.register("c".to_string(), 3), Some(2));
    assert_eq!(map.len(), 3);
    assert_eq!(map.key(0), "b");
    assert_eq!(map.key(1), "a");
    assert_eq!(map.key(2), "c");
    assert_eq!(*map.get(0), 2);
    assert_eq!(*map.get(1), 1);
    assert_eq!(*map.get(2), 3);
}

#[test]
fn a_name_map_refuses_a_taken_key() {
    let mut map: NameMap<u32> = NameMap::new();
    assert_eq!(map.register("a".to_string(), 1), Some(0));
    assert_eq!(map.register("a".to_string(), 9), None);
    assert_eq!(map.len(), 1);
    assert_eq!(*map.get(0), 1);
}

#[test]
fn a_name_map_finds_keys_by_position() {
    let mut map: NameMap<u32> = NameMap::new();
    map.register("x".to_string(), 10);
    map.register("y".to_string(), 20);
    assert_eq!(map.position(&"x".to_string()), Some(0));
    assert_eq!(map.position(&"y".to_string()), Some(1));
    assert_eq!(map.position(&"z".to_string()), None);
    assert_eq!(map.position(&"".to_string()), None);
}

#[test]
fn a_name_map_handle_changes_the_value_and_keeps_the_key() {
    let mut map: NameMap<u32> = NameMap::new();
    map.register("x".to_string(), 10);
    map.register("y".to_string(), 20);
    *map.get_mut(1) = 21;
    assert_eq!(map.key(1), "y");
    assert_eq!(*map.get(1), 21);
    assert_eq!(*map.get(0), 10);
}

#[test]
fn handles_by_position_reach_every_child() {
    let mut db = Database::created_at("db".to_string(), "t".to_string());
    db.create_type("a".to_string()).unwrap();
    db.create_type("b".to_string()).unwrap();
    for i in 0..db.numoftypes() {
        let group = db.dbtype_at_mut(i);
        group.create_table("t".to_string(), "n".to_string()).unwrap();
        for j in 0..group.numoftables() {
            let table = group.table_at_mut(j);
            table.create_columngroup("g".to_string()).unwrap();
            for k in 0..table.numofcolumngroups() {
                let cg = table.columngroup_at_mut(k);
                cg.add_column(("c".to_string(), Datatypes::Booleans(false))).unwrap();
                cg.insert_row(vec![Datatypes::Booleans(true)]).unwrap();
            }
        }
    }
    assert_eq!(db.totalnumtables(), 2);
    for key in ["a", "b"] {
        let group = db.get_dbtype(key.to_string()).unwrap();
        let table = group.get_table("t".to_string()).unwrap();
        assert_eq!(table.totalnumcolumns(), 1);
        let cg = table.search_columngroup("g".to_string()).unwrap();
        assert_eq!(cg.rows().len(), 1);
    }
}

#[test]
fn a_handle_on_a_new_column_group_is_the_registered_one() {
    let mut table = Table::new("t".to_string(), "n".to_string());
    table.create_columngroup("first".to_string()).unwrap();
    {
        let cg = table.create_columngroup("second".to_string()).unwrap();
        assert_eq!(cg.name(), "second");
        cg.add_column(("c".to_string(), Datatypes::Integers(0))).unwrap();
    }
    assert_eq!(table.columngroups().get(0).numofcolumns(), 0);
    assert_eq!(table.columngroups().get(1).numofcolumns(), 1);
}

#[test]
fn pair_lists_take_each_pair_once() {
    let mut pairs: Vec<(String, String)> = Vec::new();
    let kv = ("k".to_string(), "v".to_string());
    assert!(!contains_pair(&pairs, &kv));
    assert!(push_new_pair(&mut pairs, kv.clone()));
    assert!(contains_pair(&pairs, &kv));
    assert!(!push_new_pair(&mut pairs, kv.clone()));
    assert!(push_new_pair(&mut pairs, ("k".to_string(), "w".to_string())));
    assert!(!contains_pair(&pairs, &("v".to_string(), "k".to_string())));
    assert_eq!(pairs.len(), 2);
}
