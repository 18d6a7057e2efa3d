//! The persistence layer: key-addressed tables, the mapping table's
//! upsert and removal flags, and height queries over the ratification
//! log.

use pledge_indexer::models::get_ratifications;
use pledge_indexer::models::insert_ratify;
use pledge_indexer::models::Mapping;
use pledge_indexer::models::MappingStore;
use pledge_indexer::models::NewMapping;
use pledge_indexer::models::NewRatify;
use pledge_indexer::models::Ratify;
use pledge_indexer::models::RatifyStore;
use pledge_indexer::StrTable;
use pledge_indexer::U64Table;

fn new_ratify(id: &str, height: i64) -> NewRatify {
    NewRatify {
        ratification_id: id.to_string(),
        height,
        type_: "block_reward".to_string(),
        starting_round: None,
        total_stake: None,
        block_reward: Some("100".to_string()),
        puzzle_reward: None,
    }
}

fn new_mapping(key_id: &str, key: &str, value: &str, mapping: &str, program: &str) -> NewMapping {
    NewMapping {
        key_id: Some(key_id.to_string()),
        value_id: Some(format!("v_{}", key_id)),
        mapping_id: "m1".to_string(),
        key: Some(key.to_string()),
        value: Some(value.to_string()),
        mapping_name: mapping.to_string(),
        program_name: program.to_string(),
        removed: false,
    }
}

#[test]
fn str_table_upsert_overwrites_and_keeps_one_row() {
    let mut t: StrTable<u64> = StrTable::new();
    t.upsert("a".to_string(), 1);
    t.upsert("b".to_string(), 2);
    t.upsert("a".to_string(), 3);
    assert_eq!(t.len(), 2);
    assert_eq!(t.get(&"a".to_string()), Some(&3));
    assert_eq!(t.get(&"b".to_string()), Some(&2));
}

#[test]
fn u64_table_insert_if_absent_keeps_the_first_value() {
    let mut t: U64Table<&str> = U64Table::new();
    t.insert_if_absent(5, "first");
    t.insert_if_absent(5, "second");
    assert_eq!(t.len(), 1);
    assert_eq!(t.get(5), Some(&"first"));
}

#[test]
fn u64_table_update_by_key_ignores_absent_keys() {
    let mut t: U64Table<&str> = U64Table::new();
    t.update_by_key(5, "phantom");
    assert_eq!(t.len(), 0);
    t.insert_if_absent(5, "first");
    t.update_by_key(5, "second");
    assert_eq!(t.get(5), Some(&"second"));
}

#[test]
fn height_filtering_returns_exactly_the_inside_row() {
    let mut store = RatifyStore::new();
    insert_ratify(&mut store, new_ratify("r10", 10));
    insert_ratify(&mut store, new_ratify("r20", 20));
    insert_ratify(&mut store, new_ratify("r30", 30));
    let hits = Ratify::list_by_height_range(&store, 15, 25);
    assert_eq!(hits.len(), 1);
    assert_eq!(hits[0].height, 20);
    assert_eq!(hits[0].ratification_id, "r20");
}

#[test]
fn exact_height_query_matches_and_misses() {
    let mut store = RatifyStore::new();
    insert_ratify(&mut store, new_ratify("a", 10));
    insert_ratify(&mut store, new_ratify("b", 10));
    insert_ratify(&mut store, new_ratify("c", 11));
    let tens = get_ratifications(&store, 10);
    assert_eq!(tens.len(), 2);
    assert_eq!(tens[0].ratification_id, "a");
    assert_eq!(tens[1].ratification_id, "b");
    assert_eq!(get_ratifications(&store, 12).len(), 0);
    assert_eq!(tens[0].id, 0);
    assert_eq!(tens[1].id, 1);
}

#[test]
fn mapping_upsert_then_lookup_round_trips() {
    let mut store = MappingStore::new();
    new_mapping("k1", "key1", "val1", "balances", "pledge_vote.aleo")
        .upsert(&mut store)
        .unwrap();
    new_mapping("k1", "key1", "val2", "balances", "pledge_vote.aleo")
        .upsert(&mut store)
        .unwrap();
    assert_eq!(store.rows.len(), 1);
    let m = Mapping::get_mapping_by_key_id(&store, &"k1".to_string()).unwrap();
    assert_eq!(m.value, "val2");
    let by_key = Mapping::get_mapping_by_mapping_key(
        &store,
        &"pledge_vote.aleo".to_string(),
        &"balances".to_string(),
        &"key1".to_string(),
    )
    .unwrap();
    assert_eq!(by_key.value, "val2");
}

#[test]
fn mapping_upsert_without_key_id_fails_and_writes_nothing() {
    let mut store = MappingStore::new();
    let mut write = new_mapping("k1", "key1", "val1", "balances", "pledge_vote.aleo");
    write.key_id = None;
    assert!(write.upsert(&mut store).is_err());
    assert_eq!(store.rows.len(), 0);
}

#[test]
fn removal_is_a_flag_not_a_deletion() {
    let mut store = MappingStore::new();
    new_mapping("k1", "key1", "val1", "balances", "pledge_vote.aleo")
        .upsert(&mut store)
        .unwrap();
    new_mapping("k2", "key2", "val2", "balances", "pledge_vote.aleo")
        .upsert(&mut store)
        .unwrap();
    Mapping::remove_key_value(&mut store, &"k1".to_string());
    assert_eq!(store.rows.len(), 2);
    assert!(Mapping::get_mapping_by_key_id(&store, &"k1".to_string()).is_none());
    assert!(Mapping::get_mapping_by_key_id(&store, &"k2".to_string()).is_some());
    let live = Mapping::list_mapping_by_program(&store, &"pledge_vote.aleo".to_string());
    assert_eq!(live.len(), 1);
    assert_eq!(live[0].key_id, "k2");
    Mapping::remove_mapping(&mut store, &"balances".to_string());
    let none_left = Mapping::list_mapping_by_program(&store, &"pledge_vote.aleo".to_string());
    assert_eq!(none_left.len(), 0);
}
