//! Per-block processing of an extracted payload into the mapping,
//! operation, and ratification stores.

use pledge_indexer::models::Mapping;
use pledge_indexer::models::MappingStore;
use pledge_indexer::models::OperationStore;
use pledge_indexer::models::RatifyStore;
use pledge_indexer::records::Extracted;
use pledge_indexer::records::Operation;
use pledge_indexer::records::Ratify;
use pledge_indexer::sync::process_extracted;

fn op(op_type: i32, key_id: &str, key: &str, value: &str) -> Operation {
    Operation {
        op_type,
        program_name: "pledge_vote.aleo".to_string(),
        mapping_id: "m1".to_string(),
        key_id: Some(key_id.to_string()),
        value_id: Some(format!("v_{}", key_id)),
        mapping_name: "balances".to_string(),
        key: Some(key.to_string()),
        value: Some(value.to_string()),
    }
}

#[test]
fn a_block_is_folded_into_logs_and_mapping_table() {
    let extracted = Extracted {
        ratifications: vec![Ratify {
            id: "rat1".to_string(),
            height: 50,
            r_type: "block_reward".to_string(),
            starting_round: Some(7),
            total_stake: None,
            block_reward: Some(100),
            puzzle_reward: None,
        }],
        operations: vec![
            op(1, "k1", "key1", "val1"),
            op(2, "k1", "key1", "val2"),
            op(1, "k2", "key2", "val3"),
            op(3, "k2", "", ""),
        ],
    };
    let mut mstore = MappingStore::new();
    let mut ostore = OperationStore::new();
    let mut rstore = RatifyStore::new();
    process_extracted(&mut mstore, &mut ostore, &mut rstore, &extracted);

    assert_eq!(rstore.rows.len(), 1);
    let r = &rstore.rows[0];
    assert_eq!(r.id, 0);
    assert_eq!(r.ratification_id, "rat1");
    assert_eq!(r.height, 50);
    assert_eq!(r.starting_round.as_deref(), Some("7"));
    assert_eq!(r.total_stake, None);
    assert_eq!(r.block_reward.as_deref(), Some("100"));

    assert_eq!(ostore.rows.len(), 4);
    assert_eq!(ostore.rows[0].type_, "1");
    assert_eq!(ostore.rows[1].type_, "2");
    assert_eq!(ostore.rows[3].type_, "3");
    assert_eq!(ostore.rows[0].key_id.as_deref(), Some("k1"));

    // k1 was inserted then updated; k2 was inserted then removed.
    assert_eq!(mstore.rows.len(), 2);
    let k1 = Mapping::get_mapping_by_key_id(&mstore, &"k1".to_string()).unwrap();
    assert_eq!(k1.value, "val2");
    assert!(Mapping::get_mapping_by_key_id(&mstore, &"k2".to_string()).is_none());
}

#[test]
fn replaying_a_block_keeps_the_mapping_table_converged() {
    let extracted = Extracted {
        ratifications: Vec::new(),
        operations: vec![op(1, "k1", "key1", "val1")],
    };
    let mut mstore = MappingStore::new();
    let mut ostore = OperationStore::new();
    let mut rstore = RatifyStore::new();
    process_extracted(&mut mstore, &mut ostore, &mut rstore, &extracted);
    process_extracted(&mut mstore, &mut ostore, &mut rstore, &extracted);
    // The raw operation log records both deliveries; the mapping table
    // holds one converged row.
    assert_eq!(ostore.rows.len(), 2);
    assert_eq!(mstore.rows.len(), 1);
    let k1 = Mapping::get_mapping_by_key_id(&mstore, &"k1".to_string()).unwrap();
    assert_eq!(k1.value, "val1");
}

#[test]
fn remove_mapping_flags_every_row_of_that_mapping() {
    let mut remove = op(4, "k9", "", "");
    remove.key_id = None;
    let extracted = Extracted {
        ratifications: Vec::new(),
        operations: vec![op(1, "k1", "key1", "val1"), op(1, "k2", "key2", "val2"), remove],
    };
    let mut mstore = MappingStore::new();
    let mut ostore = OperationStore::new();
    let mut rstore = RatifyStore::new();
    process_extracted(&mut mstore, &mut ostore, &mut rstore, &extracted);
    assert_eq!(mstore.rows.len(), 2);
    assert!(Mapping::get_mapping_by_key_id(&mstore, &"k1".to_string()).is_none());
    assert!(Mapping::get_mapping_by_key_id(&mstore, &"k2".to_string()).is_none());
}
