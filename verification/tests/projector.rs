//! The dispatcher and projector: classification of records, idempotent
//! application of resolved operations, and no-ops for records of other
//! programs.

use pledge_indexer::entities::Dao;
use pledge_indexer::entities::HoldToken;
use pledge_indexer::entities::TokenInfo;
use pledge_indexer::errors::ProjectionError;
use pledge_indexer::gateway::Store;
use pledge_indexer::projector::apply_record;
use pledge_indexer::projector::classify;
use pledge_indexer::projector::program_handler;
use pledge_indexer::projector::project;
use pledge_indexer::projector::RecordOp;
use pledge_indexer::projector::ResolvedOp;
use pledge_indexer::records::Input;
use pledge_indexer::records::Output;
use pledge_indexer::records::Record;
use pledge_indexer::records::Records;

fn record(program: &str, function: &str, finalize: Vec<&str>) -> Record {
    Record {
        program: program.to_string(),
        function: function.to_string(),
        inputs: Vec::<Input>::new(),
        outputs: Vec::<Output>::new(),
        finalize: finalize.into_iter().map(|s| s.to_string()).collect(),
        block_hash: "ab1block".to_string(),
        previous_hash: "ab1prev".to_string(),
        transaction_id: "at1tx".to_string(),
        transition_id: "au1tr".to_string(),
        network: 3,
        height: 10,
        timestamp: 1700000000,
    }
}

fn sample_token_info(id: u64) -> TokenInfo {
    TokenInfo {
        id,
        name: "Pledge".to_string(),
        symbol: "PLG".to_string(),
        supply: 1000,
        decimals: 6,
        max_mint_amount: 100,
        minted_amount: 10,
        dao_id: 7,
        only_creator_can_mint: false,
    }
}

fn sample_dao(id: u64) -> Dao {
    Dao {
        id,
        name: "A dao".to_string(),
        dao_type: 0,
        creator: "aleo1creator".to_string(),
        token_info_id: 3,
        icon: "icon".to_string(),
        description: "desc".to_string(),
        official_link: "link".to_string(),
        proposal_count: 0,
        pass_proposal_count: 0,
        vote_count: 0,
        passed_votes_proportion: 0,
        passed_tokens_proportion: 0,
    }
}

#[test]
fn classify_mint_reads_owner_and_token_info_id() {
    let r = record("pledge_vote.aleo", "mint", vec!["aleo1owner", "100u64", "1"]);
    match classify(&r).unwrap() {
        RecordOp::Mint { owner, token_info_id } => {
            assert_eq!(owner, "aleo1owner");
            assert_eq!(token_info_id, "1");
        }
        other => panic!("wrong op: {:?}", other),
    }
}

#[test]
fn classify_short_finalize_is_malformed() {
    let r = record("pledge_vote.aleo", "mint", vec!["aleo1owner"]);
    assert!(matches!(
        classify(&r),
        Err(ProjectionError::MalformedRecord)
    ));
    let t = record("pledge_vote.aleo", "transfer", vec!["a", "b", "c"]);
    assert!(matches!(classify(&t), Err(ProjectionError::MalformedRecord)));
}

#[test]
fn classify_unknown_function_is_explicit() {
    let r = record("pledge_vote.aleo", "burn", vec![]);
    assert!(matches!(classify(&r).unwrap(), RecordOp::Unknown));
}

#[test]
fn classify_close_proposal_parses_extend_key() {
    let r = record("pledge_vote.aleo", "close_proposal", vec!["x", "42"]);
    match classify(&r).unwrap() {
        RecordOp::CloseProposal { proposal_key, extend_key } => {
            assert_eq!(proposal_key, "42");
            assert_eq!(extend_key, 42);
        }
        other => panic!("wrong op: {:?}", other),
    }
    let bad = record("pledge_vote.aleo", "close_proposal", vec!["x", "notanumber"]);
    assert!(matches!(
        classify(&bad),
        Err(ProjectionError::MalformedRecord)
    ));
}

#[test]
fn applying_the_same_operation_twice_changes_nothing_more() {
    let mut store = Store::new();
    let op = ResolvedOp::Mint {
        token_info: Some(sample_token_info(3)),
        balance: Some(("12345field".to_string(), HoldToken {
            token_owner: "aleo1owner".to_string(),
            amount: 100,
            token_info_id: 3,
        })),
    };
    apply_record(&mut store, op.clone());
    let balances_once = store.balances.rows.clone();
    let tokens_once = store.token_infos.rows.clone();
    apply_record(&mut store, op);
    assert_eq!(store.balances.rows, balances_once);
    assert_eq!(store.token_infos.rows, tokens_once);
}

#[test]
fn out_of_program_records_write_nothing() {
    let mut store = Store::new();
    let records = Records {
        records: vec![
            record("credits.aleo", "mint", vec!["aleo1owner", "100u64", "1"]),
            record("other.aleo", "vote", vec!["1"]),
        ],
    };
    program_handler(&mut store, &"http://127.0.0.1:1".to_string(), &records);
    assert_eq!(store.profiles.rows.len(), 0);
    assert_eq!(store.daos.rows.len(), 0);
    assert_eq!(store.token_infos.rows.len(), 0);
    assert_eq!(store.balances.rows.len(), 0);
    assert_eq!(store.stake_amounts.rows.len(), 0);
    assert_eq!(store.proposals.rows.len(), 0);
    assert_eq!(store.votes.rows.len(), 0);
    assert_eq!(store.auto_increment.rows.len(), 0);
    assert_eq!(store.extend_pledge_period.rows.len(), 0);
}

#[test]
fn create_dao_scenario_is_idempotent() {
    let mut store = Store::new();
    let op = ResolvedOp::CreateDao {
        token_info: Some(sample_token_info(3)),
        dao: Some(sample_dao(7)),
    };
    apply_record(&mut store, op.clone());
    assert_eq!(store.daos.rows.len(), 1);
    assert_eq!(store.token_infos.rows.len(), 1);
    assert_eq!(store.daos.rows[0].0, 7);
    assert_eq!(store.daos.rows[0].1, sample_dao(7));
    assert_eq!(store.token_infos.rows[0].0, 3);
    assert_eq!(store.token_infos.rows[0].1, sample_token_info(3));
    apply_record(&mut store, op);
    assert_eq!(store.daos.rows.len(), 1);
    assert_eq!(store.token_infos.rows.len(), 1);
    assert_eq!(store.daos.rows[0].1, sample_dao(7));
    assert_eq!(store.token_infos.rows[0].1, sample_token_info(3));
}

#[test]
fn partial_transfer_keeps_the_applied_half() {
    let mut store = Store::new();
    let holding = HoldToken {
        token_owner: "aleo1sender".to_string(),
        amount: 40,
        token_info_id: 3,
    };
    let op = ResolvedOp::Transfer {
        sender_balance: Some(("1field".to_string(), holding.clone())),
        receiver_balance: None,
    };
    apply_record(&mut store, op);
    assert_eq!(store.balances.rows.len(), 1);
    assert_eq!(store.balances.rows[0].0, "1field");
    assert_eq!(store.balances.rows[0].1, holding);
}

#[test]
fn fetch_free_operations_are_owed_success() {
    // Join, split, and unknown operations fetch nothing and write
    // nothing; projecting them must succeed without any node.
    let mut store = Store::new();
    let api = "http://127.0.0.1:1".to_string();
    for function in ["join", "split", "burn"] {
        let r = record("pledge_vote.aleo", function, vec![]);
        assert!(project(&mut store, &api, &r).is_ok());
    }
    assert_eq!(store.balances.rows.len(), 0);
    assert_eq!(store.stake_amounts.rows.len(), 0);
}

#[test]
fn stake_with_a_bad_owner_hash_is_rejected_before_any_fetch() {
    let mut store = Store::new();
    let api = "http://127.0.0.1:1".to_string();
    let r = record(
        "pledge_vote.aleo",
        "stake",
        vec!["not_a_field_literal", "100u64", "1"],
    );
    assert!(matches!(
        project(&mut store, &api, &r),
        Err(ProjectionError::MalformedRecord)
    ));
    assert_eq!(store.stake_amounts.rows.len(), 0);
}

#[test]
fn malformed_records_are_rejected_with_nothing_written() {
    let mut store = Store::new();
    let api = "http://127.0.0.1:1".to_string();
    let r = record("pledge_vote.aleo", "mint", vec!["aleo1owner"]);
    assert!(matches!(
        project(&mut store, &api, &r),
        Err(ProjectionError::MalformedRecord)
    ));
    assert_eq!(store.token_infos.rows.len(), 0);
    assert_eq!(store.balances.rows.len(), 0);
}

#[test]
fn transfer_to_the_same_slot_keeps_one_row_with_the_last_value() {
    let mut store = Store::new();
    let first = HoldToken {
        token_owner: "aleo1self".to_string(),
        amount: 40,
        token_info_id: 3,
    };
    let second = HoldToken { amount: 41, ..first.clone() };
    let op = ResolvedOp::Transfer {
        sender_balance: Some(("1field".to_string(), first)),
        receiver_balance: Some(("1field".to_string(), second.clone())),
    };
    apply_record(&mut store, op);
    assert_eq!(store.balances.rows.len(), 1);
    assert_eq!(store.balances.rows[0].1, second);
}

#[test]
fn update_dao_inserts_if_absent_and_keeps_first_row() {
    let mut store = Store::new();
    apply_record(&mut store, ResolvedOp::UpdateDao { dao: Some(sample_dao(7)) });
    assert_eq!(store.daos.rows.len(), 1);
    let mut changed = sample_dao(7);
    changed.vote_count = 9;
    apply_record(&mut store, ResolvedOp::UpdateDao { dao: Some(changed) });
    assert_eq!(store.daos.rows.len(), 1);
    assert_eq!(store.daos.rows[0].1, sample_dao(7));
}
