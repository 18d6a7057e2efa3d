//! The JSON value decoder, cross-checked against an independent JSON
//! implementation, and the typed readers above it.

use pledge_indexer::fetch::dao_from_fields;
use pledge_indexer::fetch::hold_token_from_fields;
use pledge_indexer::fetch::profile_from_fields;
use pledge_indexer::fetch::proposal_from_fields;
use pledge_indexer::fetch::token_info_from_fields;
use pledge_indexer::fetch::vote_from_fields;
use pledge_indexer::json::parse_bare_u64_exec;
use pledge_indexer::json::parse_object_exec;
use pledge_indexer::json::JsonScalar;

const TOKEN_INFO_TEXT: &str = "{\"id\":3,\"name\":\"Pledge\",\"symbol\":\"PLG\",\"supply\":1000,\"decimals\":6,\"max_mint_amount\":100,\"minted_amount\":10,\"dao_id\":7,\"only_creator_can_mint\":false}";

#[test]
fn token_info_decodes_and_agrees_with_independent_parser() {
    let fields = parse_object_exec(TOKEN_INFO_TEXT.as_bytes()).unwrap();
    let t = token_info_from_fields(&fields).unwrap();
    assert_eq!(t.id, 3);
    assert_eq!(t.name, "Pledge");
    assert_eq!(t.symbol, "PLG");
    assert_eq!(t.supply, 1000);
    assert_eq!(t.decimals, 6);
    assert_eq!(t.max_mint_amount, 100);
    assert_eq!(t.minted_amount, 10);
    assert_eq!(t.dao_id, 7);
    assert_eq!(t.only_creator_can_mint, false);

    let reference: serde_json::Value = serde_json::from_str(TOKEN_INFO_TEXT).unwrap();
    assert_eq!(reference.get("id").unwrap().as_u64(), Some(t.id));
    assert_eq!(reference.get("name").unwrap().as_str(), Some(t.name.as_str()));
    assert_eq!(
        reference.get("only_creator_can_mint").unwrap().as_bool(),
        Some(t.only_creator_can_mint)
    );
}

#[test]
fn whitespace_between_tokens_is_accepted() {
    let text = "  {\n  \"token_owner\" : \"aleo1owner\" ,\n  \"amount\" : 40 ,\n  \"token_info_id\" : 3\n}  ";
    let fields = parse_object_exec(text.as_bytes()).unwrap();
    let h = hold_token_from_fields(&fields).unwrap();
    assert_eq!(h.token_owner, "aleo1owner");
    assert_eq!(h.amount, 40);
    assert_eq!(h.token_info_id, 3);
}

#[test]
fn missing_or_miskinded_fields_are_shape_mismatches() {
    let missing = "{\"token_owner\":\"aleo1owner\",\"amount\":40}";
    let fields = parse_object_exec(missing.as_bytes()).unwrap();
    assert!(hold_token_from_fields(&fields).is_none());
    let wrong_kind = "{\"token_owner\":\"aleo1owner\",\"amount\":\"40\",\"token_info_id\":3}";
    let fields = parse_object_exec(wrong_kind.as_bytes()).unwrap();
    assert!(hold_token_from_fields(&fields).is_none());
}

#[test]
fn profile_dao_proposal_vote_decode() {
    let profile = "{\"name\":\"n\",\"avatar\":\"a\",\"bio\":\"b\"}";
    let p = profile_from_fields(&parse_object_exec(profile.as_bytes()).unwrap()).unwrap();
    assert_eq!((p.name.as_str(), p.avatar.as_str(), p.bio.as_str()), ("n", "a", "b"));

    let dao = "{\"id\":7,\"name\":\"d\",\"dao_type\":1,\"creator\":\"aleo1c\",\"token_info_id\":3,\"icon\":\"i\",\"description\":\"de\",\"official_link\":\"l\",\"proposal_count\":2,\"pass_proposal_count\":1,\"vote_count\":5,\"passed_votes_proportion\":50,\"passed_tokens_proportion\":60}";
    let d = dao_from_fields(&parse_object_exec(dao.as_bytes()).unwrap()).unwrap();
    assert_eq!(d.id, 7);
    assert_eq!(d.dao_type, 1);
    assert_eq!(d.vote_count, 5);

    let proposal = "{\"id\":9,\"title\":\"t\",\"proposer\":\"aleo1p\",\"summary\":\"s\",\"body\":\"b\",\"dao_id\":7,\"created\":123,\"duration\":456,\"proposal_type\":0,\"adopt\":10,\"reject\":2,\"status\":1}";
    let pr = proposal_from_fields(&parse_object_exec(proposal.as_bytes()).unwrap()).unwrap();
    assert_eq!(pr.id, 9);
    assert_eq!(pr.adopt, 10);
    assert_eq!(pr.status, 1);

    let vote = "{\"voter\":\"aleo1v\",\"proposal_id\":9,\"is_agreed\":true,\"timestamp\":777,\"amount\":4}";
    let v = vote_from_fields(&parse_object_exec(vote.as_bytes()).unwrap()).unwrap();
    assert_eq!(v.voter, "aleo1v");
    assert!(v.is_agreed);
}

#[test]
fn bare_numbers_decode_with_surrounding_whitespace_only() {
    assert_eq!(parse_bare_u64_exec(b"42"), Some(42));
    assert_eq!(parse_bare_u64_exec(b"  42 \n"), Some(42));
    assert_eq!(parse_bare_u64_exec(b"18446744073709551615"), Some(u64::MAX));
    assert_eq!(parse_bare_u64_exec(b"18446744073709551616"), None);
    assert_eq!(parse_bare_u64_exec(b"42x"), None);
    assert_eq!(parse_bare_u64_exec(b""), None);
    assert_eq!(parse_bare_u64_exec(b"\"42\""), None);
}

#[test]
fn first_member_wins_for_repeated_names() {
    let text = "{\"amount\":1,\"amount\":2}";
    let fields = parse_object_exec(text.as_bytes()).unwrap();
    assert_eq!(fields.len(), 2);
    match &fields[0] {
        (name, JsonScalar::Num(v)) => {
            assert_eq!(name, "amount");
            assert_eq!(*v, 1);
        }
        other => panic!("unexpected member: {:?}", other),
    }
}

#[test]
fn escapes_and_nesting_are_shape_mismatches() {
    assert!(parse_object_exec(b"{\"a\":\"x\\ny\"}").is_none());
    assert!(parse_object_exec(b"{\"a\":{\"b\":1}}").is_none());
    assert!(parse_object_exec(b"{\"a\":[1,2]}").is_none());
    assert!(parse_object_exec(b"{\"a\":1,}").is_none());
    assert!(parse_object_exec(b"{\"a\":1} trailing").is_none());
    assert!(parse_object_exec(b"{}").map(|v| v.len()) == Some(0));
}
