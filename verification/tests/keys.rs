//! Key derivation against the reference virtual machine: the derived slot
//! key must be bit-for-bit the one the machine's own hash and field
//! arithmetic produce.

use pledge_indexer::errors::KeyError;
use pledge_indexer::keys::derive_dual_slot_key;
use pledge_indexer::keys::derive_slot_key;
use pledge_indexer::keys::derive_slot_key_from_hash;
use snarkvm_console::network::Network;
use snarkvm_console::network::Testnet3;
use snarkvm_console::prelude::ToBits;
use snarkvm_console::types::Field;
use std::str::FromStr;

fn reference_hash(s: &str) -> Field<Testnet3> {
    Testnet3::hash_bhp256(&s.to_string().to_bits_le()).unwrap()
}

fn reference_dual_key(owner: &str, id: &str) -> String {
    (reference_hash(owner) + reference_hash(id)).to_string()
}

#[test]
fn dual_key_matches_reference_vm() {
    let pairs = [
        ("aleo1rhgdu77hgyqd3xjj8ucu3jj9r2krwz6mnzyd80gncr5fxcwlh5rsvzp9px", "1"),
        ("aleo1s3ws5tra87fjycnjrwsjcrnw2qxr8jfqqdugnf0xzqqw29q9m5pqem2u4t", "2"),
        ("aleo1ashyu96tjwe63u0gtnnv8z5lhapdu4l5pjsl2kha7fv7hvz2eqxs5dz0rg", "77"),
    ];
    for (owner, id) in pairs {
        let ours = derive_dual_slot_key(&owner.to_string(), &id.to_string());
        assert_eq!(ours, reference_dual_key(owner, id));
    }
}

#[test]
fn dual_key_pinned_vectors() {
    let k1 = derive_dual_slot_key(
        &"aleo1rhgdu77hgyqd3xjj8ucu3jj9r2krwz6mnzyd80gncr5fxcwlh5rsvzp9px".to_string(),
        &"1".to_string(),
    );
    let k2 = derive_dual_slot_key(
        &"aleo1s3ws5tra87fjycnjrwsjcrnw2qxr8jfqqdugnf0xzqqw29q9m5pqem2u4t".to_string(),
        &"2".to_string(),
    );
    let k3 = derive_dual_slot_key(
        &"aleo1ashyu96tjwe63u0gtnnv8z5lhapdu4l5pjsl2kha7fv7hvz2eqxs5dz0rg".to_string(),
        &"77".to_string(),
    );
    assert_eq!(
        k1,
        "6508407049259650234513988910404372050245606937808595710858444245387544933564field"
    );
    assert_eq!(
        k2,
        "2590133800501497219945557279628789883965310614749454279901588959661445390573field"
    );
    assert_eq!(
        k3,
        "4846961178242682014403312580537389679048258104855848769254235039422056264958field"
    );
}

#[test]
fn single_identity_key_is_the_hash() {
    let owner = "aleo1rhgdu77hgyqd3xjj8ucu3jj9r2krwz6mnzyd80gncr5fxcwlh5rsvzp9px";
    let ids = vec![owner.to_string()];
    let key = derive_slot_key(&ids).unwrap();
    assert_eq!(key, reference_hash(owner).to_string());
}

#[test]
fn two_identity_key_is_the_field_sum() {
    let ids = vec!["aleo1abcowner".to_string(), "3".to_string()];
    let key = derive_slot_key(&ids).unwrap();
    assert_eq!(key, reference_dual_key("aleo1abcowner", "3"));
}

#[test]
fn bad_identity_lists_are_rejected() {
    assert!(matches!(
        derive_slot_key(&Vec::new()),
        Err(KeyError::BadIdentity)
    ));
    assert!(matches!(
        derive_slot_key(&vec!["a".to_string(), "b".to_string(), "c".to_string()]),
        Err(KeyError::BadIdentity)
    ));
    assert!(matches!(
        derive_slot_key(&vec!["".to_string()]),
        Err(KeyError::BadIdentity)
    ));
    assert!(matches!(
        derive_slot_key(&vec!["a".to_string(), "".to_string()]),
        Err(KeyError::BadIdentity)
    ));
}

#[test]
fn prehashed_owner_key_matches_reference() {
    let owner_hash = reference_hash("aleo1someowner").to_string();
    let id = "5";
    let key = derive_slot_key_from_hash(&owner_hash, &id.to_string()).unwrap();
    let expected =
        (Field::<Testnet3>::from_str(&owner_hash).unwrap() + reference_hash(id)).to_string();
    assert_eq!(key, expected);
}

#[test]
fn prehashed_owner_must_be_a_field_literal() {
    let r = derive_slot_key_from_hash(&"not_a_field".to_string(), &"5".to_string());
    assert!(matches!(r, Err(KeyError::BadFieldLiteral)));
}
