//! Mapping-slot key derivation.  The tracked virtual machine addresses a
//! dual-identity slot by `hash(identity_1) + hash(identity_2)` in its
//! scalar field, rendered in the field's canonical decimal form; this
//! module reproduces that derivation through the machine's own hash and
//! field arithmetic, so the rendered key is bit-for-bit the one the
//! machine uses.

use crate::errors::KeyError;
use core::str::FromStr;
use snarkvm_console::network::Network;
use snarkvm_console::network::Testnet3;
use snarkvm_console::prelude::ToBits;
use snarkvm_console::types::Field;
use vstd::prelude::*;

verus! {

/// The canonical decimal rendering of the BHP-256 hash of a string's
/// little-endian byte bits, on the tracked network.
pub uninterp spec fn bhp256_str(s: Seq<char>) -> Seq<char>;

/// The canonical decimal rendering of the field sum of two canonically
/// rendered field elements.
pub uninterp spec fn field_sum_str(a: Seq<char>, b: Seq<char>) -> Seq<char>;

/// The slot key of a dual-identity mapping entry: field sum of the two
/// identity hashes, rendered canonically.
pub open spec fn dual_slot_key(a: Seq<char>, b: Seq<char>) -> Seq<char> {
    field_sum_str(bhp256_str(a), bhp256_str(b))
}

/// The slot key where the first identity arrives already hashed, as a
/// canonical field string.
pub open spec fn dual_slot_key_from_hash(h: Seq<char>, id: Seq<char>) -> Seq<char> {
    field_sum_str(h, bhp256_str(id))
}

/// Whether a string is a field literal: `Field::from_str` accepts it.
/// Acceptance depends on the characters alone (a sign, digits with
/// underscores, the field suffix, nothing else, value in range).
pub uninterp spec fn parses_as_field(s: Seq<char>) -> bool;

/// Relies on `Network::hash_bhp256` for `Testnet3` and on `Field`'s
/// canonical rendering: the BHP-256 hash of the string's little-endian
/// bits, printed as decimal digits with the field suffix.  The hash's
/// source has no failure path, the result depends on the characters
/// alone, and a canonical rendering always parses back as a field
/// literal.
#[verifier::external_body]
fn bhp256_hash_string(s: &String) -> (r: String)
    ensures
        r@ == bhp256_str(s@),
        parses_as_field(r@),
{
    let field = <Testnet3 as Network>::hash_bhp256(&s.to_bits_le())
        .expect("BHP-256 accepts every bit string");
    field.to_string()
}

/// Relies on `Field::from_str`, field addition, and `Field`'s canonical
/// rendering: parse both operands, add them in the field, print the sum.
/// The sum comes back exactly when both operands are field literals;
/// acceptance by `Field::from_str` is a function of the string alone.
#[verifier::external_body]
fn field_add_strings(a: &String, b: &String) -> (r: Option<String>)
    ensures
        r matches Some(s) ==> s@ == field_sum_str(a@, b@),
        r is Some ==> parses_as_field(a@) && parses_as_field(b@),
        r is None ==> !(parses_as_field(a@) && parses_as_field(b@)),
{
    let fa = match Field::<Testnet3>::from_str(a.as_str()) {
        Ok(f) => f,
        Err(_) => return None,
    };
    let fb = match Field::<Testnet3>::from_str(b.as_str()) {
        Ok(f) => f,
        Err(_) => return None,
    };
    Some((fa + fb).to_string())
}

/// The key of a dual-identity slot, from two plain identity strings.
pub fn derive_dual_slot_key(owner: &String, id: &String) -> (r: String)
    ensures
        r@ == dual_slot_key(owner@, id@),
{
    let ha = bhp256_hash_string(owner);
    let hb = bhp256_hash_string(id);
    match field_add_strings(&ha, &hb) {
        Some(s) => s,
        None => vstd::pervasive::unreached(),
    }
}

/// The key of a dual-identity slot where the first identity is already a
/// hashed field string (as some finalize arguments deliver it).  Fails
/// exactly where that string is not a field literal.
pub fn derive_slot_key_from_hash(owner_hash: &String, id: &String) -> (r: Result<
    String,
    KeyError,
>)
    ensures
        r is Ok <==> parses_as_field(owner_hash@),
        r matches Ok(s) ==> s@ == dual_slot_key_from_hash(owner_hash@, id@),
        r matches Err(e) ==> e == KeyError::BadFieldLiteral,
{
    let hb = bhp256_hash_string(id);
    match field_add_strings(owner_hash, &hb) {
        Some(s) => Ok(s),
        None => Err(KeyError::BadFieldLiteral),
    }
}

/// The canonical slot key for a list of identity strings: the hash of a
/// single identity, or the field sum of the hashes of a pair.  Rejects an
/// empty list, more than two identities, and empty identity strings —
/// and nothing else.
pub fn derive_slot_key(identities: &Vec<String>) -> (r: Result<String, KeyError>)
    ensures
        r matches Err(e) ==> e == KeyError::BadIdentity,
        r is Err <==> !(identities@.len() == 1 || identities@.len() == 2) || (exists|i: int|
            0 <= i < identities@.len() && #[trigger] identities@[i]@.len() == 0),
        identities@.len() == 1 ==> (r matches Ok(s) ==> s@ == bhp256_str(identities@[0]@)),
        identities@.len() == 2 ==> (r matches Ok(s) ==> s@ == dual_slot_key(
            identities@[0]@,
            identities@[1]@,
        )),
{
    if identities.len() == 1 {
        if identities[0].as_str().is_empty() {
            return Err(KeyError::BadIdentity);
        }
        Ok(bhp256_hash_string(&identities[0]))
    } else if identities.len() == 2 {
        if identities[0].as_str().is_empty() || identities[1].as_str().is_empty() {
            return Err(KeyError::BadIdentity);
        }
        Ok(derive_dual_slot_key(&identities[0], &identities[1]))
    } else {
        Err(KeyError::BadIdentity)
    }
}

} // verus!
