//! The record dispatcher and state projector.  A record's function name
//! selects a closed operation variant; the operation maps finalize
//! arguments to mapping-slot keys; fetched slot values become
//! key-addressed writes.  Replaying a record with the same fetched values
//! leaves the store exactly as one pass left it.

use crate::entities::Dao;
use crate::entities::HoldToken;
use crate::entities::Profile;
use crate::entities::Proposal;
use crate::entities::TokenInfo;
use crate::entities::Vote;
use crate::errors::FetchError;
use crate::errors::ProjectionError;
use crate::fetch::fetch_dao;
use crate::fetch::fetch_hold_token;
use crate::fetch::fetch_profile;
use crate::fetch::fetch_proposal;
use crate::fetch::fetch_token_info;
use crate::fetch::fetch_u64;
use crate::fetch::fetch_vote;
use crate::gateway::spec_create_dao;
use crate::gateway::AUTO_INCREMENT_TIMESTAMP;
use crate::gateway::spec_create_extend_pledge_period;
use crate::gateway::spec_create_proposal;
use crate::gateway::spec_insert_token_info;
use crate::gateway::spec_insert_votes;
use crate::gateway::spec_update_dao;
use crate::gateway::spec_update_proposal;
use crate::gateway::spec_update_stake_amounts;
use crate::gateway::spec_update_token_info;
use crate::gateway::spec_upsert_auto_increment;
use crate::gateway::spec_upsert_balances;
use crate::gateway::spec_upsert_profile;
use crate::gateway::spec_upsert_stake_amounts;
use crate::gateway::Store;
use crate::gateway::StoreState;
use crate::gateway::AUTO_INCREMENT_DAOS;
use crate::gateway::AUTO_INCREMENT_PROPOSALS;
use crate::gateway::AUTO_INCREMENT_TOKEN_INFOS;
use crate::gateway::AUTO_INCREMENT_VOTES;
use crate::keys::derive_dual_slot_key;
use crate::keys::derive_slot_key_from_hash;
use crate::keys::dual_slot_key;
use crate::keys::dual_slot_key_from_hash;
use crate::keys::parses_as_field;
use crate::numtext::all_dec_digits;
use crate::numtext::dec_value;
use crate::numtext::parse_u64;
use crate::numtext::u64_to_string;
use crate::records::Record;
use crate::records::Records;
use vstd::prelude::*;
use vstd::string::StringExecFns;

verus! {

/// The one on-chain program this pipeline tracks.
pub open spec fn tracked_program() -> Seq<char> {
    "pledge_vote.aleo"@
}

/// The tracked program id as a string, for URL building and comparisons.
pub fn tracked_program_id() -> (s: String)
    ensures
        s@ == tracked_program(),
{
    String::from_str("pledge_vote.aleo")
}

/// What a record's function name and finalize arguments mean, at the
/// specification level: each variant carries exactly the argument views
/// the operation reads.
pub enum OpShape {
    Mint { owner: Seq<char>, token_info_id: Seq<char> },
    Stake { owner_hash: Seq<char>, token_info_id: Seq<char> },
    Unstake { owner_hash: Seq<char>, token_info_id: Seq<char> },
    Transfer { sender: Seq<char>, receiver: Seq<char>, token_info_id: Seq<char> },
    Join,
    Split,
    Fee { owner: Seq<char>, token_info_id: Seq<char> },
    UpdateProfile { address: Seq<char> },
    UpdateTime,
    CreateDao,
    UpdateDao { dao_key: Seq<char> },
    CreateProposal,
    StartProposal { proposal_key: Seq<char> },
    CloseProposal { proposal_key: Seq<char>, extend_key: u64 },
    CastVote { proposal_key: Seq<char> },
    Init,
    Unknown,
    Malformed,
}

/// A record's operation, with the typed arguments it needs.  `Unknown`
/// records an unrecognized function name; it is projected as a no-op, not
/// silently conflated with a malformed record.
#[derive(Clone, Debug, PartialEq, Eq)]
pub enum RecordOp {
    Mint { owner: String, token_info_id: String },
    Stake { owner_hash: String, token_info_id: String },
    Unstake { owner_hash: String, token_info_id: String },
    Transfer { sender: String, receiver: String, token_info_id: String },
    Join,
    Split,
    Fee { owner: String, token_info_id: String },
    UpdateProfile { address: String },
    UpdateTime,
    CreateDao,
    UpdateDao { dao_key: String },
    CreateProposal,
    StartProposal { proposal_key: String },
    CloseProposal { proposal_key: String, extend_key: u64 },
    CastVote { proposal_key: String },
    Init,
    Unknown,
}

impl View for RecordOp {
    type V = OpShape;

    open spec fn view(&self) -> OpShape {
        match self {
            RecordOp::Mint { owner, token_info_id } => OpShape::Mint {
                owner: owner@,
                token_info_id: token_info_id@,
            },
            RecordOp::Stake { owner_hash, token_info_id } => OpShape::Stake {
                owner_hash: owner_hash@,
                token_info_id: token_info_id@,
            },
            RecordOp::Unstake { owner_hash, token_info_id } => OpShape::Unstake {
                owner_hash: owner_hash@,
                token_info_id: token_info_id@,
            },
            RecordOp::Transfer { sender, receiver, token_info_id } => OpShape::Transfer {
                sender: sender@,
                receiver: receiver@,
                token_info_id: token_info_id@,
            },
            RecordOp::Join => OpShape::Join,
            RecordOp::Split => OpShape::Split,
            RecordOp::Fee { owner, token_info_id } => OpShape::Fee {
                owner: owner@,
                token_info_id: token_info_id@,
            },
            RecordOp::UpdateProfile { address } => OpShape::UpdateProfile { address: address@ },
            RecordOp::UpdateTime => OpShape::UpdateTime,
            RecordOp::CreateDao => OpShape::CreateDao,
            RecordOp::UpdateDao { dao_key } => OpShape::UpdateDao { dao_key: dao_key@ },
            RecordOp::CreateProposal => OpShape::CreateProposal,
            RecordOp::StartProposal { proposal_key } => OpShape::StartProposal {
                proposal_key: proposal_key@,
            },
            RecordOp::CloseProposal { proposal_key, extend_key } => OpShape::CloseProposal {
                proposal_key: proposal_key@,
                extend_key: *extend_key,
            },
            RecordOp::CastVote { proposal_key } => OpShape::CastVote {
                proposal_key: proposal_key@,
            },
            RecordOp::Init => OpShape::Init,
            RecordOp::Unknown => OpShape::Unknown,
        }
    }
}

/// The operation a record denotes.  `Malformed` stands for a recognized
/// function name whose finalize arguments are missing or do not parse.
pub open spec fn spec_classify(r: Record) -> OpShape {
    let f = r.finalize@;
    if r.function@ == "mint"@ {
        if f.len() >= 3 {
            OpShape::Mint { owner: f[0]@, token_info_id: f[2]@ }
        } else {
            OpShape::Malformed
        }
    } else if r.function@ == "stake"@ {
        if f.len() >= 3 {
            OpShape::Stake { owner_hash: f[0]@, token_info_id: f[2]@ }
        } else {
            OpShape::Malformed
        }
    } else if r.function@ == "unstake"@ {
        if f.len() >= 4 {
            OpShape::Unstake { owner_hash: f[1]@, token_info_id: f[3]@ }
        } else {
            OpShape::Malformed
        }
    } else if r.function@ == "transfer"@ {
        if f.len() >= 4 {
            OpShape::Transfer { sender: f[0]@, receiver: f[1]@, token_info_id: f[3]@ }
        } else {
            OpShape::Malformed
        }
    } else if r.function@ == "join"@ {
        OpShape::Join
    } else if r.function@ == "split"@ {
        OpShape::Split
    } else if r.function@ == "fee"@ {
        if f.len() >= 3 {
            OpShape::Fee { owner: f[0]@, token_info_id: f[2]@ }
        } else {
            OpShape::Malformed
        }
    } else if r.function@ == "update_profile"@ {
        if f.len() >= 1 {
            OpShape::UpdateProfile { address: f[0]@ }
        } else {
            OpShape::Malformed
        }
    } else if r.function@ == "update_time"@ {
        OpShape::UpdateTime
    } else if r.function@ == "create_dao"@ {
        OpShape::CreateDao
    } else if r.function@ == "update_dao"@ {
        if f.len() >= 2 {
            OpShape::UpdateDao { dao_key: f[1]@ }
        } else {
            OpShape::Malformed
        }
    } else if r.function@ == "create_proposal"@ {
        OpShape::CreateProposal
    } else if r.function@ == "start_proposal"@ {
        if f.len() >= 2 {
            OpShape::StartProposal { proposal_key: f[1]@ }
        } else {
            OpShape::Malformed
        }
    } else if r.function@ == "close_proposal"@ {
        if f.len() >= 2 && f[1]@.len() > 0 && all_dec_digits(f[1]@) && dec_value(f[1]@)
            <= u64::MAX {
            OpShape::CloseProposal {
                proposal_key: f[1]@,
                extend_key: dec_value(f[1]@) as u64,
            }
        } else {
            OpShape::Malformed
        }
    } else if r.function@ == "vote"@ {
        if f.len() >= 1 {
            OpShape::CastVote { proposal_key: f[0]@ }
        } else {
            OpShape::Malformed
        }
    } else if r.function@ == "init"@ {
        OpShape::Init
    } else {
        OpShape::Unknown
    }
}

fn function_is(r: &Record, name: &str) -> (b: bool)
    ensures
        b == (r.function@ == name@),
{
    r.function == String::from_str(name)
}

/// Turn a record's function name and finalize arguments into the closed
/// operation enum; a recognized name with missing or unparseable arguments
/// is a malformed record, an unrecognized name is `Unknown`.
pub fn classify(r: &Record) -> (res: Result<RecordOp, ProjectionError>)
    ensures
        match res {
            Ok(op) => op@ == spec_classify(*r) && !(spec_classify(*r) is Malformed),
            Err(e) => spec_classify(*r) is Malformed && e == ProjectionError::MalformedRecord,
        },
{
    if function_is(r, "mint") {
        if r.finalize.len() >= 3 {
            Ok(RecordOp::Mint { owner: r.finalize[0].clone(), token_info_id: r.finalize[2].clone() })
        } else {
            Err(ProjectionError::MalformedRecord)
        }
    } else if function_is(r, "stake") {
        if r.finalize.len() >= 3 {
            Ok(
                RecordOp::Stake {
                    owner_hash: r.finalize[0].clone(),
                    token_info_id: r.finalize[2].clone(),
                },
            )
        } else {
            Err(ProjectionError::MalformedRecord)
        }
    } else if function_is(r, "unstake") {
        if r.finalize.len() >= 4 {
            Ok(
                RecordOp::Unstake {
                    owner_hash: r.finalize[1].clone(),
                    token_info_id: r.finalize[3].clone(),
                },
            )
        } else {
            Err(ProjectionError::MalformedRecord)
        }
    } else if function_is(r, "transfer") {
        if r.finalize.len() >= 4 {
            Ok(
                RecordOp::Transfer {
                    sender: r.finalize[0].clone(),
                    receiver: r.finalize[1].clone(),
                    token_info_id: r.finalize[3].clone(),
                },
            )
        } else {
            Err(ProjectionError::MalformedRecord)
        }
    } else if function_is(r, "join") {
        Ok(RecordOp::Join)
    } else if function_is(r, "split") {
        Ok(RecordOp::Split)
    } else if function_is(r, "fee") {
        if r.finalize.len() >= 3 {
            Ok(RecordOp::Fee { owner: r.finalize[0].clone(), token_info_id: r.finalize[2].clone() })
        } else {
            Err(ProjectionError::MalformedRecord)
        }
    } else if function_is(r, "update_profile") {
        if r.finalize.len() >= 1 {
            Ok(RecordOp::UpdateProfile { address: r.finalize[0].clone() })
        } else {
            Err(ProjectionError::MalformedRecord)
        }
    } else if function_is(r, "update_time") {
        Ok(RecordOp::UpdateTime)
    } else if function_is(r, "create_dao") {
        Ok(RecordOp::CreateDao)
    } else if function_is(r, "update_dao") {
        if r.finalize.len() >= 2 {
            Ok(RecordOp::UpdateDao { dao_key: r.finalize[1].clone() })
        } else {
            Err(ProjectionError::MalformedRecord)
        }
    } else if function_is(r, "create_proposal") {
        Ok(RecordOp::CreateProposal)
    } else if function_is(r, "start_proposal") {
        if r.finalize.len() >= 2 {
            Ok(RecordOp::StartProposal { proposal_key: r.finalize[1].clone() })
        } else {
            Err(ProjectionError::MalformedRecord)
        }
    } else if function_is(r, "close_proposal") {
        if r.finalize.len() >= 2 {
            match parse_u64(r.finalize[1].as_str()) {
                Some(k) => Ok(
                    RecordOp::CloseProposal { proposal_key: r.finalize[1].clone(), extend_key: k },
                ),
                None => Err(ProjectionError::MalformedRecord),
            }
        } else {
            Err(ProjectionError::MalformedRecord)
        }
    } else if function_is(r, "vote") {
        if r.finalize.len() >= 1 {
            Ok(RecordOp::CastVote { proposal_key: r.finalize[0].clone() })
        } else {
            Err(ProjectionError::MalformedRecord)
        }
    } else if function_is(r, "init") {
        Ok(RecordOp::Init)
    } else {
        Ok(RecordOp::Unknown)
    }
}

/// One record's operation together with what its mapping fetches returned.
/// A `None` field is a sub-step whose fetch failed or was never reached;
/// its write is skipped, earlier writes stand (sub-steps are independent
/// idempotent units, not a transaction).
#[derive(Clone, Debug, PartialEq, Eq)]
pub enum ResolvedOp {
    /// Nothing to apply: an out-of-program or unknown record, or one whose
    /// first fetch failed.
    Skip,
    Mint { token_info: Option<TokenInfo>, balance: Option<(String, HoldToken)> },
    Stake { stake: Option<(String, HoldToken)> },
    Unstake { stake: Option<(String, HoldToken)> },
    Transfer {
        sender_balance: Option<(String, HoldToken)>,
        receiver_balance: Option<(String, HoldToken)>,
    },
    Fee { token_info: Option<TokenInfo>, balance: Option<(String, HoldToken)> },
    UpdateProfile { profile: Option<(String, Profile)> },
    UpdateTime { timestamp: Option<u64> },
    CreateDao { token_info: Option<TokenInfo>, dao: Option<Dao> },
    /// Applied as a first-seen insert: a dao row, once present, is kept
    /// as it stands.
    UpdateDao { dao: Option<Dao> },
    CreateProposal { proposal: Option<Proposal> },
    StartProposal { proposal: Option<Proposal> },
    CloseProposal { proposal: Option<Proposal>, dao: Option<Dao>, extend: Option<(u64, u64)> },
    CastVote { proposal: Option<Proposal>, dao: Option<Dao>, vote: Option<(u64, Vote)> },
    Init { dao: Option<Dao>, token_info: Option<TokenInfo> },
}

/// The store state after applying one resolved operation: each present
/// sub-value becomes its key-addressed write, in the operation's order.
pub open spec fn spec_apply(s: StoreState, op: ResolvedOp) -> StoreState {
    match op {
        ResolvedOp::Skip => s,
        ResolvedOp::Mint { token_info, balance } => {
            let s1 = match token_info {
                Some(t) => spec_update_token_info(s, t),
                None => s,
            };
            match balance {
                Some((k, h)) => spec_upsert_balances(s1, k@, h),
                None => s1,
            }
        },
        ResolvedOp::Stake { stake } => {
            match stake {
                Some((k, h)) => spec_upsert_stake_amounts(s, k@, h),
                None => s,
            }
        },
        ResolvedOp::Unstake { stake } => {
            match stake {
                Some((k, h)) => spec_update_stake_amounts(s, k@, h),
                None => s,
            }
        },
        ResolvedOp::Transfer { sender_balance, receiver_balance } => {
            let s1 = match sender_balance {
                Some((k, h)) => spec_upsert_balances(s, k@, h),
                None => s,
            };
            match receiver_balance {
                Some((k, h)) => spec_upsert_balances(s1, k@, h),
                None => s1,
            }
        },
        ResolvedOp::Fee { token_info, balance } => {
            let s1 = match token_info {
                Some(t) => spec_update_token_info(s, t),
                None => s,
            };
            match balance {
                Some((k, h)) => spec_upsert_balances(s1, k@, h),
                None => s1,
            }
        },
        ResolvedOp::UpdateProfile { profile } => {
            match profile {
                Some((k, p)) => spec_upsert_profile(s, k@, p),
                None => s,
            }
        },
        ResolvedOp::UpdateTime { timestamp } => {
            match timestamp {
                Some(ts) => spec_upsert_auto_increment(s, AUTO_INCREMENT_TIMESTAMP, ts),
                None => s,
            }
        },
        ResolvedOp::CreateDao { token_info, dao } => {
            let s1 = match token_info {
                Some(t) => spec_insert_token_info(s, t),
                None => s,
            };
            match dao {
                Some(d) => spec_create_dao(s1, d),
                None => s1,
            }
        },
        ResolvedOp::UpdateDao { dao } => {
            match dao {
                Some(d) => spec_create_dao(s, d),
                None => s,
            }
        },
        ResolvedOp::CreateProposal { proposal } => {
            match proposal {
                Some(p) => spec_create_proposal(s, p),
                None => s,
            }
        },
        ResolvedOp::StartProposal { proposal } => {
            match proposal {
                Some(p) => spec_update_proposal(s, p),
                None => s,
            }
        },
        ResolvedOp::CloseProposal { proposal, dao, extend } => {
            let s1 = match proposal {
                Some(p) => spec_update_proposal(s, p),
                None => s,
            };
            let s2 = match dao {
                Some(d) => spec_update_dao(s1, d),
                None => s1,
            };
            match extend {
                Some((k, v)) => spec_create_extend_pledge_period(s2, k, v),
                None => s2,
            }
        },
        ResolvedOp::CastVote { proposal, dao, vote } => {
            let s1 = match proposal {
                Some(p) => spec_update_proposal(s, p),
                None => s,
            };
            let s2 = match dao {
                Some(d) => spec_update_dao(s1, d),
                None => s1,
            };
            match vote {
                Some((k, v)) => spec_insert_votes(s2, k, v),
                None => s2,
            }
        },
        ResolvedOp::Init { dao, token_info } => {
            let s1 = match dao {
                Some(d) => spec_create_dao(s, d),
                None => s,
            };
            match token_info {
                Some(t) => spec_insert_token_info(s1, t),
                None => s1,
            }
        },
    }
}

/// Apply one resolved operation to the store, write for write.
pub fn apply_record(store: &mut Store, op: ResolvedOp)
    requires
        old(store).wf(),
    ensures
        final(store).wf(),
        final(store)@ == spec_apply(old(store)@, op),
{
    match op {
        ResolvedOp::Skip => {},
        ResolvedOp::Mint { token_info, balance } => {
            if let Some(t) = token_info {
                store.update_token_info(t);
            }
            if let Some((k, h)) = balance {
                store.upsert_balances(k, h);
            }
        },
        ResolvedOp::Stake { stake } => {
            if let Some((k, h)) = stake {
                store.upsert_stake_amounts(k, h);
            }
        },
        ResolvedOp::Unstake { stake } => {
            if let Some((k, h)) = stake {
                store.update_stake_amounts(&k, h);
            }
        },
        ResolvedOp::Transfer { sender_balance, receiver_balance } => {
            if let Some((k, h)) = sender_balance {
                store.upsert_balances(k, h);
            }
            if let Some((k, h)) = receiver_balance {
                store.upsert_balances(k, h);
            }
        },
        ResolvedOp::Fee { token_info, balance } => {
            if let Some(t) = token_info {
                store.update_token_info(t);
            }
            if let Some((k, h)) = balance {
                store.upsert_balances(k, h);
            }
        },
        ResolvedOp::UpdateProfile { profile } => {
            if let Some((k, p)) = profile {
                store.upsert_profile(k, p);
            }
        },
        ResolvedOp::UpdateTime { timestamp } => {
            if let Some(ts) = timestamp {
                store.upsert_auto_increment(AUTO_INCREMENT_TIMESTAMP, ts);
            }
        },
        ResolvedOp::CreateDao { token_info, dao } => {
            if let Some(t) = token_info {
                store.insert_token_info(t);
            }
            if let Some(d) = dao {
                store.create_dao(d);
            }
        },
        ResolvedOp::UpdateDao { dao } => {
            if let Some(d) = dao {
                store.create_dao(d);
            }
        },
        ResolvedOp::CreateProposal { proposal } => {
            if let Some(p) = proposal {
                store.create_proposal(p);
            }
        },
        ResolvedOp::StartProposal { proposal } => {
            if let Some(p) = proposal {
                store.update_proposal(p);
            }
        },
        ResolvedOp::CloseProposal { proposal, dao, extend } => {
            if let Some(p) = proposal {
                store.update_proposal(p);
            }
            if let Some(d) = dao {
                store.update_dao(d);
            }
            if let Some((k, v)) = extend {
                store.create_extend_pledge_period(k, v);
            }
        },
        ResolvedOp::CastVote { proposal, dao, vote } => {
            if let Some(p) = proposal {
                store.update_proposal(p);
            }
            if let Some(d) = dao {
                store.update_dao(d);
            }
            if let Some((k, v)) = vote {
                store.insert_votes(k, v);
            }
        },
        ResolvedOp::Init { dao, token_info } => {
            if let Some(d) = dao {
                store.create_dao(d);
            }
            if let Some(t) = token_info {
                store.insert_token_info(t);
            }
        },
    }
}

/// Idempotence of projection: applying the same resolved operation a
/// second time leaves the store state exactly where the first application
/// put it.  This is the guarantee that at-least-once delivery of a block
/// never duplicates or diverges rows.
pub proof fn lemma_apply_idempotent(s: StoreState, op: ResolvedOp)
    ensures
        spec_apply(spec_apply(s, op), op) == spec_apply(s, op),
{
    let s1 = spec_apply(s, op);
    let s2 = spec_apply(s1, op);
    assert(s2 =~~= s1);
}

/// A skipped record is a no-op: the store state is untouched.
pub proof fn lemma_apply_skip(s: StoreState)
    ensures
        spec_apply(s, ResolvedOp::Skip) == s,
{
}

/// Whether a resolved operation is one that projecting this record could
/// have produced: the variant agrees with the record's classification, and
/// every derived slot key in it is the record's own derivation.  `Skip`
/// is always possible (a fetch may fail before any write).
pub open spec fn resolved_matches(r: Record, op: ResolvedOp) -> bool {
    op is Skip || match (spec_classify(r), op) {
        (OpShape::Mint { owner, token_info_id }, ResolvedOp::Mint { token_info, balance }) => (
        balance matches Some(p) ==> p.0@ == dual_slot_key(owner, token_info_id)),
        (OpShape::Stake { owner_hash, token_info_id }, ResolvedOp::Stake { stake }) => (
        stake matches Some(p) ==> p.0@ == dual_slot_key_from_hash(owner_hash, token_info_id)),
        (OpShape::Unstake { owner_hash, token_info_id }, ResolvedOp::Unstake { stake }) => (
        stake matches Some(p) ==> p.0@ == dual_slot_key_from_hash(owner_hash, token_info_id)),
        (
            OpShape::Transfer { sender, receiver, token_info_id },
            ResolvedOp::Transfer { sender_balance, receiver_balance },
        ) => (sender_balance matches Some(p) ==> p.0@ == dual_slot_key(sender, token_info_id)) && (
        receiver_balance matches Some(p) ==> p.0@ == dual_slot_key(receiver, token_info_id)),
        (OpShape::Fee { owner, token_info_id }, ResolvedOp::Fee { token_info, balance }) => (
        balance matches Some(p) ==> p.0@ == dual_slot_key(owner, token_info_id)),
        (OpShape::UpdateProfile { address }, ResolvedOp::UpdateProfile { profile }) => (
        profile matches Some(p) ==> p.0@ == address),
        (OpShape::UpdateTime, ResolvedOp::UpdateTime { timestamp }) => true,
        (OpShape::CreateDao, ResolvedOp::CreateDao { token_info, dao }) => true,
        (OpShape::UpdateDao { dao_key }, ResolvedOp::UpdateDao { dao }) => true,
        (OpShape::CreateProposal, ResolvedOp::CreateProposal { proposal }) => true,
        (OpShape::StartProposal { proposal_key }, ResolvedOp::StartProposal { proposal }) => true,
        (
            OpShape::CloseProposal { proposal_key, extend_key },
            ResolvedOp::CloseProposal { proposal, dao, extend },
        ) => (extend matches Some(p) ==> p.0 == extend_key),
        (OpShape::CastVote { proposal_key }, ResolvedOp::CastVote { proposal, dao, vote }) => true,
        (OpShape::Init, ResolvedOp::Init { dao, token_info }) => true,
        _ => false,
    }
}

/// Whether the projector turns this record away as malformed: a tracked
/// record whose finalize arguments are missing or unparseable, or a
/// stake or unstake whose pre-hashed owner argument is not a field
/// literal.
pub open spec fn spec_rejects(r: Record) -> bool {
    r.program@ == tracked_program() && (spec_classify(r) is Malformed || match spec_classify(r) {
        OpShape::Stake { owner_hash, token_info_id } => !parses_as_field(owner_hash),
        OpShape::Unstake { owner_hash, token_info_id } => !parses_as_field(owner_hash),
        _ => false,
    })
}

/// Project one execution record: ignore it where it belongs to another
/// program; otherwise classify it, derive its slot keys, fetch the
/// authoritative slot values, and apply their key-addressed writes.  A
/// fetch failure skips the operation's remaining sub-steps and leaves
/// earlier writes standing; an absent slot is nothing to project.
/// Whatever the fetches returned, the store moves by exactly one resolved
/// operation that the record itself could have produced.  A malformed
/// record is rejected, exactly as `spec_rejects` says, with nothing
/// written; a tracked record whose operation needs no fetch at all is
/// owed success with nothing written.
pub fn project(store: &mut Store, rest_api: &String, record: &Record) -> (r: Result<
    (),
    ProjectionError,
>)
    requires
        old(store).wf(),
    ensures
        final(store).wf(),
        record.program@ != tracked_program() ==> r is Ok && final(store)@ == old(store)@,
        record.program@ == tracked_program() && (spec_classify(*record) is Join || spec_classify(
            *record,
        ) is Split || spec_classify(*record) is Unknown) ==> r is Ok && final(store)@ == old(
            store,
        )@,
        (r matches Err(e) && e == ProjectionError::MalformedRecord) <==> spec_rejects(*record),
        spec_rejects(*record) ==> final(store)@ == old(store)@,
        exists|op: ResolvedOp|
            final(store)@ == spec_apply(old(store)@, op) && #[trigger] resolved_matches(
                *record,
                op,
            ),
{
    let pid = tracked_program_id();
    if !(record.program == pid) {
        proof {
            assert(store@ == spec_apply(old(store)@, ResolvedOp::Skip));
            assert(resolved_matches(*record, ResolvedOp::Skip));
        }
        return Ok(());
    }
    let op = match classify(record) {
        Ok(op) => op,
        Err(e) => {
            proof {
                assert(store@ == spec_apply(old(store)@, ResolvedOp::Skip));
                assert(resolved_matches(*record, ResolvedOp::Skip));
            }
            return Err(e);
        },
    };
    let (rop, failure): (ResolvedOp, Option<FetchError>) = match op {
        RecordOp::Mint { owner, token_info_id } => {
            let balances_key = derive_dual_slot_key(&owner, &token_info_id);
            let mut token_info: Option<TokenInfo> = None;
            let mut balance: Option<(String, HoldToken)> = None;
            let mut failure: Option<FetchError> = None;
            match fetch_token_info(
                rest_api,
                &pid,
                &String::from_str("token_infos"),
                &token_info_id,
            ) {
                Ok(t) => {
                    token_info = Some(t);
                    match fetch_hold_token(
                        rest_api,
                        &pid,
                        &String::from_str("balances"),
                        &balances_key,
                    ) {
                        Ok(h) => {
                            balance = Some((balances_key, h));
                        },
                        Err(e) => {
                            failure = Some(e);
                        },
                    }
                },
                Err(e) => {
                    failure = Some(e);
                },
            }
            (ResolvedOp::Mint { token_info, balance }, failure)
        },
        RecordOp::Stake { owner_hash, token_info_id } => {
            let stake_key = match derive_slot_key_from_hash(&owner_hash, &token_info_id) {
                Ok(k) => k,
                Err(_) => {
                    proof {
                        assert(store@ == spec_apply(old(store)@, ResolvedOp::Skip));
                        assert(resolved_matches(*record, ResolvedOp::Skip));
                    }
                    return Err(ProjectionError::MalformedRecord);
                },
            };
            let mut stake: Option<(String, HoldToken)> = None;
            let mut failure: Option<FetchError> = None;
            match fetch_hold_token(rest_api, &pid, &String::from_str("stake_amounts"), &stake_key) {
                Ok(h) => {
                    stake = Some((stake_key, h));
                },
                Err(e) => {
                    failure = Some(e);
                },
            }
            (ResolvedOp::Stake { stake }, failure)
        },
        RecordOp::Unstake { owner_hash, token_info_id } => {
            let stake_key = match derive_slot_key_from_hash(&owner_hash, &token_info_id) {
                Ok(k) => k,
                Err(_) => {
                    proof {
                        assert(store@ == spec_apply(old(store)@, ResolvedOp::Skip));
                        assert(resolved_matches(*record, ResolvedOp::Skip));
                    }
                    return Err(ProjectionError::MalformedRecord);
                },
            };
            let mut stake: Option<(String, HoldToken)> = None;
            let mut failure: Option<FetchError> = None;
            match fetch_hold_token(rest_api, &pid, &String::from_str("stake_amounts"), &stake_key) {
                Ok(h) => {
                    stake = Some((stake_key, h));
                },
                Err(e) => {
                    failure = Some(e);
                },
            }
            (ResolvedOp::Unstake { stake }, failure)
        },
        RecordOp::Transfer { sender, receiver, token_info_id } => {
            let sender_key = derive_dual_slot_key(&sender, &token_info_id);
            let receiver_key = derive_dual_slot_key(&receiver, &token_info_id);
            let mut sender_balance: Option<(String, HoldToken)> = None;
            let mut receiver_balance: Option<(String, HoldToken)> = None;
            let mut failure: Option<FetchError> = None;
            match fetch_hold_token(rest_api, &pid, &String::from_str("balances"), &sender_key) {
                Ok(h) => {
                    sender_balance = Some((sender_key, h));
                    match fetch_hold_token(
                        rest_api,
                        &pid,
                        &String::from_str("balances"),
                        &receiver_key,
                    ) {
                        Ok(h2) => {
                            receiver_balance = Some((receiver_key, h2));
                        },
                        Err(e) => {
                            failure = Some(e);
                        },
                    }
                },
                Err(e) => {
                    failure = Some(e);
                },
            }
            (ResolvedOp::Transfer { sender_balance, receiver_balance }, failure)
        },
        RecordOp::Fee { owner, token_info_id } => {
            let balances_key = derive_dual_slot_key(&owner, &token_info_id);
            let mut token_info: Option<TokenInfo> = None;
            let mut balance: Option<(String, HoldToken)> = None;
            let mut failure: Option<FetchError> = None;
            match fetch_token_info(
                rest_api,
                &pid,
                &String::from_str("token_infos"),
                &token_info_id,
            ) {
                Ok(t) => {
                    token_info = Some(t);
                    match fetch_hold_token(
                        rest_api,
                        &pid,
                        &String::from_str("balances"),
                        &balances_key,
                    ) {
                        Ok(h) => {
                            balance = Some((balances_key, h));
                        },
                        Err(e) => {
                            failure = Some(e);
                        },
                    }
                },
                Err(e) => {
                    failure = Some(e);
                },
            }
            (ResolvedOp::Fee { token_info, balance }, failure)
        },
        RecordOp::UpdateProfile { address } => {
            let mut profile: Option<(String, Profile)> = None;
            let mut failure: Option<FetchError> = None;
            match fetch_profile(rest_api, &pid, &String::from_str("profiles"), &address) {
                Ok(p) => {
                    profile = Some((address, p));
                },
                Err(e) => {
                    failure = Some(e);
                },
            }
            (ResolvedOp::UpdateProfile { profile }, failure)
        },
        RecordOp::UpdateTime => {
            let mut timestamp: Option<u64> = None;
            let mut failure: Option<FetchError> = None;
            match fetch_u64(
                rest_api,
                &pid,
                &String::from_str("auto_increment"),
                &u64_to_string(AUTO_INCREMENT_TIMESTAMP),
            ) {
                Ok(ts) => {
                    timestamp = Some(ts);
                },
                Err(e) => {
                    failure = Some(e);
                },
            }
            (ResolvedOp::UpdateTime { timestamp }, failure)
        },
        RecordOp::CreateDao => {
            let mut token_info: Option<TokenInfo> = None;
            let mut dao: Option<Dao> = None;
            let mut failure: Option<FetchError> = None;
            match fetch_u64(
                rest_api,
                &pid,
                &String::from_str("auto_increment"),
                &u64_to_string(AUTO_INCREMENT_DAOS),
            ) {
                Ok(daos_key) => {
                    match fetch_u64(
                        rest_api,
                        &pid,
                        &String::from_str("auto_increment"),
                        &u64_to_string(AUTO_INCREMENT_TOKEN_INFOS),
                    ) {
                        Ok(tk_key) => {
                            match fetch_token_info(
                                rest_api,
                                &pid,
                                &String::from_str("token_infos"),
                                &u64_to_string(tk_key),
                            ) {
                                Ok(t) => {
                                    token_info = Some(t);
                                    match fetch_dao(
                                        rest_api,
                                        &pid,
                                        &String::from_str("daos"),
                                        &u64_to_string(daos_key),
                                    ) {
                                        Ok(d) => {
                                            dao = Some(d);
                                        },
                                        Err(e) => {
                                            failure = Some(e);
                                        },
                                    }
                                },
                                Err(e) => {
                                    failure = Some(e);
                                },
                            }
                        },
                        Err(e) => {
                            failure = Some(e);
                        },
                    }
                },
                Err(e) => {
                    failure = Some(e);
                },
            }
            (ResolvedOp::CreateDao { token_info, dao }, failure)
        },
        RecordOp::UpdateDao { dao_key } => {
            let mut dao: Option<Dao> = None;
            let mut failure: Option<FetchError> = None;
            match fetch_dao(rest_api, &pid, &String::from_str("daos"), &dao_key) {
                Ok(d) => {
                    dao = Some(d);
                },
                Err(e) => {
                    failure = Some(e);
                },
            }
            (ResolvedOp::UpdateDao { dao }, failure)
        },
        RecordOp::CreateProposal => {
            let mut proposal: Option<Proposal> = None;
            let mut failure: Option<FetchError> = None;
            match fetch_u64(
                rest_api,
                &pid,
                &String::from_str("auto_increment"),
                &u64_to_string(AUTO_INCREMENT_PROPOSALS),
            ) {
                Ok(pk) => {
                    match fetch_proposal(
                        rest_api,
                        &pid,
                        &String::from_str("proposals"),
                        &u64_to_string(pk),
                    ) {
                        Ok(p) => {
                            proposal = Some(p);
                        },
                        Err(e) => {
                            failure = Some(e);
                        },
                    }
                },
                Err(e) => {
                    failure = Some(e);
                },
            }
            (ResolvedOp::CreateProposal { proposal }, failure)
        },
        RecordOp::StartProposal { proposal_key } => {
            let mut proposal: Option<Proposal> = None;
            let mut failure: Option<FetchError> = None;
            match fetch_proposal(rest_api, &pid, &String::from_str("proposals"), &proposal_key) {
                Ok(p) => {
                    proposal = Some(p);
                },
                Err(e) => {
                    failure = Some(e);
                },
            }
            (ResolvedOp::StartProposal { proposal }, failure)
        },
        RecordOp::CloseProposal { proposal_key, extend_key } => {
            let mut proposal: Option<Proposal> = None;
            let mut dao: Option<Dao> = None;
            let mut extend: Option<(u64, u64)> = None;
            let mut failure: Option<FetchError> = None;
            match fetch_u64(
                rest_api,
                &pid,
                &String::from_str("auto_increment"),
                &u64_to_string(AUTO_INCREMENT_DAOS),
            ) {
                Ok(daos_key) => {
                    match fetch_proposal(
                        rest_api,
                        &pid,
                        &String::from_str("proposals"),
                        &proposal_key,
                    ) {
                        Ok(p) => {
                            proposal = Some(p);
                            match fetch_dao(
                                rest_api,
                                &pid,
                                &String::from_str("daos"),
                                &u64_to_string(daos_key),
                            ) {
                                Ok(d) => {
                                    dao = Some(d);
                                    match fetch_u64(
                                        rest_api,
                                        &pid,
                                        &String::from_str("extend_pledge_period"),
                                        &proposal_key,
                                    ) {
                                        Ok(v) => {
                                            extend = Some((extend_key, v));
                                        },
                                        Err(e) => {
                                            failure = Some(e);
                                        },
                                    }
                                },
                                Err(e) => {
                                    failure = Some(e);
                                },
                            }
                        },
                        Err(e) => {
                            failure = Some(e);
                        },
                    }
                },
                Err(e) => {
                    failure = Some(e);
                },
            }
            (ResolvedOp::CloseProposal { proposal, dao, extend }, failure)
        },
        RecordOp::CastVote { proposal_key } => {
            let mut proposal: Option<Proposal> = None;
            let mut dao: Option<Dao> = None;
            let mut vote: Option<(u64, Vote)> = None;
            let mut failure: Option<FetchError> = None;
            match fetch_u64(
                rest_api,
                &pid,
                &String::from_str("auto_increment"),
                &u64_to_string(AUTO_INCREMENT_DAOS),
            ) {
                Ok(daos_key) => {
                    match fetch_u64(
                        rest_api,
                        &pid,
                        &String::from_str("auto_increment"),
                        &u64_to_string(AUTO_INCREMENT_VOTES),
                    ) {
                        Ok(votes_key) => {
                            match fetch_proposal(
                                rest_api,
                                &pid,
                                &String::from_str("proposals"),
                                &proposal_key,
                            ) {
                                Ok(p) => {
                                    proposal = Some(p);
                                    match fetch_dao(
                                        rest_api,
                                        &pid,
                                        &String::from_str("daos"),
                                        &u64_to_string(daos_key),
                                    ) {
                                        Ok(d) => {
                                            dao = Some(d);
                                            match fetch_vote(
                                                rest_api,
                                                &pid,
                                                &String::from_str("votes"),
                                                &u64_to_string(votes_key),
                                            ) {
                                                Ok(v) => {
                                                    vote = Some((votes_key, v));
                                                },
                                                Err(e) => {
                                                    failure = Some(e);
                                                },
                                            }
                                        },
                                        Err(e) => {
                                            failure = Some(e);
                                        },
                                    }
                                },
                                Err(e) => {
                                    failure = Some(e);
                                },
                            }
                        },
                        Err(e) => {
                            failure = Some(e);
                        },
                    }
                },
                Err(e) => {
                    failure = Some(e);
                },
            }
            (ResolvedOp::CastVote { proposal, dao, vote }, failure)
        },
        RecordOp::Init => {
            let mut dao: Option<Dao> = None;
            let mut token_info: Option<TokenInfo> = None;
            let mut failure: Option<FetchError> = None;
            match fetch_dao(rest_api, &pid, &String::from_str("daos"), &u64_to_string(0)) {
                Ok(d) => {
                    dao = Some(d);
                    match fetch_token_info(
                        rest_api,
                        &pid,
                        &String::from_str("token_infos"),
                        &u64_to_string(0),
                    ) {
                        Ok(t) => {
                            token_info = Some(t);
                        },
                        Err(e) => {
                            failure = Some(e);
                        },
                    }
                },
                Err(e) => {
                    failure = Some(e);
                },
            }
            (ResolvedOp::Init { dao, token_info }, failure)
        },
        RecordOp::Join => (ResolvedOp::Skip, None),
        RecordOp::Split => (ResolvedOp::Skip, None),
        RecordOp::Unknown => (ResolvedOp::Skip, None),
    };
    proof {
        assert(!spec_rejects(*record));
    }
    let ghost grop = rop;
    apply_record(store, rop);
    proof {
        assert(store@ == spec_apply(old(store)@, grop));
        assert(resolved_matches(*record, grop));
    }
    match failure {
        None => Ok(()),
        Some(FetchError::NotFound) => Ok(()),
        Some(e) => Err(ProjectionError::Fetch(e)),
    }
}

/// The store state after a sequence of resolved operations, first to
/// last.
pub open spec fn spec_apply_all(s: StoreState, ops: Seq<ResolvedOp>) -> StoreState
    decreases ops.len(),
{
    if ops.len() == 0 {
        s
    } else {
        spec_apply_all(spec_apply(s, ops[0]), ops.drop_first())
    }
}

/// Applying one more operation after a sequence is applying the extended
/// sequence.
pub proof fn lemma_apply_all_snoc(s: StoreState, ops: Seq<ResolvedOp>, op: ResolvedOp)
    ensures
        spec_apply_all(s, ops.push(op)) == spec_apply(spec_apply_all(s, ops), op),
    decreases ops.len(),
{
    let xs = ops.push(op);
    if ops.len() == 0 {
        assert(xs[0] == op);
        assert(xs.drop_first() =~= Seq::<ResolvedOp>::empty());
        assert(spec_apply_all(s, xs) == spec_apply_all(spec_apply(s, op), xs.drop_first()));
        assert(spec_apply_all(spec_apply(s, op), Seq::<ResolvedOp>::empty()) == spec_apply(s, op));
        assert(spec_apply_all(s, ops) == s);
    } else {
        assert(xs[0] == ops[0]);
        assert(xs.drop_first() =~= ops.drop_first().push(op));
        assert(spec_apply_all(s, xs) == spec_apply_all(spec_apply(s, ops[0]), xs.drop_first()));
        lemma_apply_all_snoc(spec_apply(s, ops[0]), ops.drop_first(), op);
        assert(spec_apply_all(s, ops) == spec_apply_all(spec_apply(s, ops[0]), ops.drop_first()));
    }
}

/// Project every record of one block's payload in order.  The store
/// moves by exactly one resolved operation per record, each one the
/// record's own; records of other programs resolve to no-ops, so a batch
/// of foreign records leaves the store state untouched.
pub fn program_handler(conn: &mut Store, rest_api: &String, records: &Records)
    requires
        old(conn).wf(),
    ensures
        final(conn).wf(),
        exists|ops: Seq<ResolvedOp>|
            {
                &&& ops.len() == records.records@.len()
                &&& final(conn)@ == spec_apply_all(old(conn)@, ops)
                &&& forall|i: int|
                    0 <= i < ops.len() ==> resolved_matches(
                        records.records@[i],
                        #[trigger] ops[i],
                    )
            },
        (forall|i: int|
            0 <= i < records.records@.len() ==> records.records@[i].program@
                != tracked_program()) ==> final(conn)@ == old(conn)@,
{
    let n = records.records.len();
    let mut i: usize = 0;
    let ghost mut ops: Seq<ResolvedOp> = Seq::empty();
    while i < n
        invariant
            n == records.records@.len(),
            i <= n,
            conn.wf(),
            ops.len() == i,
            conn@ == spec_apply_all(old(conn)@, ops),
            forall|j: int|
                0 <= j < i ==> resolved_matches(records.records@[j], #[trigger] ops[j]),
            (forall|j: int|
                0 <= j < i ==> records.records@[j].program@ != tracked_program()) ==> conn@ == old(
                conn,
            )@,
        decreases n - i,
    {
        let ghost before = conn@;
        let _ = project(conn, rest_api, &records.records[i]);
        proof {
            let op = choose|op: ResolvedOp|
                conn@ == spec_apply(before, op) && #[trigger] resolved_matches(
                    records.records@[i as int],
                    op,
                );
            lemma_apply_all_snoc(old(conn)@, ops, op);
            ops = ops.push(op);
        }
        i = i + 1;
    }
}

} // verus!
