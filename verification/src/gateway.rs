//! The Persistence Gateway: one key-addressed table per entity kind, and
//! the write primitives the projector uses.  Every write is single-row and
//! key-addressed, so replaying it is harmless; nothing is ever appended
//! blindly or deleted.

use crate::entities::Dao;
use crate::entities::HoldToken;
use crate::entities::Profile;
use crate::entities::Proposal;
use crate::entities::TokenInfo;
use crate::entities::Vote;
use crate::store::spec_insert_if_absent;
use crate::store::spec_update_existing;
use crate::store::StrTable;
use crate::store::U64Table;
use vstd::prelude::*;

verus! {

/// Counter namespace of the ledger's `auto_increment` mapping that holds
/// the last on-chain timestamp.
pub const AUTO_INCREMENT_TIMESTAMP: u64 = 0;

/// Counter namespace for token-info ids.
pub const AUTO_INCREMENT_TOKEN_INFOS: u64 = 1;

/// Counter namespace for proposal ids.
pub const AUTO_INCREMENT_PROPOSALS: u64 = 2;

/// Counter namespace for dao ids.
pub const AUTO_INCREMENT_DAOS: u64 = 3;

/// Counter namespace for vote ids.
pub const AUTO_INCREMENT_VOTES: u64 = 4;

/// The relational store the projector writes: one table per entity kind,
/// each keyed by the entity's natural key.
pub struct Store {
    pub profiles: StrTable<Profile>,
    pub daos: U64Table<Dao>,
    pub token_infos: U64Table<TokenInfo>,
    pub balances: StrTable<HoldToken>,
    pub stake_amounts: StrTable<HoldToken>,
    pub proposals: U64Table<Proposal>,
    pub votes: U64Table<Vote>,
    pub auto_increment: U64Table<u64>,
    pub extend_pledge_period: U64Table<u64>,
}

/// The mathematical state of the store: one map per table.
#[verifier::ext_equal]
pub struct StoreState {
    pub profiles: Map<Seq<char>, Profile>,
    pub daos: Map<u64, Dao>,
    pub token_infos: Map<u64, TokenInfo>,
    pub balances: Map<Seq<char>, HoldToken>,
    pub stake_amounts: Map<Seq<char>, HoldToken>,
    pub proposals: Map<u64, Proposal>,
    pub votes: Map<u64, Vote>,
    pub auto_increment: Map<u64, u64>,
    pub extend_pledge_period: Map<u64, u64>,
}

impl View for Store {
    type V = StoreState;

    open spec fn view(&self) -> StoreState {
        StoreState {
            profiles: self.profiles@,
            daos: self.daos@,
            token_infos: self.token_infos@,
            balances: self.balances@,
            stake_amounts: self.stake_amounts@,
            proposals: self.proposals@,
            votes: self.votes@,
            auto_increment: self.auto_increment@,
            extend_pledge_period: self.extend_pledge_period@,
        }
    }
}

impl Store {
    /// Every table keeps at most one row per key.
    pub open spec fn wf(&self) -> bool {
        &&& self.profiles.wf()
        &&& self.daos.wf()
        &&& self.token_infos.wf()
        &&& self.balances.wf()
        &&& self.stake_amounts.wf()
        &&& self.proposals.wf()
        &&& self.votes.wf()
        &&& self.auto_increment.wf()
        &&& self.extend_pledge_period.wf()
    }

    pub open spec fn spec_empty() -> StoreState {
        StoreState {
            profiles: Map::empty(),
            daos: Map::empty(),
            token_infos: Map::empty(),
            balances: Map::empty(),
            stake_amounts: Map::empty(),
            proposals: Map::empty(),
            votes: Map::empty(),
            auto_increment: Map::empty(),
            extend_pledge_period: Map::empty(),
        }
    }

    pub fn new() -> (s: Self)
        ensures
            s.wf(),
            s@ == Self::spec_empty(),
    {
        Store {
            profiles: StrTable::new(),
            daos: U64Table::new(),
            token_infos: U64Table::new(),
            balances: StrTable::new(),
            stake_amounts: StrTable::new(),
            proposals: U64Table::new(),
            votes: U64Table::new(),
            auto_increment: U64Table::new(),
            extend_pledge_period: U64Table::new(),
        }
    }

    /// Refresh the token-info row with this id, where one exists.
    pub fn update_token_info(&mut self, t: TokenInfo)
        requires
            old(self).wf(),
        ensures
            final(self).wf(),
            final(self)@ == spec_update_token_info(old(self)@, t),
    {
        self.token_infos.update_by_key(t.id, t);
    }

    /// First-seen insert of a token-info row; a later insert with the same
    /// id changes nothing.
    pub fn insert_token_info(&mut self, t: TokenInfo)
        requires
            old(self).wf(),
        ensures
            final(self).wf(),
            final(self)@ == spec_insert_token_info(old(self)@, t),
    {
        self.token_infos.insert_if_absent(t.id, t);
    }

    /// First-seen insert of a dao row.
    pub fn create_dao(&mut self, d: Dao)
        requires
            old(self).wf(),
        ensures
            final(self).wf(),
            final(self)@ == spec_create_dao(old(self)@, d),
    {
        self.daos.insert_if_absent(d.id, d);
    }

    /// Refresh the dao row with this id, where one exists.
    pub fn update_dao(&mut self, d: Dao)
        requires
            old(self).wf(),
        ensures
            final(self).wf(),
            final(self)@ == spec_update_dao(old(self)@, d),
    {
        self.daos.update_by_key(d.id, d);
    }

    /// Bind a balance slot key to its current holding.
    pub fn upsert_balances(&mut self, key: String, h: HoldToken)
        requires
            old(self).wf(),
        ensures
            final(self).wf(),
            final(self)@ == spec_upsert_balances(old(self)@, key@, h),
    {
        self.balances.upsert(key, h);
    }

    /// Bind a stake slot key to its current holding.
    pub fn upsert_stake_amounts(&mut self, key: String, h: HoldToken)
        requires
            old(self).wf(),
        ensures
            final(self).wf(),
            final(self)@ == spec_upsert_stake_amounts(old(self)@, key@, h),
    {
        self.stake_amounts.upsert(key, h);
    }

    /// Refresh the stake row under this key, where one exists.
    pub fn update_stake_amounts(&mut self, key: &String, h: HoldToken)
        requires
            old(self).wf(),
        ensures
            final(self).wf(),
            final(self)@ == spec_update_stake_amounts(old(self)@, key@, h),
    {
        self.stake_amounts.update_by_key(key, h);
    }

    /// Bind an owner address to its profile.
    pub fn upsert_profile(&mut self, address: String, p: Profile)
        requires
            old(self).wf(),
        ensures
            final(self).wf(),
            final(self)@ == spec_upsert_profile(old(self)@, address@, p),
    {
        self.profiles.upsert(address, p);
    }

    /// Mirror one ledger counter value.
    pub fn upsert_auto_increment(&mut self, key: u64, value: u64)
        requires
            old(self).wf(),
        ensures
            final(self).wf(),
            final(self)@ == spec_upsert_auto_increment(old(self)@, key, value),
    {
        self.auto_increment.upsert(key, value);
    }

    /// First-seen insert of a proposal row.
    pub fn create_proposal(&mut self, p: Proposal)
        requires
            old(self).wf(),
        ensures
            final(self).wf(),
            final(self)@ == spec_create_proposal(old(self)@, p),
    {
        self.proposals.insert_if_absent(p.id, p);
    }

    /// Refresh the proposal row with this id, where one exists.
    pub fn update_proposal(&mut self, p: Proposal)
        requires
            old(self).wf(),
        ensures
            final(self).wf(),
            final(self)@ == spec_update_proposal(old(self)@, p),
    {
        self.proposals.update_by_key(p.id, p);
    }

    /// First-seen insert of a vote row under its ledger-assigned id.
    pub fn insert_votes(&mut self, key: u64, v: Vote)
        requires
            old(self).wf(),
        ensures
            final(self).wf(),
            final(self)@ == spec_insert_votes(old(self)@, key, v),
    {
        self.votes.insert_if_absent(key, v);
    }

    /// First-seen insert of an extend-pledge-period row.
    pub fn create_extend_pledge_period(&mut self, key: u64, value: u64)
        requires
            old(self).wf(),
        ensures
            final(self).wf(),
            final(self)@ == spec_create_extend_pledge_period(old(self)@, key, value),
    {
        self.extend_pledge_period.insert_if_absent(key, value);
    }
}

pub open spec fn spec_update_token_info(s: StoreState, t: TokenInfo) -> StoreState {
    StoreState { token_infos: spec_update_existing(s.token_infos, t.id, t), ..s }
}

pub open spec fn spec_insert_token_info(s: StoreState, t: TokenInfo) -> StoreState {
    StoreState { token_infos: spec_insert_if_absent(s.token_infos, t.id, t), ..s }
}

pub open spec fn spec_create_dao(s: StoreState, d: Dao) -> StoreState {
    StoreState { daos: spec_insert_if_absent(s.daos, d.id, d), ..s }
}

pub open spec fn spec_update_dao(s: StoreState, d: Dao) -> StoreState {
    StoreState { daos: spec_update_existing(s.daos, d.id, d), ..s }
}

pub open spec fn spec_upsert_balances(s: StoreState, key: Seq<char>, h: HoldToken) -> StoreState {
    StoreState { balances: s.balances.insert(key, h), ..s }
}

pub open spec fn spec_upsert_stake_amounts(s: StoreState, key: Seq<char>, h: HoldToken) -> StoreState {
    StoreState { stake_amounts: s.stake_amounts.insert(key, h), ..s }
}

pub open spec fn spec_update_stake_amounts(s: StoreState, key: Seq<char>, h: HoldToken) -> StoreState {
    StoreState { stake_amounts: spec_update_existing(s.stake_amounts, key, h), ..s }
}

pub open spec fn spec_upsert_profile(s: StoreState, address: Seq<char>, p: Profile) -> StoreState {
    StoreState { profiles: s.profiles.insert(address, p), ..s }
}

pub open spec fn spec_upsert_auto_increment(s: StoreState, key: u64, value: u64) -> StoreState {
    StoreState { auto_increment: s.auto_increment.insert(key, value), ..s }
}

pub open spec fn spec_create_proposal(s: StoreState, p: Proposal) -> StoreState {
    StoreState { proposals: spec_insert_if_absent(s.proposals, p.id, p), ..s }
}

pub open spec fn spec_update_proposal(s: StoreState, p: Proposal) -> StoreState {
    StoreState { proposals: spec_update_existing(s.proposals, p.id, p), ..s }
}

pub open spec fn spec_insert_votes(s: StoreState, key: u64, v: Vote) -> StoreState {
    StoreState { votes: spec_insert_if_absent(s.votes, key, v), ..s }
}

pub open spec fn spec_create_extend_pledge_period(s: StoreState, key: u64, value: u64) -> StoreState {
    StoreState { extend_pledge_period: spec_insert_if_absent(s.extend_pledge_period, key, value), ..s }
}

} // verus!
