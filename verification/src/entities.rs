//! Typed values of the tracked program's on-chain mapping slots, and the
//! snapshot shapes that hold one whole mapping.  These are the shapes the
//! node's mapping-lookup endpoint serves and the projector writes into the
//! relational store.  A whole-mapping snapshot holds a key-unique row
//! table, the reasoned-about form of a keyed map.

use crate::store::StrTable;
use crate::store::U64Table;
use vstd::prelude::*;

verus! {

#[derive(Clone, Debug, PartialEq, Eq)]
pub struct Proposal {
    pub id: u64,
    pub title: String,
    pub proposer: String,
    pub summary: String,
    pub body: String,
    pub dao_id: u64,
    pub created: u64,
    pub duration: u64,
    pub proposal_type: u32,
    pub adopt: u64,
    pub reject: u64,
    pub status: u32,
}

#[derive(Clone, Debug, PartialEq, Eq)]
pub struct Profile {
    pub name: String,
    pub avatar: String,
    pub bio: String,
}

#[derive(Clone, Debug, PartialEq, Eq)]
pub struct DaoSchema {
    pub name: String,
    pub dao_type: u32,
    pub creater: String,
    pub icon: String,
    pub description: String,
    pub official_link: String,
}

#[derive(Clone, Debug, PartialEq, Eq)]
pub struct Dao {
    pub id: u64,
    pub name: String,
    pub dao_type: u32,
    pub creator: String,
    pub token_info_id: u64,
    pub icon: String,
    pub description: String,
    pub official_link: String,
    pub proposal_count: u64,
    pub pass_proposal_count: u64,
    pub vote_count: u64,
    pub passed_votes_proportion: u64,
    pub passed_tokens_proportion: u64,
}

#[derive(Clone, Debug, PartialEq, Eq)]
pub struct Token {
    pub owner: String,
    pub gates: u64,
    pub token_info_id: u64,
    pub amount: u64,
    pub expires: u64,
    pub staked_at: u64,
}

#[derive(Clone, Debug, PartialEq, Eq)]
pub struct HoldToken {
    pub token_owner: String,
    pub amount: u64,
    pub token_info_id: u64,
}

#[derive(Clone, Debug, PartialEq, Eq)]
pub struct TokenInfo {
    pub id: u64,
    pub name: String,
    pub symbol: String,
    pub supply: u64,
    pub decimals: u32,
    pub max_mint_amount: u64,
    pub minted_amount: u64,
    pub dao_id: u64,
    pub only_creator_can_mint: bool,
}

#[derive(Clone, Debug, PartialEq, Eq)]
pub struct TokenInfoSchema {
    pub name: String,
    pub symbol: String,
    pub supply: u64,
    pub decimals: u32,
    pub max_mint_amount: u64,
}

#[derive(Clone, Debug, PartialEq, Eq)]
pub struct Vote {
    pub voter: String,
    pub proposal_id: u64,
    pub is_agreed: bool,
    pub timestamp: u64,
    pub amount: u64,
}

/// Snapshot of the whole `auto_increment` mapping: counter namespace to
/// next id.
pub struct MappingAutoIncrement {
    pub auto_increment: U64Table<u64>,
}

/// Snapshot of the whole `profiles` mapping: owner address to profile.
pub struct MappingProfiles {
    pub profiles: StrTable<Profile>,
}

/// Snapshot of the whole `daos` mapping.
pub struct MappingDaos {
    pub daos: U64Table<Dao>,
}

/// Snapshot of the whole `token_infos` mapping.
pub struct MappingTokenInfos {
    pub token_infos: U64Table<TokenInfo>,
}

/// Snapshot of the whole `balances` mapping: derived slot key to holding.
pub struct MappingBalances {
    pub balances: StrTable<HoldToken>,
}

/// Snapshot of the whole `stake_amounts` mapping: derived slot key to
/// holding.
pub struct MappingStakeAmounts {
    pub stake_amounts: StrTable<HoldToken>,
}

/// Snapshot of the whole `proposals` mapping.
pub struct MappingProposals {
    pub proposals: U64Table<Proposal>,
}

/// Snapshot of the whole `votes` mapping.
pub struct MappingVotes {
    pub votes: U64Table<Vote>,
}

/// Snapshot of the whole `extend_pledge_period` mapping.
pub struct MappingExtendPledgePeriod {
    pub extend_pledge_period: U64Table<u64>,
}

} // verus!
