//! The mapping fetcher: one synchronous lookup against the node's REST
//! mapping endpoint per slot, isolated behind a single trusted call.  URL
//! construction and response decoding are verified; only the transport is
//! trusted.

use crate::entities::Dao;
use crate::entities::HoldToken;
use crate::entities::Profile;
use crate::entities::Proposal;
use crate::entities::TokenInfo;
use crate::entities::Vote;
use crate::errors::FetchError;
use crate::json::field_lookup;
use crate::json::fields_view;
use crate::json::get_flag_field;
use crate::json::get_num32_field;
use crate::json::get_num_field;
use crate::json::get_text_field;
use crate::json::parse_bare_u64_exec;
use crate::json::parse_object_exec;
use crate::json::JsonScalar;
use crate::json::ScalarShape;
use vstd::prelude::*;
use vstd::string::StringExecFns;

verus! {

/// `{rest_api}/testnet3/program/{program}/mapping/{mapping}/{key}`.
pub open spec fn mapping_url(
    rest_api: Seq<char>,
    program: Seq<char>,
    mapping: Seq<char>,
    key: Seq<char>,
) -> Seq<char> {
    rest_api + "/testnet3/program/"@ + program + "/mapping/"@ + mapping + "/"@ + key
}

/// Build the lookup URL for one mapping slot.
pub fn build_mapping_url(rest_api: &String, program: &String, mapping: &String, key: &String) -> (r:
    String)
    ensures
        r@ == mapping_url(rest_api@, program@, mapping@, key@),
{
    let mut u = rest_api.clone();
    u.append("/testnet3/program/");
    u.append(program.as_str());
    u.append("/mapping/");
    u.append(mapping.as_str());
    u.append("/");
    u.append(key.as_str());
    proof {
        assert(u@ =~= mapping_url(rest_api@, program@, mapping@, key@));
    }
    u
}

/// Relies on `ureq::get` and `Response::into_string`: one blocking GET,
/// whose body comes back as text.  A 404 status is an absent slot; any
/// other failure is transport.  Nothing is promised of the body: every
/// caller validates it.
#[verifier::external_body]
fn http_get_text(url: &String) -> (r: Result<String, FetchError>) {
    match ureq::get(url.as_str()).call() {
        Ok(resp) => match resp.into_string() {
            Ok(body) => Ok(body),
            Err(_) => Err(FetchError::Transport),
        },
        Err(ureq::Error::Status(404, _)) => Err(FetchError::NotFound),
        Err(ureq::Error::Status(_, _)) => Err(FetchError::Transport),
        Err(ureq::Error::Transport(_)) => Err(FetchError::Transport),
    }
}

/// The named member where it is a number, else nothing.
pub open spec fn num_at(fs: Seq<(Seq<char>, ScalarShape)>, name: Seq<char>) -> Option<u64> {
    match field_lookup(fs, name) {
        Some(ScalarShape::Num(n)) => Some(n),
        _ => None,
    }
}

/// The named member where it is a number fitting 32 bits, else nothing.
pub open spec fn num32_at(fs: Seq<(Seq<char>, ScalarShape)>, name: Seq<char>) -> Option<u32> {
    match field_lookup(fs, name) {
        Some(ScalarShape::Num(n)) => if n <= u32::MAX {
            Some(n as u32)
        } else {
            None
        },
        _ => None,
    }
}

/// The named member where it is a string, else nothing.
pub open spec fn text_at(fs: Seq<(Seq<char>, ScalarShape)>, name: Seq<char>) -> Option<Seq<char>> {
    match field_lookup(fs, name) {
        Some(ScalarShape::Text(t)) => Some(t),
        _ => None,
    }
}

/// The named member where it is a boolean, else nothing.
pub open spec fn flag_at(fs: Seq<(Seq<char>, ScalarShape)>, name: Seq<char>) -> Option<bool> {
    match field_lookup(fs, name) {
        Some(ScalarShape::Flag(b)) => Some(b),
        _ => None,
    }
}

/// Whether the members carry every field of a token-info value, with the
/// right kinds.
pub open spec fn token_info_fields_ok(fs: Seq<(Seq<char>, ScalarShape)>) -> bool {
    &&& num_at(fs, "id"@) is Some
    &&& text_at(fs, "name"@) is Some
    &&& text_at(fs, "symbol"@) is Some
    &&& num_at(fs, "supply"@) is Some
    &&& num32_at(fs, "decimals"@) is Some
    &&& num_at(fs, "max_mint_amount"@) is Some
    &&& num_at(fs, "minted_amount"@) is Some
    &&& num_at(fs, "dao_id"@) is Some
    &&& flag_at(fs, "only_creator_can_mint"@) is Some
}

/// Read a token-info value out of decoded members: succeeds exactly where
/// every declared field is present with its kind, and then returns those
/// fields unchanged.
pub fn token_info_from_fields(fields: &Vec<(String, JsonScalar)>) -> (r: Option<TokenInfo>)
    ensures
        r is Some <==> token_info_fields_ok(fields_view(fields@)),
        r matches Some(t) ==> {
            let fs = fields_view(fields@);
            &&& num_at(fs, "id"@) == Some(t.id)
            &&& text_at(fs, "name"@) == Some(t.name@)
            &&& text_at(fs, "symbol"@) == Some(t.symbol@)
            &&& num_at(fs, "supply"@) == Some(t.supply)
            &&& num32_at(fs, "decimals"@) == Some(t.decimals)
            &&& num_at(fs, "max_mint_amount"@) == Some(t.max_mint_amount)
            &&& num_at(fs, "minted_amount"@) == Some(t.minted_amount)
            &&& num_at(fs, "dao_id"@) == Some(t.dao_id)
            &&& flag_at(fs, "only_creator_can_mint"@) == Some(t.only_creator_can_mint)
        },
{
    let id = match get_num_field(fields, "id") {
        Some(v) => v,
        None => {
            return None;
        },
    };
    let name = match get_text_field(fields, "name") {
        Some(v) => v,
        None => {
            return None;
        },
    };
    let symbol = match get_text_field(fields, "symbol") {
        Some(v) => v,
        None => {
            return None;
        },
    };
    let supply = match get_num_field(fields, "supply") {
        Some(v) => v,
        None => {
            return None;
        },
    };
    let decimals = match get_num32_field(fields, "decimals") {
        Some(v) => v,
        None => {
            return None;
        },
    };
    let max_mint_amount = match get_num_field(fields, "max_mint_amount") {
        Some(v) => v,
        None => {
            return None;
        },
    };
    let minted_amount = match get_num_field(fields, "minted_amount") {
        Some(v) => v,
        None => {
            return None;
        },
    };
    let dao_id = match get_num_field(fields, "dao_id") {
        Some(v) => v,
        None => {
            return None;
        },
    };
    let only_creator_can_mint = match get_flag_field(fields, "only_creator_can_mint") {
        Some(v) => v,
        None => {
            return None;
        },
    };
    Some(
        TokenInfo {
            id,
            name,
            symbol,
            supply,
            decimals,
            max_mint_amount,
            minted_amount,
            dao_id,
            only_creator_can_mint,
        },
    )
}

/// Whether the members carry every field of a holding value.
pub open spec fn hold_token_fields_ok(fs: Seq<(Seq<char>, ScalarShape)>) -> bool {
    &&& text_at(fs, "token_owner"@) is Some
    &&& num_at(fs, "amount"@) is Some
    &&& num_at(fs, "token_info_id"@) is Some
}

/// Read a holding out of decoded members.
pub fn hold_token_from_fields(fields: &Vec<(String, JsonScalar)>) -> (r: Option<HoldToken>)
    ensures
        r is Some <==> hold_token_fields_ok(fields_view(fields@)),
        r matches Some(h) ==> {
            let fs = fields_view(fields@);
            &&& text_at(fs, "token_owner"@) == Some(h.token_owner@)
            &&& num_at(fs, "amount"@) == Some(h.amount)
            &&& num_at(fs, "token_info_id"@) == Some(h.token_info_id)
        },
{
    let token_owner = match get_text_field(fields, "token_owner") {
        Some(v) => v,
        None => {
            return None;
        },
    };
    let amount = match get_num_field(fields, "amount") {
        Some(v) => v,
        None => {
            return None;
        },
    };
    let token_info_id = match get_num_field(fields, "token_info_id") {
        Some(v) => v,
        None => {
            return None;
        },
    };
    Some(HoldToken { token_owner, amount, token_info_id })
}

/// Whether the members carry every field of a profile value.
pub open spec fn profile_fields_ok(fs: Seq<(Seq<char>, ScalarShape)>) -> bool {
    &&& text_at(fs, "name"@) is Some
    &&& text_at(fs, "avatar"@) is Some
    &&& text_at(fs, "bio"@) is Some
}

/// Read a profile out of decoded members.
pub fn profile_from_fields(fields: &Vec<(String, JsonScalar)>) -> (r: Option<Profile>)
    ensures
        r is Some <==> profile_fields_ok(fields_view(fields@)),
        r matches Some(p) ==> {
            let fs = fields_view(fields@);
            &&& text_at(fs, "name"@) == Some(p.name@)
            &&& text_at(fs, "avatar"@) == Some(p.avatar@)
            &&& text_at(fs, "bio"@) == Some(p.bio@)
        },
{
    let name = match get_text_field(fields, "name") {
        Some(v) => v,
        None => {
            return None;
        },
    };
    let avatar = match get_text_field(fields, "avatar") {
        Some(v) => v,
        None => {
            return None;
        },
    };
    let bio = match get_text_field(fields, "bio") {
        Some(v) => v,
        None => {
            return None;
        },
    };
    Some(Profile { name, avatar, bio })
}

/// Whether the members carry every field of a dao value.
pub open spec fn dao_fields_ok(fs: Seq<(Seq<char>, ScalarShape)>) -> bool {
    &&& num_at(fs, "id"@) is Some
    &&& text_at(fs, "name"@) is Some
    &&& num32_at(fs, "dao_type"@) is Some
    &&& text_at(fs, "creator"@) is Some
    &&& num_at(fs, "token_info_id"@) is Some
    &&& text_at(fs, "icon"@) is Some
    &&& text_at(fs, "description"@) is Some
    &&& text_at(fs, "official_link"@) is Some
    &&& num_at(fs, "proposal_count"@) is Some
    &&& num_at(fs, "pass_proposal_count"@) is Some
    &&& num_at(fs, "vote_count"@) is Some
    &&& num_at(fs, "passed_votes_proportion"@) is Some
    &&& num_at(fs, "passed_tokens_proportion"@) is Some
}

/// Read a dao out of decoded members.
pub fn dao_from_fields(fields: &Vec<(String, JsonScalar)>) -> (r: Option<Dao>)
    ensures
        r is Some <==> dao_fields_ok(fields_view(fields@)),
        r matches Some(d) ==> {
            let fs = fields_view(fields@);
            &&& num_at(fs, "id"@) == Some(d.id)
            &&& text_at(fs, "name"@) == Some(d.name@)
            &&& num32_at(fs, "dao_type"@) == Some(d.dao_type)
            &&& text_at(fs, "creator"@) == Some(d.creator@)
            &&& num_at(fs, "token_info_id"@) == Some(d.token_info_id)
            &&& text_at(fs, "icon"@) == Some(d.icon@)
            &&& text_at(fs, "description"@) == Some(d.description@)
            &&& text_at(fs, "official_link"@) == Some(d.official_link@)
            &&& num_at(fs, "proposal_count"@) == Some(d.proposal_count)
            &&& num_at(fs, "pass_proposal_count"@) == Some(d.pass_proposal_count)
            &&& num_at(fs, "vote_count"@) == Some(d.vote_count)
            &&& num_at(fs, "passed_votes_proportion"@) == Some(d.passed_votes_proportion)
            &&& num_at(fs, "passed_tokens_proportion"@) == Some(d.passed_tokens_proportion)
        },
{
    let id = match get_num_field(fields, "id") {
        Some(v) => v,
        None => {
            return None;
        },
    };
    let name = match get_text_field(fields, "name") {
        Some(v) => v,
        None => {
            return None;
        },
    };
    let dao_type = match get_num32_field(fields, "dao_type") {
        Some(v) => v,
        None => {
            return None;
        },
    };
    let creator = match get_text_field(fields, "creator") {
        Some(v) => v,
        None => {
            return None;
        },
    };
    let token_info_id = match get_num_field(fields, "token_info_id") {
        Some(v) => v,
        None => {
            return None;
        },
    };
    let icon = match get_text_field(fields, "icon") {
        Some(v) => v,
        None => {
            return None;
        },
    };
    let description = match get_text_field(fields, "description") {
        Some(v) => v,
        None => {
            return None;
        },
    };
    let official_link = match get_text_field(fields, "official_link") {
        Some(v) => v,
        None => {
            return None;
        },
    };
    let proposal_count = match get_num_field(fields, "proposal_count") {
        Some(v) => v,
        None => {
            return None;
        },
    };
    let pass_proposal_count = match get_num_field(fields, "pass_proposal_count") {
        Some(v) => v,
        None => {
            return None;
        },
    };
    let vote_count = match get_num_field(fields, "vote_count") {
        Some(v) => v,
        None => {
            return None;
        },
    };
    let passed_votes_proportion = match get_num_field(fields, "passed_votes_proportion") {
        Some(v) => v,
        None => {
            return None;
        },
    };
    let passed_tokens_proportion = match get_num_field(fields, "passed_tokens_proportion") {
        Some(v) => v,
        None => {
            return None;
        },
    };
    Some(
        Dao {
            id,
            name,
            dao_type,
            creator,
            token_info_id,
            icon,
            description,
            official_link,
            proposal_count,
            pass_proposal_count,
            vote_count,
            passed_votes_proportion,
            passed_tokens_proportion,
        },
    )
}

/// Whether the members carry every field of a proposal value.
pub open spec fn proposal_fields_ok(fs: Seq<(Seq<char>, ScalarShape)>) -> bool {
    &&& num_at(fs, "id"@) is Some
    &&& text_at(fs, "title"@) is Some
    &&& text_at(fs, "proposer"@) is Some
    &&& text_at(fs, "summary"@) is Some
    &&& text_at(fs, "body"@) is Some
    &&& num_at(fs, "dao_id"@) is Some
    &&& num_at(fs, "created"@) is Some
    &&& num_at(fs, "duration"@) is Some
    &&& num32_at(fs, "proposal_type"@) is Some
    &&& num_at(fs, "adopt"@) is Some
    &&& num_at(fs, "reject"@) is Some
    &&& num32_at(fs, "status"@) is Some
}

/// Read a proposal out of decoded members.
pub fn proposal_from_fields(fields: &Vec<(String, JsonScalar)>) -> (r: Option<Proposal>)
    ensures
        r is Some <==> proposal_fields_ok(fields_view(fields@)),
        r matches Some(p) ==> {
            let fs = fields_view(fields@);
            &&& num_at(fs, "id"@) == Some(p.id)
            &&& text_at(fs, "title"@) == Some(p.title@)
            &&& text_at(fs, "proposer"@) == Some(p.proposer@)
            &&& text_at(fs, "summary"@) == Some(p.summary@)
            &&& text_at(fs, "body"@) == Some(p.body@)
            &&& num_at(fs, "dao_id"@) == Some(p.dao_id)
            &&& num_at(fs, "created"@) == Some(p.created)
            &&& num_at(fs, "duration"@) == Some(p.duration)
            &&& num32_at(fs, "proposal_type"@) == Some(p.proposal_type)
            &&& num_at(fs, "adopt"@) == Some(p.adopt)
            &&& num_at(fs, "reject"@) == Some(p.reject)
            &&& num32_at(fs, "status"@) == Some(p.status)
        },
{
    let id = match get_num_field(fields, "id") {
        Some(v) => v,
        None => {
            return None;
        },
    };
    let title = match get_text_field(fields, "title") {
        Some(v) => v,
        None => {
            return None;
        },
    };
    let proposer = match get_text_field(fields, "proposer") {
        Some(v) => v,
        None => {
            return None;
        },
    };
    let summary = match get_text_field(fields, "summary") {
        Some(v) => v,
        None => {
            return None;
        },
    };
    let body = match get_text_field(fields, "body") {
        Some(v) => v,
        None => {
            return None;
        },
    };
    let dao_id = match get_num_field(fields, "dao_id") {
        Some(v) => v,
        None => {
            return None;
        },
    };
    let created = match get_num_field(fields, "created") {
        Some(v) => v,
        None => {
            return None;
        },
    };
    let duration = match get_num_field(fields, "duration") {
        Some(v) => v,
        None => {
            return None;
        },
    };
    let proposal_type = match get_num32_field(fields, "proposal_type") {
        Some(v) => v,
        None => {
            return None;
        },
    };
    let adopt = match get_num_field(fields, "adopt") {
        Some(v) => v,
        None => {
            return None;
        },
    };
    let reject = match get_num_field(fields, "reject") {
        Some(v) => v,
        None => {
            return None;
        },
    };
    let status = match get_num32_field(fields, "status") {
        Some(v) => v,
        None => {
            return None;
        },
    };
    Some(
        Proposal {
            id,
            title,
            proposer,
            summary,
            body,
            dao_id,
            created,
            duration,
            proposal_type,
            adopt,
            reject,
            status,
        },
    )
}

/// Whether the members carry every field of a vote value.
pub open spec fn vote_fields_ok(fs: Seq<(Seq<char>, ScalarShape)>) -> bool {
    &&& text_at(fs, "voter"@) is Some
    &&& num_at(fs, "proposal_id"@) is Some
    &&& flag_at(fs, "is_agreed"@) is Some
    &&& num_at(fs, "timestamp"@) is Some
    &&& num_at(fs, "amount"@) is Some
}

/// Read a vote out of decoded members.
pub fn vote_from_fields(fields: &Vec<(String, JsonScalar)>) -> (r: Option<Vote>)
    ensures
        r is Some <==> vote_fields_ok(fields_view(fields@)),
        r matches Some(v) ==> {
            let fs = fields_view(fields@);
            &&& text_at(fs, "voter"@) == Some(v.voter@)
            &&& num_at(fs, "proposal_id"@) == Some(v.proposal_id)
            &&& flag_at(fs, "is_agreed"@) == Some(v.is_agreed)
            &&& num_at(fs, "timestamp"@) == Some(v.timestamp)
            &&& num_at(fs, "amount"@) == Some(v.amount)
        },
{
    let voter = match get_text_field(fields, "voter") {
        Some(v) => v,
        None => {
            return None;
        },
    };
    let proposal_id = match get_num_field(fields, "proposal_id") {
        Some(v) => v,
        None => {
            return None;
        },
    };
    let is_agreed = match get_flag_field(fields, "is_agreed") {
        Some(v) => v,
        None => {
            return None;
        },
    };
    let timestamp = match get_num_field(fields, "timestamp") {
        Some(v) => v,
        None => {
            return None;
        },
    };
    let amount = match get_num_field(fields, "amount") {
        Some(v) => v,
        None => {
            return None;
        },
    };
    Some(Vote { voter, proposal_id, is_agreed, timestamp, amount })
}

fn fetch_fields(rest_api: &String, program: &String, mapping: &String, key: &String) -> Result<
    Vec<(String, JsonScalar)>,
    FetchError,
> {
    let url = build_mapping_url(rest_api, program, mapping, key);
    let body = match http_get_text(&url) {
        Ok(b) => b,
        Err(e) => {
            return Err(e);
        },
    };
    match parse_object_exec(body.as_str().as_bytes()) {
        Some(fields) => Ok(fields),
        None => Err(FetchError::Decode),
    }
}

/// Fetch and decode one token-info slot.
pub fn fetch_token_info(rest_api: &String, program: &String, mapping: &String, key: &String) -> Result<
    TokenInfo,
    FetchError,
> {
    let fields = match fetch_fields(rest_api, program, mapping, key) {
        Ok(f) => f,
        Err(e) => {
            return Err(e);
        },
    };
    match token_info_from_fields(&fields) {
        Some(t) => Ok(t),
        None => Err(FetchError::Decode),
    }
}

/// Fetch and decode one balance or stake holding slot.
pub fn fetch_hold_token(rest_api: &String, program: &String, mapping: &String, key: &String) -> Result<
    HoldToken,
    FetchError,
> {
    let fields = match fetch_fields(rest_api, program, mapping, key) {
        Ok(f) => f,
        Err(e) => {
            return Err(e);
        },
    };
    match hold_token_from_fields(&fields) {
        Some(h) => Ok(h),
        None => Err(FetchError::Decode),
    }
}

/// Fetch and decode one profile slot.
pub fn fetch_profile(rest_api: &String, program: &String, mapping: &String, key: &String) -> Result<
    Profile,
    FetchError,
> {
    let fields = match fetch_fields(rest_api, program, mapping, key) {
        Ok(f) => f,
        Err(e) => {
            return Err(e);
        },
    };
    match profile_from_fields(&fields) {
        Some(p) => Ok(p),
        None => Err(FetchError::Decode),
    }
}

/// Fetch and decode one dao slot.
pub fn fetch_dao(rest_api: &String, program: &String, mapping: &String, key: &String) -> Result<
    Dao,
    FetchError,
> {
    let fields = match fetch_fields(rest_api, program, mapping, key) {
        Ok(f) => f,
        Err(e) => {
            return Err(e);
        },
    };
    match dao_from_fields(&fields) {
        Some(d) => Ok(d),
        None => Err(FetchError::Decode),
    }
}

/// Fetch and decode one proposal slot.
pub fn fetch_proposal(rest_api: &String, program: &String, mapping: &String, key: &String) -> Result<
    Proposal,
    FetchError,
> {
    let fields = match fetch_fields(rest_api, program, mapping, key) {
        Ok(f) => f,
        Err(e) => {
            return Err(e);
        },
    };
    match proposal_from_fields(&fields) {
        Some(v) => Ok(v),
        None => Err(FetchError::Decode),
    }
}

/// Fetch and decode one vote slot.
pub fn fetch_vote(rest_api: &String, program: &String, mapping: &String, key: &String) -> Result<
    Vote,
    FetchError,
> {
    let fields = match fetch_fields(rest_api, program, mapping, key) {
        Ok(f) => f,
        Err(e) => {
            return Err(e);
        },
    };
    match vote_from_fields(&fields) {
        Some(v) => Ok(v),
        None => Err(FetchError::Decode),
    }
}

/// Fetch and decode one bare counter or period value.
pub fn fetch_u64(rest_api: &String, program: &String, mapping: &String, key: &String) -> Result<
    u64,
    FetchError,
> {
    let url = build_mapping_url(rest_api, program, mapping, key);
    let body = match http_get_text(&url) {
        Ok(b) => b,
        Err(e) => {
            return Err(e);
        },
    };
    match parse_bare_u64_exec(body.as_str().as_bytes()) {
        Some(v) => Ok(v),
        None => Err(FetchError::Decode),
    }
}

} // verus!
