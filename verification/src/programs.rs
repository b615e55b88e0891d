//! The vote and stake programs: their identities and the format of a stake account.

use crate::pubkey::Pubkey;
use solana_sdk::account_utils::StateMut;
use solana_sdk::stake::state::StakeState;
use vstd::prelude::*;

verus! {

/// The bytes of the vote program's identity, `Vote111111111111111111111111111111111111111`
/// in base 58.
pub open spec fn vote_program_id() -> Seq<u8> {
    seq![
        7u8, 97u8, 72u8, 29u8, 53u8, 116u8, 116u8, 187u8,
        124u8, 77u8, 118u8, 36u8, 235u8, 211u8, 189u8, 179u8,
        216u8, 53u8, 94u8, 115u8, 209u8, 16u8, 67u8, 252u8,
        13u8, 163u8, 83u8, 128u8, 0u8, 0u8, 0u8, 0u8,
    ]
}

/// The bytes of the stake program's identity, `Stake11111111111111111111111111111111111111`
/// in base 58.
pub open spec fn stake_program_id() -> Seq<u8> {
    seq![
        6u8, 161u8, 216u8, 23u8, 145u8, 55u8, 84u8, 42u8,
        152u8, 52u8, 55u8, 189u8, 254u8, 42u8, 122u8, 178u8,
        85u8, 127u8, 83u8, 92u8, 138u8, 120u8, 114u8, 43u8,
        104u8, 164u8, 157u8, 192u8, 0u8, 0u8, 0u8, 0u8,
    ]
}

/// Whether `owner` is the vote program.
pub open spec fn is_vote_program(owner: Pubkey) -> bool {
    owner.bytes@ == vote_program_id()
}

/// Whether `owner` is the stake program.
pub open spec fn is_stake_program(owner: Pubkey) -> bool {
    owner.bytes@ == stake_program_id()
}

/// The delegation that a stake account's payload holds: the identity of the vote account
/// that it delegates to and the delegated amount. `None` for a payload that does not decode
/// as a stake state, or decodes as one without a delegation.
pub uninterp spec fn stake_delegation(data: Seq<u8>) -> Option<(Pubkey, u64)>;

/// Calls `solana_sdk::vote::program::check_id`, which compares its argument with the vote
/// program's identity. Trusted: that the identity has the bytes of `vote_program_id`.
#[verifier::external_body]
pub(crate) fn vote_check_id(owner: &Pubkey) -> (r: bool)
    ensures
        r == is_vote_program(*owner),
{
    solana_sdk::vote::program::check_id(&solana_sdk::pubkey::Pubkey::new_from_array(owner.bytes))
}

/// Calls `solana_sdk::stake::program::check_id`, which compares its argument with the stake
/// program's identity. Trusted: that the identity has the bytes of `stake_program_id`.
#[verifier::external_body]
pub(crate) fn stake_check_id(owner: &Pubkey) -> (r: bool)
    ensures
        r == is_stake_program(*owner),
{
    solana_sdk::stake::program::check_id(&solana_sdk::pubkey::Pubkey::new_from_array(owner.bytes))
}

/// Calls `StateMut::<StakeState>::state` of `solana_sdk` on an account with the payload
/// `data`, which decodes the payload alone, and picks the voter and the stake of the
/// delegation out of a `StakeState::Stake`. Trusted: that the outcome is a function of the
/// payload's bytes, named `stake_delegation`.
#[verifier::external_body]
pub(crate) fn decode_delegation(data: &Vec<u8>) -> (r: Option<(Pubkey, u64)>)
    ensures
        r == stake_delegation(data@),
{
    let account = solana_sdk::account::Account { data: data.clone(), ..Default::default() };
    let state: Result<StakeState, _> = account.state();
    match state {
        Ok(StakeState::Stake(_, stake)) => {
            let voter = Pubkey { bytes: stake.delegation.voter_pubkey.to_bytes() };
            Some((voter, stake.delegation.stake))
        },
        _ => None,
    }
}

} // verus!
