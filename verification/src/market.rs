use crate::errors::ErrorCode;
use crate::key::Key;
use crate::state::{GlobalState, Market};
use vstd::prelude::*;

verus! {

/// Sets up the settings that every league shares.
pub fn initialize_global_state(
    admin: Key,
    fee_bps: u16,
    treasury: Key,
    permission_program: Key,
    bump: u8,
) -> (state: GlobalState)
    ensures
        state == (GlobalState { admin, fee_bps, treasury, permission_program, bump }),
{
    GlobalState { admin, fee_bps, treasury, permission_program, bump }
}

/// Lists a market at time `now`, bound to the oracle feed that prices it.
///
/// Only the admin of the global settings may list a market: anybody else is
/// turned down with `NotAdmin`.
pub fn list_market(
    global_state: &GlobalState,
    admin: Key,
    oracle_feed: Key,
    base_currency: Key,
    symbol: [u8; 16],
    decimals: u8,
    max_leverage: u8,
    now: i64,
    bump: u8,
) -> (r: Result<Market, ErrorCode>)
    ensures
        admin != global_state.admin ==> r == Err::<Market, ErrorCode>(ErrorCode::NotAdmin),
        admin == global_state.admin ==> r == Ok::<Market, ErrorCode>(
            Market {
                symbol,
                oracle_feed,
                base_currency,
                decimals,
                listed_by: admin,
                is_active: true,
                created_at: now,
                max_leverage,
                bump,
            },
        ),
{
    if !(admin == global_state.admin) {
        return Err(ErrorCode::NotAdmin);
    }
    Ok(
        Market {
            symbol,
            oracle_feed,
            base_currency,
            decimals,
            listed_by: admin,
            is_active: true,
            created_at: now,
            max_leverage,
            bump,
        },
    )
}

} // verus!
