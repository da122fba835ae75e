use crate::errors::ErrorCode;
use crate::key::Key;
use crate::state::{
    League, LeagueStatus, LeagueView, Participant, ParticipantView, MAX_MARKETS, NOT_RANKED,
};
use crate::vault::{associated_token_address, find_associated_token_address};
use vstd::prelude::*;

verus! {

/// What creating a league gives when the reward vault's address is expected
/// to be `expected_vault`: the new league, pending, or the reason why none
/// is created.
pub open spec fn create_league_outcome(
    expected_vault: Option<Seq<u8>>,
    creator: Key,
    entry_token_mint: Key,
    reward_vault: Key,
    start_ts: i64,
    end_ts: i64,
    entry_amount: i64,
    markets: Seq<Key>,
    metadata_uri: Seq<char>,
    max_participants: u32,
    virtual_on_deposit: i64,
    max_leverage: u8,
    nonce: u8,
    bump: u8,
) -> Result<LeagueView, ErrorCode> {
    if markets.len() > MAX_MARKETS {
        Err(ErrorCode::InvalidMarketsLength)
    } else if expected_vault != Some(reward_vault@) {
        Err(ErrorCode::InvalidRewardVault)
    } else {
        Ok(
            LeagueView {
                creator,
                markets,
                start_ts,
                end_ts,
                nonce,
                entry_token_mint,
                entry_amount,
                reward_vault,
                metadata_uri,
                status: LeagueStatus::Pending,
                max_participants,
                virtual_on_deposit,
                max_leverage,
                total_reward_amount: 0,
                bump,
            },
        )
    }
}

/// The view of a key that may be missing.
pub open spec fn view_of(key: Option<Key>) -> Option<Seq<u8>> {
    match key {
        Some(k) => Some(k@),
        None => None,
    }
}

/// Creates a league whose reward vault must live at `expected_vault`.
///
/// Fails with `InvalidMarketsLength` where more than ten markets are named,
/// and with `InvalidRewardVault` where the vault that is handed in is not
/// the expected one or none is expected.
pub fn create_league_with_vault(
    expected_vault: Option<Key>,
    creator: Key,
    entry_token_mint: Key,
    reward_vault: Key,
    start_ts: i64,
    end_ts: i64,
    entry_amount: i64,
    markets: Vec<Key>,
    metadata_uri: String,
    max_participants: u32,
    virtual_on_deposit: i64,
    max_leverage: u8,
    nonce: u8,
    bump: u8,
) -> (r: Result<League, ErrorCode>)
    ensures
        match r {
            Ok(league) => create_league_outcome(
                view_of(expected_vault),
                creator,
                entry_token_mint,
                reward_vault,
                start_ts,
                end_ts,
                entry_amount,
                markets@,
                metadata_uri@,
                max_participants,
                virtual_on_deposit,
                max_leverage,
                nonce,
                bump,
            ) == Ok::<LeagueView, ErrorCode>(league@) && league@.wf(),
            Err(e) => create_league_outcome(
                view_of(expected_vault),
                creator,
                entry_token_mint,
                reward_vault,
                start_ts,
                end_ts,
                entry_amount,
                markets@,
                metadata_uri@,
                max_participants,
                virtual_on_deposit,
                max_leverage,
                nonce,
                bump,
            ) == Err::<LeagueView, ErrorCode>(e),
        },
{
    if markets.len() > MAX_MARKETS {
        return Err(ErrorCode::InvalidMarketsLength);
    }
    match expected_vault {
        Some(expected) => {
            proof {
                Key::lemma_view_decides(expected, reward_vault);
            }
            if !(expected == reward_vault) {
                return Err(ErrorCode::InvalidRewardVault);
            }
        },
        None => {
            return Err(ErrorCode::InvalidRewardVault);
        },
    }
    Ok(
        League {
            creator,
            markets,
            start_ts,
            end_ts,
            nonce,
            entry_token_mint,
            entry_amount,
            reward_vault,
            metadata_uri,
            status: LeagueStatus::Pending,
            max_participants,
            virtual_on_deposit,
            max_leverage,
            total_reward_amount: 0,
            bump,
        },
    )
}

/// Creates a league that will live at `league_key`.
///
/// The reward vault that is handed in must be the token account that
/// belongs to the league for the entry token.
pub fn create_league(
    league_key: Key,
    creator: Key,
    entry_token_mint: Key,
    reward_vault: Key,
    start_ts: i64,
    end_ts: i64,
    entry_amount: i64,
    markets: Vec<Key>,
    metadata_uri: String,
    max_participants: u32,
    virtual_on_deposit: i64,
    max_leverage: u8,
    nonce: u8,
    bump: u8,
) -> (r: Result<League, ErrorCode>)
    ensures
        match r {
            Ok(league) => create_league_outcome(
                associated_token_address(league_key@, entry_token_mint@),
                creator,
                entry_token_mint,
                reward_vault,
                start_ts,
                end_ts,
                entry_amount,
                markets@,
                metadata_uri@,
                max_participants,
                virtual_on_deposit,
                max_leverage,
                nonce,
                bump,
            ) == Ok::<LeagueView, ErrorCode>(league@) && league@.wf(),
            Err(e) => create_league_outcome(
                associated_token_address(league_key@, entry_token_mint@),
                creator,
                entry_token_mint,
                reward_vault,
                start_ts,
                end_ts,
                entry_amount,
                markets@,
                metadata_uri@,
                max_participants,
                virtual_on_deposit,
                max_leverage,
                nonce,
                bump,
            ) == Err::<LeagueView, ErrorCode>(e),
        },
{
    let expected_vault = find_associated_token_address(&league_key, &entry_token_mint);
    create_league_with_vault(
        expected_vault,
        creator,
        entry_token_mint,
        reward_vault,
        start_ts,
        end_ts,
        entry_amount,
        markets,
        metadata_uri,
        max_participants,
        virtual_on_deposit,
        max_leverage,
        nonce,
        bump,
    )
}

/// What joining a league gives: the new participant, or the reason why
/// nobody joins.
///
/// A league is joined while it is active, with at least the entry amount, in
/// the league's entry token. The participant starts with the league's paper
/// balance, no position, no volume, and no rank.
pub open spec fn join_league_outcome(
    league: LeagueView,
    league_key: Key,
    user: Key,
    entry_token_mint: Key,
    amount: i64,
    bump: u8,
) -> Result<ParticipantView, ErrorCode> {
    if league.status != LeagueStatus::Active {
        Err(ErrorCode::LeagueNotActive)
    } else if amount < league.entry_amount {
        Err(ErrorCode::InsufficientEntryAmount)
    } else if league.entry_token_mint != entry_token_mint {
        Err(ErrorCode::InvalidEntryTokenMint)
    } else {
        Ok(
            ParticipantView {
                league: league_key,
                user,
                claimed: false,
                virtual_balance: league.virtual_on_deposit,
                unrealized_pnl: 0,
                used_margin: 0,
                total_volume: 0,
                topk_equity_index: NOT_RANKED,
                topk_volume_index: NOT_RANKED,
                current_position_seq: 0,
                positions: Seq::empty(),
                bump,
            },
        )
    }
}

/// Joins a league.
pub fn join_league(
    league: &League,
    league_key: Key,
    user: Key,
    entry_token_mint: Key,
    amount: i64,
    bump: u8,
) -> (r: Result<Participant, ErrorCode>)
    ensures
        match r {
            Ok(participant) => join_league_outcome(
                league@,
                league_key,
                user,
                entry_token_mint,
                amount,
                bump,
            ) == Ok::<ParticipantView, ErrorCode>(participant@) && participant@.wf(),
            Err(e) => join_league_outcome(league@, league_key, user, entry_token_mint, amount, bump)
                == Err::<ParticipantView, ErrorCode>(e),
        },
{
    if league.status != LeagueStatus::Active {
        return Err(ErrorCode::LeagueNotActive);
    }
    if amount < league.entry_amount {
        return Err(ErrorCode::InsufficientEntryAmount);
    }
    if !(league.entry_token_mint == entry_token_mint) {
        return Err(ErrorCode::InvalidEntryTokenMint);
    }
    Ok(
        Participant {
            league: league_key,
            user,
            claimed: false,
            virtual_balance: league.virtual_on_deposit,
            unrealized_pnl: 0,
            used_margin: 0,
            total_volume: 0,
            topk_equity_index: NOT_RANKED,
            topk_volume_index: NOT_RANKED,
            current_position_seq: 0,
            positions: Vec::new(),
            bump,
        },
    )
}

/// What moving a league from one status to the next does: the league in its
/// new status, or the reason why it stays as it is.
///
/// The league must stand at `from`. Before `threshold` only its creator may
/// move it; from then on anybody may.
pub open spec fn advance_outcome(
    league: LeagueView,
    user: Key,
    now: i64,
    from: LeagueStatus,
    to: LeagueStatus,
    threshold: i64,
) -> Result<LeagueView, ErrorCode> {
    if league.status != from {
        Err(ErrorCode::InvalidStatus)
    } else if now < threshold && user != league.creator {
        Err(ErrorCode::NotCreator)
    } else {
        Ok(LeagueView { status: to, ..league })
    }
}

/// What starting a league does.
pub open spec fn start_league_outcome(league: LeagueView, user: Key, now: i64) -> Result<
    LeagueView,
    ErrorCode,
> {
    advance_outcome(
        league,
        user,
        now,
        LeagueStatus::Pending,
        LeagueStatus::Active,
        league.start_ts,
    )
}

/// What closing a league does.
pub open spec fn close_league_outcome(league: LeagueView, user: Key, now: i64) -> Result<
    LeagueView,
    ErrorCode,
> {
    advance_outcome(league, user, now, LeagueStatus::Active, LeagueStatus::Closed, league.end_ts)
}

/// Starts a pending league. Before its start time only its creator may.
///
/// On failure the league is untouched.
pub fn start_league(league: &mut League, user: Key, now: i64) -> (r: Result<(), ErrorCode>)
    ensures
        match r {
            Ok(_) => start_league_outcome(old(league)@, user, now) == Ok::<LeagueView, ErrorCode>(
                final(league)@,
            ),
            Err(e) => start_league_outcome(old(league)@, user, now) == Err::<LeagueView, ErrorCode>(
                e,
            ) && *final(league) == *old(league),
        },
{
    if league.status != LeagueStatus::Pending {
        return Err(ErrorCode::InvalidStatus);
    }
    if now < league.start_ts && !(user == league.creator) {
        return Err(ErrorCode::NotCreator);
    }
    league.status = LeagueStatus::Active;
    Ok(())
}

/// Closes an active league. Before its end time only its creator may.
///
/// On failure the league is untouched.
pub fn close_league(league: &mut League, user: Key, now: i64) -> (r: Result<(), ErrorCode>)
    ensures
        match r {
            Ok(_) => close_league_outcome(old(league)@, user, now) == Ok::<LeagueView, ErrorCode>(
                final(league)@,
            ),
            Err(e) => close_league_outcome(old(league)@, user, now) == Err::<LeagueView, ErrorCode>(
                e,
            ) && *final(league) == *old(league),
        },
{
    if league.status != LeagueStatus::Active {
        return Err(ErrorCode::InvalidStatus);
    }
    if now < league.end_ts && !(user == league.creator) {
        return Err(ErrorCode::NotCreator);
    }
    league.status = LeagueStatus::Closed;
    Ok(())
}

} // verus!
