use crate::errors::ErrorCode;
use crate::key::Key;
use crate::margin::narrow;
use vstd::prelude::*;

verus! {

/// The most positions that one participant may hold open at a time.
pub const MAX_OPEN_POSITIONS: usize = 10;

/// The most markets that one league may trade.
pub const MAX_MARKETS: usize = 10;

/// What a participant's rank fields hold while the participant is not ranked.
pub const NOT_RANKED: u16 = 0xFFFF;

/// The settings that every league shares.
#[derive(Clone, Copy, Debug, PartialEq, Eq)]
pub struct GlobalState {
    pub admin: Key,
    pub fee_bps: u16,
    pub treasury: Key,
    pub permission_program: Key,
    pub bump: u8,
}

/// A market that leagues may trade, bound to the oracle feed that prices it.
#[derive(Clone, Copy, Debug, PartialEq, Eq)]
pub struct Market {
    pub symbol: [u8; 16],
    pub oracle_feed: Key,
    pub base_currency: Key,
    pub decimals: u8,
    pub listed_by: Key,
    pub is_active: bool,
    pub created_at: i64,
    pub max_leverage: u8,
    pub bump: u8,
}

/// Where a league stands in its life. It only ever moves forward:
/// pending, active, closed, finalized.
#[derive(Clone, Copy, Debug, PartialEq, Eq, Structural)]
pub enum LeagueStatus {
    Pending,
    Active,
    Closed,
    Finalized,
}

/// A trading competition: who made it, what it trades, when it runs, what it
/// costs to enter and what it pays out.
#[derive(Clone, Debug, PartialEq, Eq)]
pub struct League {
    pub creator: Key,
    pub markets: Vec<Key>,
    pub start_ts: i64,
    pub end_ts: i64,
    pub nonce: u8,
    pub entry_token_mint: Key,
    pub entry_amount: i64,
    pub reward_vault: Key,
    pub metadata_uri: String,
    pub status: LeagueStatus,
    pub max_participants: u32,
    pub virtual_on_deposit: i64,
    pub max_leverage: u8,
    pub total_reward_amount: u64,
    pub bump: u8,
}

/// A league as a mathematical value.
pub struct LeagueView {
    pub creator: Key,
    pub markets: Seq<Key>,
    pub start_ts: i64,
    pub end_ts: i64,
    pub nonce: u8,
    pub entry_token_mint: Key,
    pub entry_amount: i64,
    pub reward_vault: Key,
    pub metadata_uri: Seq<char>,
    pub status: LeagueStatus,
    pub max_participants: u32,
    pub virtual_on_deposit: i64,
    pub max_leverage: u8,
    pub total_reward_amount: u64,
    pub bump: u8,
}

impl View for League {
    type V = LeagueView;

    open spec fn view(&self) -> LeagueView {
        LeagueView {
            creator: self.creator,
            markets: self.markets@,
            start_ts: self.start_ts,
            end_ts: self.end_ts,
            nonce: self.nonce,
            entry_token_mint: self.entry_token_mint,
            entry_amount: self.entry_amount,
            reward_vault: self.reward_vault,
            metadata_uri: self.metadata_uri@,
            status: self.status,
            max_participants: self.max_participants,
            virtual_on_deposit: self.virtual_on_deposit,
            max_leverage: self.max_leverage,
            total_reward_amount: self.total_reward_amount,
            bump: self.bump,
        }
    }
}

impl LeagueView {
    /// A league trades at most ten markets.
    pub open spec fn wf(self) -> bool {
        self.markets.len() <= MAX_MARKETS
    }
}

/// One user's account in one league: the paper balance, what the open
/// positions lock and show, what has been traded, and which positions are open.
#[derive(Clone, Debug, PartialEq, Eq)]
pub struct Participant {
    pub league: Key,
    pub user: Key,
    pub claimed: bool,
    pub virtual_balance: i64,
    pub unrealized_pnl: i64,
    pub used_margin: i64,
    pub total_volume: i64,
    pub topk_equity_index: u16,
    pub topk_volume_index: u16,
    pub current_position_seq: u64,
    pub positions: Vec<Key>,
    pub bump: u8,
}

/// A participant as a mathematical value.
pub struct ParticipantView {
    pub league: Key,
    pub user: Key,
    pub claimed: bool,
    pub virtual_balance: i64,
    pub unrealized_pnl: i64,
    pub used_margin: i64,
    pub total_volume: i64,
    pub topk_equity_index: u16,
    pub topk_volume_index: u16,
    pub current_position_seq: u64,
    pub positions: Seq<Key>,
    pub bump: u8,
}

impl View for Participant {
    type V = ParticipantView;

    open spec fn view(&self) -> ParticipantView {
        ParticipantView {
            league: self.league,
            user: self.user,
            claimed: self.claimed,
            virtual_balance: self.virtual_balance,
            unrealized_pnl: self.unrealized_pnl,
            used_margin: self.used_margin,
            total_volume: self.total_volume,
            topk_equity_index: self.topk_equity_index,
            topk_volume_index: self.topk_volume_index,
            current_position_seq: self.current_position_seq,
            positions: self.positions@,
            bump: self.bump,
        }
    }
}

impl ParticipantView {
    /// A participant holds at most ten positions open.
    pub open spec fn wf(self) -> bool {
        self.positions.len() <= MAX_OPEN_POSITIONS
    }

    /// What the account is worth: the balance and what the open positions show.
    pub open spec fn equity(self) -> int {
        self.virtual_balance + self.unrealized_pnl
    }

    /// What is free to back a new position: the equity less the margin in use.
    pub open spec fn available_balance(self) -> int {
        self.equity() - self.used_margin
    }
}

impl Participant {
    /// The equity, `virtual_balance + unrealized_pnl`.
    ///
    /// Fails with `MathOverflow` where it does not fit.
    pub fn equity(&self) -> (r: Result<i64, ErrorCode>)
        ensures
            r == narrow(self@.equity()),
    {
        match self.virtual_balance.checked_add(self.unrealized_pnl) {
            Some(equity) => Ok(equity),
            None => Err(ErrorCode::MathOverflow),
        }
    }

    /// The available balance, `equity - used_margin`.
    ///
    /// Fails with `MathOverflow` where it does not fit.
    pub fn available_balance(&self) -> (r: Result<i64, ErrorCode>)
        ensures
            r == narrow(self@.available_balance()),
    {
        let wide: i128 = self.virtual_balance as i128 + self.unrealized_pnl as i128
            - self.used_margin as i128;
        if wide < i64::MIN as i128 || wide > i64::MAX as i128 {
            Err(ErrorCode::MathOverflow)
        } else {
            Ok(wide as i64)
        }
    }
}

/// The side of a trade. A long gains when the price rises, a short when it falls.
#[derive(Clone, Copy, Debug, PartialEq, Eq, Structural)]
pub enum Direction {
    Long,
    Short,
}

/// One leveraged position: what was bought or sold, at what average price,
/// what is left of it, and what has been closed so far.
#[derive(Clone, Copy, Debug, PartialEq, Eq)]
pub struct Position {
    pub league: Key,
    pub user: Key,
    pub market: Key,
    pub market_decimals: u8,
    pub oracle_feed: Key,
    pub seq_num: u64,
    pub direction: Direction,
    pub entry_price: i64,
    pub entry_size: i64,
    pub leverage: u8,
    pub size: i64,
    pub notional: i64,
    pub unrealized_pnl: i64,
    pub opened_at: i64,
    pub closed_at: i64,
    pub closed_size: i64,
    pub closed_price: i64,
    pub closed_equity: i64,
    pub closed_pnl: i64,
    pub bump: u8,
}

impl Position {
    /// No size is ever lost or made: what was opened in all is what is still
    /// open and what has been closed, and neither is negative.
    pub open spec fn wf(self) -> bool {
        &&& self.size >= 0
        &&& self.closed_size >= 0
        &&& self.entry_size == self.size + self.closed_size
    }

    /// A position is open while any of it is left.
    pub open spec fn is_open(self) -> bool {
        self.size > 0
    }
}

} // verus!
