use vstd::prelude::*;

verus! {

/// Every way in which an operation of the league can be turned down.
///
/// An operation that returns one of these has changed nothing.
#[derive(Clone, Copy, Debug, PartialEq, Eq, Structural)]
pub enum ErrorCode {
    InvalidRewardVault,
    LeagueNotActive,
    LeagueNotClosed,
    LeagueNotFinalized,
    InsufficientEntryAmount,
    InvalidEntryTokenMint,
    InvalidUserEntryATA,
    InvalidMarketsLength,
    NotAdmin,
    MarketAlreadyExists,
    InvalidStatus,
    StartTimeNotReached,
    NotCreator,
    InvalidLeverage,
    InsufficientMargin,
    InvalidPositionSequence,
    PositionAlreadyExists,
    InvalidReduceSize,
    MaxOpenPositionExceeded,
    InvalidPositionSize,
    InvalidPrice,
    InvalidRefreshAccounts,
    PositionMismatch,
    OracleMismatch,
    MathOverflow,
    InvalidLeaderboardSizeLimit,
    AlreadyClaimed,
    NotInTopK,
    InvalidRewardAmount,
}

impl ErrorCode {
    /// The message that goes with the error, as a user is shown it.
    pub open spec fn message_of(self) -> Seq<char> {
        match self {
            ErrorCode::InvalidRewardVault => "Invalid reward vault address"@,
            ErrorCode::LeagueNotActive => "League is not active"@,
            ErrorCode::LeagueNotClosed => "League is not closed"@,
            ErrorCode::LeagueNotFinalized => "League is not finalized"@,
            ErrorCode::InsufficientEntryAmount => "Insufficient entry amount"@,
            ErrorCode::InvalidEntryTokenMint => "Invalid entry token mint"@,
            ErrorCode::InvalidUserEntryATA => "Invalid user entry ATA"@,
            ErrorCode::InvalidMarketsLength => "Invalid markets length"@,
            ErrorCode::NotAdmin => "Not admin"@,
            ErrorCode::MarketAlreadyExists => "Market already exists"@,
            ErrorCode::InvalidStatus => "Invalid status"@,
            ErrorCode::StartTimeNotReached => "Start time not reached"@,
            ErrorCode::NotCreator => "Not creator"@,
            ErrorCode::InvalidLeverage => "Invalid leverage"@,
            ErrorCode::InsufficientMargin => "Insufficient margin"@,
            ErrorCode::InvalidPositionSequence => "Invalid position sequence"@,
            ErrorCode::PositionAlreadyExists => "Position already exists"@,
            ErrorCode::InvalidReduceSize => "Invalid reduce size"@,
            ErrorCode::MaxOpenPositionExceeded => "Max open position exceeded"@,
            ErrorCode::InvalidPositionSize => "Invalid position size"@,
            ErrorCode::InvalidPrice => "Invalid price"@,
            ErrorCode::InvalidRefreshAccounts => "Invalid refresh accounts"@,
            ErrorCode::PositionMismatch => "Position mismatch"@,
            ErrorCode::OracleMismatch => "Oracle mismatch"@,
            ErrorCode::MathOverflow => "Math overflow"@,
            ErrorCode::InvalidLeaderboardSizeLimit => "Invalid leaderboard size limit"@,
            ErrorCode::AlreadyClaimed => "Already claimed"@,
            ErrorCode::NotInTopK => "Not in top k"@,
            ErrorCode::InvalidRewardAmount => "Invalid reward amount"@,
        }
    }

    /// The message that goes with the error.
    pub fn message(&self) -> (text: &'static str)
        ensures
            text@ == self.message_of(),
    {
        match self {
            ErrorCode::InvalidRewardVault => "Invalid reward vault address",
            ErrorCode::LeagueNotActive => "League is not active",
            ErrorCode::LeagueNotClosed => "League is not closed",
            ErrorCode::LeagueNotFinalized => "League is not finalized",
            ErrorCode::InsufficientEntryAmount => "Insufficient entry amount",
            ErrorCode::InvalidEntryTokenMint => "Invalid entry token mint",
            ErrorCode::InvalidUserEntryATA => "Invalid user entry ATA",
            ErrorCode::InvalidMarketsLength => "Invalid markets length",
            ErrorCode::NotAdmin => "Not admin",
            ErrorCode::MarketAlreadyExists => "Market already exists",
            ErrorCode::InvalidStatus => "Invalid status",
            ErrorCode::StartTimeNotReached => "Start time not reached",
            ErrorCode::NotCreator => "Not creator",
            ErrorCode::InvalidLeverage => "Invalid leverage",
            ErrorCode::InsufficientMargin => "Insufficient margin",
            ErrorCode::InvalidPositionSequence => "Invalid position sequence",
            ErrorCode::PositionAlreadyExists => "Position already exists",
            ErrorCode::InvalidReduceSize => "Invalid reduce size",
            ErrorCode::MaxOpenPositionExceeded => "Max open position exceeded",
            ErrorCode::InvalidPositionSize => "Invalid position size",
            ErrorCode::InvalidPrice => "Invalid price",
            ErrorCode::InvalidRefreshAccounts => "Invalid refresh accounts",
            ErrorCode::PositionMismatch => "Position mismatch",
            ErrorCode::OracleMismatch => "Oracle mismatch",
            ErrorCode::MathOverflow => "Math overflow",
            ErrorCode::InvalidLeaderboardSizeLimit => "Invalid leaderboard size limit",
            ErrorCode::AlreadyClaimed => "Already claimed",
            ErrorCode::NotInTopK => "Not in top k",
            ErrorCode::InvalidRewardAmount => "Invalid reward amount",
        }
    }
}

} // verus!
