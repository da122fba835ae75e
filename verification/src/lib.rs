//! Accounting for leagues of leveraged paper trading: margin and profit
//! arithmetic, the life of a position, forced liquidation, the bounded
//! leaderboard and the shares of the reward pool.
pub mod errors;
pub mod key;
pub mod leaderboard;
pub mod league;
pub mod margin;
pub mod market;
pub mod oracle;
pub mod position;
pub mod refresh;
pub mod reward;
pub mod state;
pub mod vault;
