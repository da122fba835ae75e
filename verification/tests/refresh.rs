use tdf::errors::ErrorCode;
use tdf::key::Key;
use tdf::leaderboard::Leaderboard;
use tdf::refresh::{check_refresh_accounts, refresh_participant, OracleAccount, PositionAccount};
use tdf::state::{Direction, Participant, Position};

fn key(n: u8) -> Key {
    Key::new([n; 32])
}

fn oracle(at: u8, price: i64) -> OracleAccount {
    let mut data = vec![0u8; 8];
    data.extend_from_slice(&price.to_le_bytes());
    data.extend_from_slice(&0i64.to_le_bytes());
    data.extend_from_slice(&[0u8; 32]);
    data.push(255);
    OracleAccount { key: key(at), data }
}

fn position(seq: u8, direction: Direction, size: i64, notional: i64, leverage: u8) -> Position {
    Position {
        league: key(10),
        user: key(20),
        market: key(30),
        market_decimals: 6,
        oracle_feed: key(40),
        seq_num: seq as u64,
        direction,
        entry_price: 2_000000,
        entry_size: size,
        leverage,
        size,
        notional,
        unrealized_pnl: 0,
        opened_at: 1,
        closed_at: 0,
        closed_size: 0,
        closed_price: 0,
        closed_equity: 0,
        closed_pnl: 0,
        bump: 252,
    }
}

fn account(seq: u8, direction: Direction, size: i64, notional: i64) -> PositionAccount {
    PositionAccount { key: key(50 + seq), position: position(seq, direction, size, notional, 5) }
}

fn participant(balance: i64, open: &[u8]) -> Participant {
    Participant {
        league: key(10),
        user: key(20),
        claimed: false,
        virtual_balance: balance,
        unrealized_pnl: 0,
        used_margin: 12345,
        total_volume: 2000,
        topk_equity_index: 0xFFFF,
        topk_volume_index: 0xFFFF,
        current_position_seq: open.len() as u64,
        positions: open.iter().map(|seq| key(50 + seq)).collect(),
        bump: 253,
    }
}

#[test]
fn refresh_with_the_wrong_number_of_accounts_fails_and_changes_nothing() {
    let mut p = participant(1000, &[0]);
    let mut board = Leaderboard::new(key(10), 3, 0).unwrap();
    let p_before = p.clone();
    let board_before = board.clone();
    let mut accounts = vec![account(0, Direction::Long, 1000, 2000)];
    let accounts_before = accounts.clone();
    let no_oracles: Vec<OracleAccount> = Vec::new();
    assert_eq!(
        refresh_participant(&mut p, key(99), &mut board, &mut accounts, &no_oracles, 7),
        Err(ErrorCode::InvalidRefreshAccounts)
    );
    let two_oracles = vec![oracle(40, 1_000000), oracle(40, 1_000000)];
    assert_eq!(
        refresh_participant(&mut p, key(99), &mut board, &mut accounts, &two_oracles, 7),
        Err(ErrorCode::InvalidRefreshAccounts)
    );
    let mut none: Vec<PositionAccount> = Vec::new();
    assert_eq!(
        refresh_participant(&mut p, key(99), &mut board, &mut none, &no_oracles, 7),
        Err(ErrorCode::InvalidRefreshAccounts)
    );
    let mut two = vec![account(0, Direction::Long, 1000, 2000); 2];
    assert_eq!(
        refresh_participant(&mut p, key(99), &mut board, &mut two, &two_oracles, 7),
        Err(ErrorCode::InvalidRefreshAccounts)
    );
    assert_eq!(p, p_before);
    assert_eq!(board, board_before);
    assert_eq!(accounts, accounts_before);
}

#[test]
fn number_of_accounts_is_twice_the_open_positions() {
    let p = participant(1000, &[0, 1, 2]);
    assert_eq!(check_refresh_accounts(&p, 6), Ok(()));
    for wrong in [0usize, 1, 3, 5, 7, 12] {
        assert_eq!(check_refresh_accounts(&p, wrong), Err(ErrorCode::InvalidRefreshAccounts));
    }
    let none = participant(1000, &[]);
    assert_eq!(check_refresh_accounts(&none, 0), Ok(()));
    assert_eq!(check_refresh_accounts(&none, 1), Err(ErrorCode::InvalidRefreshAccounts));
}

#[test]
fn refresh_marks_positions_to_market() {
    let mut p = participant(1000, &[0, 1]);
    let mut board = Leaderboard::new(key(10), 3, 0).unwrap();
    let mut accounts =
        vec![account(0, Direction::Long, 1000, 2000), account(1, Direction::Short, 100, 200)];
    let oracles = vec![oracle(40, 2_500000), oracle(40, 3_000000)];
    assert_eq!(
        refresh_participant(&mut p, key(99), &mut board, &mut accounts, &oracles, 7),
        Ok(())
    );
    assert_eq!(accounts[0].position.unrealized_pnl, 500);
    assert_eq!(accounts[1].position.unrealized_pnl, -100);
    assert_eq!(accounts[0].position.size, 1000);
    assert_eq!(accounts[1].position.size, 100);
    assert_eq!(accounts[0].key, key(50));
    assert_eq!(p.unrealized_pnl, 400);
    assert_eq!(p.used_margin, 440);
    assert_eq!(p.virtual_balance, 1000);
    assert_eq!(p.total_volume, 2000);
    assert_eq!(p.positions, vec![key(50), key(51)]);
    assert_eq!(board.topk_equity, vec![key(99)]);
    assert_eq!(board.topk_equity_scores, vec![1400]);
    assert_eq!(board.topk_volume, vec![key(99)]);
    assert_eq!(board.topk_volume_scores, vec![2000]);
    assert_eq!(board.last_updated, 7);
}

#[test]
fn equity_of_zero_does_not_liquidate() {
    let mut p = participant(1000, &[0]);
    let mut board = Leaderboard::new(key(10), 3, 0).unwrap();
    let mut accounts = vec![account(0, Direction::Long, 1000, 2000)];
    let oracles = vec![oracle(40, 1_000000)];
    assert_eq!(
        refresh_participant(&mut p, key(99), &mut board, &mut accounts, &oracles, 7),
        Ok(())
    );
    assert_eq!(p.unrealized_pnl, -1000);
    assert_eq!(p.virtual_balance, 1000);
    assert_eq!(p.used_margin, 400);
    assert_eq!(p.positions, vec![key(50)]);
    assert_eq!(accounts[0].position.size, 1000);
    assert_eq!(accounts[0].position.notional, 2000);
    assert_eq!(accounts[0].position.unrealized_pnl, -1000);
    assert_eq!(accounts[0].position.closed_at, 0);
    assert_eq!(board.topk_equity_scores, vec![0]);
}

#[test]
fn equity_below_zero_liquidates_everything() {
    let mut p = participant(999, &[0, 1]);
    let mut board = Leaderboard::new(key(10), 3, 0).unwrap();
    let mut closed = account(1, Direction::Long, 0, 0);
    closed.position.closed_size = 5;
    closed.position.entry_size = 5;
    let closed_before = closed;
    let mut accounts = vec![account(0, Direction::Long, 1000, 2000), closed];
    let oracles = vec![oracle(40, 1_000000), oracle(77, 0)];
    assert_eq!(
        refresh_participant(&mut p, key(99), &mut board, &mut accounts, &oracles, 7),
        Ok(())
    );
    let unwound = accounts[0].position;
    assert_eq!(unwound.size, 0);
    assert_eq!(unwound.notional, 0);
    assert_eq!(unwound.unrealized_pnl, 0);
    assert_eq!(unwound.closed_size, 1000);
    assert_eq!(unwound.closed_equity, 1000);
    assert_eq!(unwound.closed_price, 1);
    assert_eq!(unwound.closed_pnl, -1000);
    assert_eq!(unwound.closed_at, 7);
    assert_eq!(unwound.entry_size, 1000);
    assert_eq!(accounts[1], closed_before);
    assert!(p.positions.is_empty());
    assert_eq!(p.unrealized_pnl, 0);
    assert_eq!(p.used_margin, 0);
    assert_eq!(p.virtual_balance, -1);
    assert_eq!(p.total_volume, 3000);
    assert_eq!(board.topk_equity, vec![key(99)]);
    assert_eq!(board.topk_equity_scores, vec![-1]);
    assert_eq!(board.topk_volume_scores, vec![3000]);
    assert_eq!(board.last_updated, 7);
}

#[test]
fn refresh_without_positions_reports_the_balance() {
    let mut p = participant(-5, &[]);
    let mut board = Leaderboard::new(key(10), 3, 0).unwrap();
    let mut accounts: Vec<PositionAccount> = Vec::new();
    assert_eq!(
        refresh_participant(&mut p, key(99), &mut board, &mut accounts, &Vec::new(), 7),
        Ok(())
    );
    assert_eq!(p.virtual_balance, -5);
    assert_eq!(p.used_margin, 0);
    assert_eq!(board.topk_equity_scores, vec![-5]);
}

#[test]
fn refresh_checks_each_record_in_turn() {
    let mut board = Leaderboard::new(key(10), 3, 0).unwrap();
    let board_before = board.clone();
    let mut p = participant(1000, &[0, 1]);
    let p_before = p.clone();

    let mut wrong_place =
        vec![account(0, Direction::Long, 1000, 2000), account(2, Direction::Long, 1000, 2000)];
    let before = wrong_place.clone();
    let oracles = vec![oracle(40, 2_500000), oracle(40, 2_500000)];
    assert_eq!(
        refresh_participant(&mut p, key(99), &mut board, &mut wrong_place, &oracles, 7),
        Err(ErrorCode::PositionMismatch)
    );
    assert_eq!(wrong_place, before);

    let mut accounts =
        vec![account(0, Direction::Long, 1000, 2000), account(1, Direction::Long, 1000, 2000)];
    let before = accounts.clone();
    let wrong_oracle = vec![oracle(40, 2_500000), oracle(41, 2_500000)];
    assert_eq!(
        refresh_participant(&mut p, key(99), &mut board, &mut accounts, &wrong_oracle, 7),
        Err(ErrorCode::OracleMismatch)
    );
    let no_price = vec![oracle(40, 2_500000), oracle(40, 0)];
    assert_eq!(
        refresh_participant(&mut p, key(99), &mut board, &mut accounts, &no_price, 7),
        Err(ErrorCode::InvalidPrice)
    );
    let first_fails = vec![oracle(41, 0), oracle(40, 0)];
    assert_eq!(
        refresh_participant(&mut p, key(99), &mut board, &mut accounts, &first_fails, 7),
        Err(ErrorCode::OracleMismatch)
    );
    accounts[1].position.leverage = 0;
    let before_zero = accounts.clone();
    assert_eq!(
        refresh_participant(&mut p, key(99), &mut board, &mut accounts, &oracles, 7),
        Err(ErrorCode::MathOverflow)
    );
    assert_eq!(accounts, before_zero);
    accounts[1].position.leverage = 5;
    assert_eq!(accounts, before);
    assert_eq!(p, p_before);
    assert_eq!(board, board_before);
}

#[test]
fn liquidation_that_overflows_changes_nothing() {
    let mut p = participant(-1, &[0]);
    p.total_volume = i64::MAX;
    let p_before = p.clone();
    let mut board = Leaderboard::new(key(10), 3, 0).unwrap();
    let board_before = board.clone();
    let mut accounts = vec![account(0, Direction::Long, 1000, 2000)];
    let before = accounts.clone();
    let oracles = vec![oracle(40, 2_000000)];
    assert_eq!(
        refresh_participant(&mut p, key(99), &mut board, &mut accounts, &oracles, 7),
        Err(ErrorCode::MathOverflow)
    );
    assert_eq!(p, p_before);
    assert_eq!(board, board_before);
    assert_eq!(accounts, before);
}

#[test]
fn refresh_keeps_the_leaderboard_ranked() {
    let mut board = Leaderboard::new(key(10), 2, 0).unwrap();
    for (who, balance) in [(1u8, 50i64), (2, 70), (3, 60), (1, 90)] {
        let mut p = participant(balance, &[]);
        p.total_volume = 1000 - balance;
        let mut accounts: Vec<PositionAccount> = Vec::new();
        assert_eq!(
            refresh_participant(&mut p, key(who), &mut board, &mut accounts, &Vec::new(), 9),
            Ok(())
        );
    }
    assert_eq!(board.topk_equity, vec![key(1), key(2)]);
    assert_eq!(board.topk_equity_scores, vec![90, 70]);
    assert_eq!(board.topk_volume, vec![key(3), key(1)]);
    assert_eq!(board.topk_volume_scores, vec![940, 910]);
}
