use tdf::errors::ErrorCode;
use tdf::key::Key;
use tdf::position::{decrease_position_size, increase_position_size, open_position, remove_key};
use tdf::state::{Direction, League, LeagueStatus, Market, Participant, Position};

fn key(n: u8) -> Key {
    Key::new([n; 32])
}

fn feed(price: i64) -> Vec<u8> {
    let mut data = vec![0u8; 8];
    data.extend_from_slice(&price.to_le_bytes());
    data.extend_from_slice(&0i64.to_le_bytes());
    data.extend_from_slice(&[0u8; 32]);
    data.push(255);
    data
}

fn league(status: LeagueStatus) -> League {
    League {
        creator: key(1),
        markets: vec![key(30)],
        start_ts: 100,
        end_ts: 200,
        nonce: 0,
        entry_token_mint: key(2),
        entry_amount: 10,
        reward_vault: key(3),
        metadata_uri: String::from("uri"),
        status,
        max_participants: 100,
        virtual_on_deposit: 10_000,
        max_leverage: 20,
        total_reward_amount: 0,
        bump: 255,
    }
}

fn market(decimals: u8) -> Market {
    Market {
        symbol: *b"SOL/USDC\0\0\0\0\0\0\0\0",
        oracle_feed: key(40),
        base_currency: key(2),
        decimals,
        listed_by: key(1),
        is_active: true,
        created_at: 50,
        max_leverage: 20,
        bump: 254,
    }
}

fn participant(balance: i64) -> Participant {
    Participant {
        league: key(10),
        user: key(20),
        claimed: false,
        virtual_balance: balance,
        unrealized_pnl: 0,
        used_margin: 0,
        total_volume: 0,
        topk_equity_index: 0xFFFF,
        topk_volume_index: 0xFFFF,
        current_position_seq: 0,
        positions: Vec::new(),
        bump: 253,
    }
}

fn open(
    l: &League,
    m: &Market,
    p: &mut Participant,
    price: i64,
    direction: Direction,
    size: i64,
    leverage: u8,
    seq: u64,
) -> Result<Position, ErrorCode> {
    open_position(
        l,
        key(10),
        m,
        key(30),
        p,
        key(20),
        key(50 + seq as u8),
        252,
        key(40),
        &feed(price),
        direction,
        size,
        leverage,
        seq,
        1234,
    )
}

#[test]
fn opening_with_too_little_margin_fails() {
    let l = league(LeagueStatus::Active);
    let m = market(6);
    let mut p = participant(300);
    let before = p.clone();
    let r = open(&l, &m, &mut p, 2_000000, Direction::Long, 1000, 5, 0);
    assert_eq!(r, Err(ErrorCode::InsufficientMargin));
    assert_eq!(p, before);
}

#[test]
fn opening_with_enough_margin_locks_it() {
    let l = league(LeagueStatus::Active);
    let m = market(6);
    let mut p = participant(500);
    p.used_margin = 0;
    let position = open(&l, &m, &mut p, 2_000000, Direction::Long, 1000, 5, 0).unwrap();
    assert_eq!(p.used_margin, 400);
    assert_eq!(p.total_volume, 2000);
    assert_eq!(p.current_position_seq, 1);
    assert_eq!(p.positions, vec![key(50)]);
    assert_eq!(p.virtual_balance, 500);
    assert_eq!(p.unrealized_pnl, 0);
    assert_eq!(
        position,
        Position {
            league: key(10),
            user: key(20),
            market: key(30),
            market_decimals: 6,
            oracle_feed: key(40),
            seq_num: 0,
            direction: Direction::Long,
            entry_price: 2_000000,
            entry_size: 1000,
            leverage: 5,
            size: 1000,
            notional: 2000,
            unrealized_pnl: 0,
            opened_at: 1234,
            closed_at: 0,
            closed_size: 0,
            closed_price: 0,
            closed_equity: 0,
            closed_pnl: 0,
            bump: 252,
        }
    );
}

#[test]
fn opening_with_exactly_the_margin_succeeds() {
    let l = league(LeagueStatus::Active);
    let m = market(6);
    let mut p = participant(400);
    assert!(open(&l, &m, &mut p, 2_000000, Direction::Short, 1000, 5, 0).is_ok());
    assert_eq!(p.used_margin, 400);
    let mut q = participant(399);
    assert_eq!(
        open(&l, &m, &mut q, 2_000000, Direction::Short, 1000, 5, 0),
        Err(ErrorCode::InsufficientMargin)
    );
}

#[test]
fn margin_in_use_counts_against_a_new_position() {
    let l = league(LeagueStatus::Active);
    let m = market(6);
    let mut p = participant(700);
    open(&l, &m, &mut p, 2_000000, Direction::Long, 1000, 5, 0).unwrap();
    let before = p.clone();
    assert_eq!(
        open(&l, &m, &mut p, 2_000000, Direction::Long, 1000, 5, 1),
        Err(ErrorCode::InsufficientMargin)
    );
    assert_eq!(p, before);
}

#[test]
fn opening_is_refused_in_order() {
    let m = market(6);
    let mut p = participant(10_000);
    let before = p.clone();
    let pending = league(LeagueStatus::Pending);
    assert_eq!(
        open(&pending, &m, &mut p, 2_000000, Direction::Long, 1000, 21, 7),
        Err(ErrorCode::LeagueNotActive)
    );
    let l = league(LeagueStatus::Active);
    assert_eq!(
        open(&l, &m, &mut p, 2_000000, Direction::Long, 1000, 21, 7),
        Err(ErrorCode::InvalidLeverage)
    );
    assert_eq!(
        open(&l, &m, &mut p, 2_000000, Direction::Long, 1000, 20, 7),
        Err(ErrorCode::InvalidPositionSequence)
    );
    assert_eq!(
        open(&l, &m, &mut p, 0, Direction::Long, 1000, 20, 0),
        Err(ErrorCode::InvalidPrice)
    );
    assert_eq!(
        open(&l, &m, &mut p, 2_000000, Direction::Long, 0, 20, 0),
        Err(ErrorCode::InvalidPositionSize)
    );
    assert_eq!(
        open(&l, &m, &mut p, 2_000000, Direction::Long, -5, 20, 0),
        Err(ErrorCode::InvalidPositionSize)
    );
    assert_eq!(
        open(&l, &m, &mut p, 2_000000, Direction::Long, 1000, 0, 0),
        Err(ErrorCode::MathOverflow)
    );
    assert_eq!(
        open(&l, &m, &mut p, i64::MAX, Direction::Long, i64::MAX, 1, 0),
        Err(ErrorCode::MathOverflow)
    );
    assert_eq!(p, before);
}

#[test]
fn opening_against_another_oracle_is_refused() {
    let l = league(LeagueStatus::Active);
    let m = market(6);
    let mut p = participant(10_000);
    let r = open_position(
        &l,
        key(10),
        &m,
        key(30),
        &mut p,
        key(20),
        key(50),
        252,
        key(41),
        &feed(2_000000),
        Direction::Long,
        1000,
        5,
        0,
        1234,
    );
    assert_eq!(r, Err(ErrorCode::OracleMismatch));
}

#[test]
fn an_eleventh_position_is_refused() {
    let l = league(LeagueStatus::Active);
    let m = market(6);
    let mut p = participant(1_000_000);
    for seq in 0..10u64 {
        open(&l, &m, &mut p, 2_000000, Direction::Long, 10, 5, seq).unwrap();
    }
    assert_eq!(p.positions.len(), 10);
    let before = p.clone();
    assert_eq!(
        open(&l, &m, &mut p, 2_000000, Direction::Long, 10, 5, 10),
        Err(ErrorCode::MaxOpenPositionExceeded)
    );
    assert_eq!(p, before);
}

#[test]
fn increasing_averages_the_entry_price() {
    let l = league(LeagueStatus::Active);
    let m = market(6);
    let mut p = participant(10_000);
    let mut position = open(&l, &m, &mut p, 2_000000, Direction::Long, 1000, 5, 0).unwrap();
    increase_position_size(&l, &m, &mut p, &mut position, key(40), &feed(3_000000), 1000)
        .unwrap();
    assert_eq!(position.entry_size, 2000);
    assert_eq!(position.entry_price, 2);
    assert_eq!(position.size, 2000);
    assert_eq!(position.notional, 5000);
    assert_eq!(position.unrealized_pnl, 1000);
    assert_eq!(p.used_margin, 1000);
    assert_eq!(p.total_volume, 5000);
    assert_eq!(p.unrealized_pnl, 1000);
    assert_eq!(p.virtual_balance, 10_000);
    assert_eq!(p.positions, vec![key(50)]);
}

#[test]
fn entry_price_without_decimals_is_the_weighted_average_of_two_fills() {
    let l = league(LeagueStatus::Active);
    let m = market(0);
    let mut p = participant(1_000_000);
    let mut position = open(&l, &m, &mut p, 100, Direction::Long, 3, 1, 0).unwrap();
    increase_position_size(&l, &m, &mut p, &mut position, key(40), &feed(200), 1).unwrap();
    assert_eq!(position.entry_price, 125);
    assert_eq!(position.entry_size, 4);
    let mut q = participant(1_000_000);
    let mut other = open(&l, &m, &mut q, 100, Direction::Short, 2, 1, 0).unwrap();
    increase_position_size(&l, &m, &mut q, &mut other, key(40), &feed(201), 1).unwrap();
    assert_eq!(other.entry_price, 133);
    assert!(other.entry_price * 3 <= 100 * 2 + 201);
    assert!(100 * 2 + 201 < (other.entry_price + 1) * 3);
}

#[test]
fn increasing_is_refused_without_a_change() {
    let l = league(LeagueStatus::Active);
    let m = market(6);
    let mut p = participant(500);
    let mut position = open(&l, &m, &mut p, 2_000000, Direction::Long, 1000, 5, 0).unwrap();
    let p_before = p.clone();
    let position_before = position;
    assert_eq!(
        increase_position_size(&l, &m, &mut p, &mut position, key(40), &feed(2_000000), 1000),
        Err(ErrorCode::InsufficientMargin)
    );
    assert_eq!(
        increase_position_size(&l, &m, &mut p, &mut position, key(41), &feed(2_000000), 1),
        Err(ErrorCode::OracleMismatch)
    );
    assert_eq!(
        increase_position_size(&l, &m, &mut p, &mut position, key(40), &feed(-1), 1),
        Err(ErrorCode::InvalidPrice)
    );
    assert_eq!(
        increase_position_size(&l, &m, &mut p, &mut position, key(40), &feed(2_000000), 0),
        Err(ErrorCode::InvalidPositionSize)
    );
    let closed = league(LeagueStatus::Closed);
    assert_eq!(
        increase_position_size(&closed, &m, &mut p, &mut position, key(40), &feed(2_000000), 1),
        Err(ErrorCode::LeagueNotActive)
    );
    assert_eq!(p, p_before);
    assert_eq!(position, position_before);
}

#[test]
fn decreasing_realizes_the_slice() {
    let l = league(LeagueStatus::Active);
    let m = market(6);
    let mut p = participant(10_000);
    let mut position = open(&l, &m, &mut p, 2_000000, Direction::Long, 1000, 5, 0).unwrap();
    decrease_position_size(
        &l,
        &m,
        &mut p,
        &mut position,
        key(50),
        key(40),
        &feed(2_500000),
        400,
        5000,
    )
    .unwrap();
    assert_eq!(position.size, 600);
    assert_eq!(position.entry_size, 1000);
    assert_eq!(position.notional, 1200);
    assert_eq!(position.unrealized_pnl, 300);
    assert_eq!(position.closed_size, 400);
    assert_eq!(position.closed_equity, 1000);
    assert_eq!(position.closed_price, 2);
    assert_eq!(position.closed_pnl, 200);
    assert_eq!(position.closed_at, 0);
    assert_eq!(p.total_volume, 3000);
    assert_eq!(p.used_margin, 240);
    assert_eq!(p.virtual_balance, 10_200);
    assert_eq!(p.unrealized_pnl, 300);
    assert_eq!(p.positions, vec![key(50)]);
}

#[test]
fn decreasing_a_short_at_a_higher_price_loses() {
    let l = league(LeagueStatus::Active);
    let m = market(6);
    let mut p = participant(10_000);
    let mut position = open(&l, &m, &mut p, 2_000000, Direction::Short, 1000, 5, 0).unwrap();
    decrease_position_size(
        &l,
        &m,
        &mut p,
        &mut position,
        key(50),
        key(40),
        &feed(2_500000),
        400,
        5000,
    )
    .unwrap();
    assert_eq!(position.closed_pnl, -200);
    assert_eq!(position.unrealized_pnl, -300);
    assert_eq!(p.virtual_balance, 9_800);
    assert_eq!(p.unrealized_pnl, -300);
}

#[test]
fn closing_in_full_ends_the_position() {
    let l = league(LeagueStatus::Active);
    let m = market(6);
    let mut p = participant(10_000);
    let mut first = open(&l, &m, &mut p, 2_000000, Direction::Long, 1000, 5, 0).unwrap();
    let _second = open(&l, &m, &mut p, 2_000000, Direction::Long, 10, 5, 1).unwrap();
    assert_eq!(p.positions, vec![key(50), key(51)]);
    decrease_position_size(
        &l,
        &m,
        &mut p,
        &mut first,
        key(50),
        key(40),
        &feed(2_000000),
        1000,
        5000,
    )
    .unwrap();
    assert_eq!(first.size, 0);
    assert_eq!(first.notional, 0);
    assert_eq!(first.unrealized_pnl, 0);
    assert_eq!(first.closed_size, 1000);
    assert_eq!(first.closed_at, 5000);
    assert_eq!(first.closed_pnl, 0);
    assert_eq!(p.positions, vec![key(51)]);
    assert_eq!(p.used_margin, 4);
    assert_eq!(p.virtual_balance, 10_000);
    assert_eq!(p.current_position_seq, 2);
}

#[test]
fn decreasing_is_refused_without_a_change() {
    let l = league(LeagueStatus::Active);
    let m = market(6);
    let mut p = participant(10_000);
    let mut position = open(&l, &m, &mut p, 2_000000, Direction::Long, 1000, 5, 0).unwrap();
    let p_before = p.clone();
    let position_before = position;
    let mut run = |league: &League, oracle: Key, price: i64, size: i64| {
        decrease_position_size(
            league,
            &m,
            &mut p,
            &mut position,
            key(50),
            oracle,
            &feed(price),
            size,
            5000,
        )
    };
    assert_eq!(run(&l, key(40), 2_000000, 1001), Err(ErrorCode::InvalidReduceSize));
    assert_eq!(run(&l, key(40), 2_000000, 0), Err(ErrorCode::InvalidPositionSize));
    assert_eq!(run(&l, key(40), 2_000000, -1), Err(ErrorCode::InvalidPositionSize));
    assert_eq!(run(&l, key(40), 0, 10), Err(ErrorCode::InvalidPrice));
    assert_eq!(run(&l, key(41), 2_000000, 10), Err(ErrorCode::OracleMismatch));
    let pending = league(LeagueStatus::Pending);
    assert_eq!(run(&pending, key(40), 2_000000, 10), Err(ErrorCode::LeagueNotActive));
    assert_eq!(run(&pending, key(40), 0, 0), Err(ErrorCode::InvalidPrice));
    assert_eq!(p, p_before);
    assert_eq!(position, position_before);
}

#[test]
fn size_opened_is_size_open_and_size_closed() {
    let l = league(LeagueStatus::Active);
    let m = market(6);
    let mut p = participant(1_000_000);
    let mut position = open(&l, &m, &mut p, 2_000000, Direction::Long, 1000, 5, 0).unwrap();
    increase_position_size(&l, &m, &mut p, &mut position, key(40), &feed(2_000000), 500)
        .unwrap();
    decrease_position_size(
        &l,
        &m,
        &mut p,
        &mut position,
        key(50),
        key(40),
        &feed(2_000000),
        700,
        1,
    )
    .unwrap();
    assert_eq!(position.entry_size, 1500);
    assert_eq!(position.size, 800);
    assert_eq!(position.closed_size, 700);
    assert_eq!(position.entry_size, position.size + position.closed_size);
}

#[test]
fn removing_a_key_keeps_the_order_of_the_rest() {
    assert_eq!(remove_key(&vec![key(1), key(2), key(3)], key(2)), vec![key(1), key(3)]);
    assert_eq!(remove_key(&vec![key(2), key(1), key(2)], key(2)), vec![key(1)]);
    assert_eq!(remove_key(&vec![key(1)], key(2)), vec![key(1)]);
    assert_eq!(remove_key(&Vec::new(), key(2)), Vec::<Key>::new());
}

#[test]
fn entry_price_after_two_increases_is_within_two_of_the_average() {
    let l = league(LeagueStatus::Active);
    let m = market(0);
    let mut p = participant(1_000_000);
    let mut position = open(&l, &m, &mut p, 100, Direction::Long, 3, 1, 0).unwrap();
    increase_position_size(&l, &m, &mut p, &mut position, key(40), &feed(201), 2).unwrap();
    assert_eq!(position.entry_price, 140);
    increase_position_size(&l, &m, &mut p, &mut position, key(40), &feed(50), 2).unwrap();
    assert_eq!(position.entry_size, 7);
    assert_eq!(position.entry_price, 114);
    let bought = 100 * 3 + 201 * 2 + 50 * 2;
    assert!(position.entry_price * 7 <= bought);
    assert!(bought - 2 * 7 < position.entry_price * 7);
}

#[test]
fn entry_price_in_a_scaled_market_is_in_notional_per_unit() {
    let l = league(LeagueStatus::Active);
    let m = market(6);
    let mut p = participant(1_000_000);
    let mut position = open(&l, &m, &mut p, 2_000000, Direction::Long, 1000, 5, 0).unwrap();
    increase_position_size(&l, &m, &mut p, &mut position, key(40), &feed(2_000000), 1000)
        .unwrap();
    assert_eq!(position.entry_price, 2);
    assert_eq!(position.notional, 4000);
}

#[test]
fn available_balance_is_not_negative_after_opening() {
    let l = league(LeagueStatus::Active);
    let m = market(6);
    for balance in [400i64, 401, 1000] {
        let mut p = participant(balance);
        open(&l, &m, &mut p, 2_000000, Direction::Long, 1000, 5, 0).unwrap();
        assert_eq!(p.available_balance(), Ok(balance - 400));
    }
}
