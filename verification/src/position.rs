use crate::errors::ErrorCode;
use crate::key::Key;
use crate::margin::{
    calculate_notional, calculate_price_from_notional_and_size, calculate_realized_pnl,
    calculate_unrealized_pnl, difference_of, fits, floor_div, notional, required_margin,
    scale_fits, sign_of, sum_of, unrealized_pnl, weighted_entry_price,
};
use crate::oracle::{checked_oracle_price, get_price_from_oracle};
use crate::state::{
    Direction, League, LeagueStatus, LeagueView, Market, Participant, ParticipantView, Position,
    MAX_OPEN_POSITIONS,
};
use vstd::prelude::*;

verus! {

/// The keys of a list without every occurrence of one key, in order.
pub open spec fn without(keys: Seq<Key>, key: Key) -> Seq<Key>
    decreases keys.len(),
{
    if keys.len() == 0 {
        Seq::empty()
    } else if keys.last() == key {
        without(keys.drop_last(), key)
    } else {
        without(keys.drop_last(), key).push(keys.last())
    }
}

/// Removing a key never makes a list longer.
pub proof fn lemma_without_len(keys: Seq<Key>, key: Key)
    ensures
        without(keys, key).len() <= keys.len(),
    decreases keys.len(),
{
    if keys.len() > 0 {
        lemma_without_len(keys.drop_last(), key);
    }
}

/// Why a request to open a position is turned down before any arithmetic, if it is.
pub open spec fn open_refusal(
    league: LeagueView,
    market: Market,
    participant: ParticipantView,
    oracle_feed: Key,
    oracle_data: Seq<u8>,
    size: i64,
    leverage: u8,
    seq_num: u64,
) -> Option<ErrorCode> {
    if league.status != LeagueStatus::Active {
        Some(ErrorCode::LeagueNotActive)
    } else if leverage > league.max_leverage {
        Some(ErrorCode::InvalidLeverage)
    } else if participant.positions.len() >= MAX_OPEN_POSITIONS {
        Some(ErrorCode::MaxOpenPositionExceeded)
    } else if seq_num != participant.current_position_seq {
        Some(ErrorCode::InvalidPositionSequence)
    } else if oracle_feed != market.oracle_feed {
        Some(ErrorCode::OracleMismatch)
    } else if checked_oracle_price(oracle_data) is Err {
        Some(ErrorCode::InvalidPrice)
    } else if size <= 0 {
        Some(ErrorCode::InvalidPositionSize)
    } else {
        None
    }
}

/// What opening a position does: the participant afterwards and the new
/// position, or the reason why nothing is opened.
///
/// The position takes the oracle's price as its entry price. Its notional is
/// added to the participant's volume and its margin to the margin in use; the
/// margin must be covered by the available balance as it stands before.
pub open spec fn open_position_outcome(
    league: LeagueView,
    league_key: Key,
    market: Market,
    market_key: Key,
    participant: ParticipantView,
    user: Key,
    position_key: Key,
    bump: u8,
    oracle_feed: Key,
    oracle_data: Seq<u8>,
    direction: Direction,
    size: i64,
    leverage: u8,
    seq_num: u64,
    now: i64,
) -> Result<(ParticipantView, Position), ErrorCode> {
    let refusal = open_refusal(
        league,
        market,
        participant,
        oracle_feed,
        oracle_data,
        size,
        leverage,
        seq_num,
    );
    let price = checked_oracle_price(oracle_data).unwrap();
    let value = notional(price as int, size as int, market.decimals as nat);
    let margin = value / (leverage as int);
    if refusal is Some {
        Err(refusal.unwrap())
    } else if !scale_fits(market.decimals as nat) || !fits(value) || leverage == 0 || !fits(
        participant.available_balance(),
    ) {
        Err(ErrorCode::MathOverflow)
    } else if participant.available_balance() < margin {
        Err(ErrorCode::InsufficientMargin)
    } else if !fits(participant.total_volume + value) || !fits(participant.used_margin + margin)
        || participant.current_position_seq == u64::MAX {
        Err(ErrorCode::MathOverflow)
    } else {
        Ok(
            (
                ParticipantView {
                    total_volume: (participant.total_volume + value) as i64,
                    used_margin: (participant.used_margin + margin) as i64,
                    current_position_seq: (participant.current_position_seq + 1) as u64,
                    positions: participant.positions.push(position_key),
                    ..participant
                },
                Position {
                    league: league_key,
                    user,
                    market: market_key,
                    market_decimals: market.decimals,
                    oracle_feed,
                    seq_num: participant.current_position_seq,
                    direction,
                    entry_price: price,
                    entry_size: size,
                    leverage,
                    size,
                    notional: value as i64,
                    unrealized_pnl: 0,
                    opened_at: now,
                    closed_at: 0,
                    closed_size: 0,
                    closed_price: 0,
                    closed_equity: 0,
                    closed_pnl: 0,
                    bump,
                },
            ),
        )
    }
}

/// Opens a position of `size` units at the oracle's price.
///
/// On success the new position is returned and the participant carries its
/// margin, its volume, its key and the next sequence number; its available
/// balance is still not negative. On failure the participant is untouched.
pub fn open_position(
    league: &League,
    league_key: Key,
    market: &Market,
    market_key: Key,
    participant: &mut Participant,
    user: Key,
    position_key: Key,
    bump: u8,
    oracle_feed: Key,
    oracle_data: &[u8],
    direction: Direction,
    size: i64,
    leverage: u8,
    seq_num: u64,
    now: i64,
) -> (r: Result<Position, ErrorCode>)
    ensures
        match r {
            Ok(position) => open_position_outcome(
                league@,
                league_key,
                *market,
                market_key,
                old(participant)@,
                user,
                position_key,
                bump,
                oracle_feed,
                oracle_data@,
                direction,
                size,
                leverage,
                seq_num,
                now,
            ) == Ok::<(ParticipantView, Position), ErrorCode>((final(participant)@, position))
                && position.wf() && position.is_open()
                && final(participant)@.available_balance() >= 0,
            Err(e) => open_position_outcome(
                league@,
                league_key,
                *market,
                market_key,
                old(participant)@,
                user,
                position_key,
                bump,
                oracle_feed,
                oracle_data@,
                direction,
                size,
                leverage,
                seq_num,
                now,
            ) == Err::<(ParticipantView, Position), ErrorCode>(e) && *final(participant) == *old(
                participant,
            ),
        },
        old(participant)@.wf() ==> final(participant)@.wf(),
{
    if league.status != LeagueStatus::Active {
        return Err(ErrorCode::LeagueNotActive);
    }
    if leverage > league.max_leverage {
        return Err(ErrorCode::InvalidLeverage);
    }
    if participant.positions.len() >= MAX_OPEN_POSITIONS {
        return Err(ErrorCode::MaxOpenPositionExceeded);
    }
    if seq_num != participant.current_position_seq {
        return Err(ErrorCode::InvalidPositionSequence);
    }
    if oracle_feed != market.oracle_feed {
        return Err(ErrorCode::OracleMismatch);
    }
    let current_price = get_price_from_oracle(oracle_data)?;
    if size <= 0 {
        return Err(ErrorCode::InvalidPositionSize);
    }
    let value = calculate_notional(current_price, size, market.decimals)?;
    let margin = required_margin(value, leverage)?;
    let available = participant.available_balance()?;
    if available < margin {
        return Err(ErrorCode::InsufficientMargin);
    }
    let total_volume = sum_of(participant.total_volume, value)?;
    let used_margin = sum_of(participant.used_margin, margin)?;
    let next_seq = match participant.current_position_seq.checked_add(1) {
        Some(next) => next,
        None => {
            return Err(ErrorCode::MathOverflow);
        },
    };
    let position = Position {
        league: league_key,
        user,
        market: market_key,
        market_decimals: market.decimals,
        oracle_feed,
        seq_num: participant.current_position_seq,
        direction,
        entry_price: current_price,
        entry_size: size,
        leverage,
        size,
        notional: value,
        unrealized_pnl: 0,
        opened_at: now,
        closed_at: 0,
        closed_size: 0,
        closed_price: 0,
        closed_equity: 0,
        closed_pnl: 0,
        bump,
    };
    participant.total_volume = total_volume;
    participant.used_margin = used_margin;
    participant.current_position_seq = next_seq;
    participant.positions.push(position_key);
    Ok(position)
}

/// Why a request to add to a position is turned down before any arithmetic, if it is.
pub open spec fn increase_refusal(
    league: LeagueView,
    market: Market,
    oracle_feed: Key,
    oracle_data: Seq<u8>,
    size: i64,
) -> Option<ErrorCode> {
    if league.status != LeagueStatus::Active {
        Some(ErrorCode::LeagueNotActive)
    } else if oracle_feed != market.oracle_feed {
        Some(ErrorCode::OracleMismatch)
    } else if checked_oracle_price(oracle_data) is Err {
        Some(ErrorCode::InvalidPrice)
    } else if size <= 0 {
        Some(ErrorCode::InvalidPositionSize)
    } else {
        None
    }
}

/// The position after `size` more units have been added at `price`.
///
/// The entry price becomes the average of the notional at entry over the
/// size at entry, old and new together; size and notional grow by the fill;
/// the unrealized profit is taken anew at `price`.
pub open spec fn increased(position: Position, decimals: nat, price: int, size: int) -> Position {
    let added = notional(price, size, decimals);
    let at_entry = notional(position.entry_price as int, position.entry_size as int, decimals);
    Position {
        entry_price: floor_div(at_entry + added, position.entry_size + size) as i64,
        entry_size: (position.entry_size + size) as i64,
        size: (position.size + size) as i64,
        notional: (position.notional + added) as i64,
        unrealized_pnl: unrealized_pnl(
            position.notional + added,
            price,
            position.size + size,
            decimals,
            position.direction,
        ) as i64,
        ..position
    }
}

/// Whether every value that adding to a position forms after the margin
/// check is in range.
pub open spec fn increase_fits(
    participant: ParticipantView,
    position: Position,
    decimals: nat,
    price: int,
    size: int,
) -> bool {
    let added = notional(price, size, decimals);
    let margin = added / (position.leverage as int);
    let at_entry = notional(position.entry_price as int, position.entry_size as int, decimals);
    let after = increased(position, decimals, price, size);
    &&& fits(at_entry)
    &&& fits(position.entry_size + size)
    &&& position.entry_size + size != 0
    &&& fits(floor_div(at_entry + added, position.entry_size + size))
    &&& fits(position.size + size)
    &&& fits(position.notional + added)
    &&& fits(
        unrealized_pnl(
            position.notional + added,
            price,
            position.size + size,
            decimals,
            position.direction,
        ),
    )
    &&& fits(participant.used_margin + margin)
    &&& fits(participant.total_volume + added)
    &&& fits(after.unrealized_pnl - position.unrealized_pnl)
    &&& fits(participant.unrealized_pnl + (after.unrealized_pnl - position.unrealized_pnl))
}

/// What adding to a position does: the participant and the position
/// afterwards, or the reason why nothing changes.
///
/// The margin of the fill must be covered by the available balance as it
/// stands before. The participant's unrealized profit moves by as much as the
/// position's does.
pub open spec fn increase_position_outcome(
    league: LeagueView,
    market: Market,
    participant: ParticipantView,
    position: Position,
    oracle_feed: Key,
    oracle_data: Seq<u8>,
    size: i64,
) -> Result<(ParticipantView, Position), ErrorCode> {
    let refusal = increase_refusal(league, market, oracle_feed, oracle_data, size);
    let price = checked_oracle_price(oracle_data).unwrap();
    let decimals = market.decimals as nat;
    let added = notional(price as int, size as int, decimals);
    let margin = added / (position.leverage as int);
    let after = increased(position, decimals, price as int, size as int);
    if refusal is Some {
        Err(refusal.unwrap())
    } else if !scale_fits(decimals) || !fits(added) || position.leverage == 0 || !fits(
        participant.available_balance(),
    ) {
        Err(ErrorCode::MathOverflow)
    } else if participant.available_balance() < margin {
        Err(ErrorCode::InsufficientMargin)
    } else if !increase_fits(participant, position, decimals, price as int, size as int) {
        Err(ErrorCode::MathOverflow)
    } else {
        Ok(
            (
                ParticipantView {
                    used_margin: (participant.used_margin + margin) as i64,
                    total_volume: (participant.total_volume + added) as i64,
                    unrealized_pnl: (participant.unrealized_pnl + (after.unrealized_pnl
                        - position.unrealized_pnl)) as i64,
                    ..participant
                },
                after,
            ),
        )
    }
}

/// Adds `size` units to a position at the oracle's price.
///
/// On failure neither the participant nor the position is touched.
pub fn increase_position_size(
    league: &League,
    market: &Market,
    participant: &mut Participant,
    position: &mut Position,
    oracle_feed: Key,
    oracle_data: &[u8],
    size: i64,
) -> (r: Result<(), ErrorCode>)
    ensures
        match r {
            Ok(_) => increase_position_outcome(
                league@,
                *market,
                old(participant)@,
                *old(position),
                oracle_feed,
                oracle_data@,
                size,
            ) == Ok::<(ParticipantView, Position), ErrorCode>(
                (final(participant)@, *final(position)),
            ),
            Err(e) => increase_position_outcome(
                league@,
                *market,
                old(participant)@,
                *old(position),
                oracle_feed,
                oracle_data@,
                size,
            ) == Err::<(ParticipantView, Position), ErrorCode>(e) && *final(participant) == *old(
                participant,
            ) && *final(position) == *old(position),
        },
        old(participant)@.wf() ==> final(participant)@.wf(),
        r is Ok && old(position).wf() ==> final(position).wf() && final(position).is_open(),
{
    if league.status != LeagueStatus::Active {
        return Err(ErrorCode::LeagueNotActive);
    }
    if oracle_feed != market.oracle_feed {
        return Err(ErrorCode::OracleMismatch);
    }
    let current_price = get_price_from_oracle(oracle_data)?;
    if size <= 0 {
        return Err(ErrorCode::InvalidPositionSize);
    }
    let added = calculate_notional(current_price, size, market.decimals)?;
    let margin = required_margin(added, position.leverage)?;
    let available = participant.available_balance()?;
    if available < margin {
        return Err(ErrorCode::InsufficientMargin);
    }
    let at_entry = calculate_notional(position.entry_price, position.entry_size, market.decimals)?;
    let entry_size = sum_of(position.entry_size, size)?;
    let entry_price = weighted_entry_price(at_entry, added, entry_size)?;
    let new_size = sum_of(position.size, size)?;
    let new_notional = sum_of(position.notional, added)?;
    let new_pnl = calculate_unrealized_pnl(
        new_notional,
        current_price,
        new_size,
        market.decimals,
        position.direction,
    )?;
    let used_margin = sum_of(participant.used_margin, margin)?;
    let total_volume = sum_of(participant.total_volume, added)?;
    let pnl_delta = difference_of(new_pnl, position.unrealized_pnl)?;
    let participant_pnl = sum_of(participant.unrealized_pnl, pnl_delta)?;

    position.entry_price = entry_price;
    position.entry_size = entry_size;
    position.size = new_size;
    position.notional = new_notional;
    position.unrealized_pnl = new_pnl;
    participant.used_margin = used_margin;
    participant.total_volume = total_volume;
    participant.unrealized_pnl = participant_pnl;
    Ok(())
}

/// Why a request to reduce a position is turned down before any arithmetic, if it is.
pub open spec fn decrease_refusal(
    league: LeagueView,
    market: Market,
    position: Position,
    oracle_feed: Key,
    oracle_data: Seq<u8>,
    size_to_close: i64,
) -> Option<ErrorCode> {
    if checked_oracle_price(oracle_data) is Err {
        Some(ErrorCode::InvalidPrice)
    } else if size_to_close <= 0 {
        Some(ErrorCode::InvalidPositionSize)
    } else if league.status != LeagueStatus::Active {
        Some(ErrorCode::LeagueNotActive)
    } else if oracle_feed != market.oracle_feed {
        Some(ErrorCode::OracleMismatch)
    } else if size_to_close > position.size {
        Some(ErrorCode::InvalidReduceSize)
    } else {
        None
    }
}

/// What closing `size` units of a position at `price` realizes.
pub open spec fn realized_by(position: Position, decimals: nat, price: int, size: int) -> int {
    (notional(price, size, decimals) - notional(position.entry_price as int, size, decimals))
        * sign_of(position.direction)
}

/// The margin that closing `size` units of a position sets free: what the
/// position locked before less what it locks afterwards.
pub open spec fn released_by(position: Position, decimals: nat, size: int) -> int {
    let slice = notional(position.entry_price as int, size, decimals);
    let leverage = position.leverage as int;
    (position.notional as int) / leverage - (position.notional - slice) / leverage
}

/// The position after `size` units have been closed at `price` at time `now`.
///
/// The closed slice is added to what has been closed so far: its size, its
/// value at `price`, what it realized. The closed price is the average of the
/// value closed over the size closed. Size and notional shrink by the slice,
/// the slice's notional being taken at the entry price. A position with no
/// size left is stamped as closed at `now`.
pub open spec fn decreased(position: Position, decimals: nat, price: int, size: int, now: i64) -> Position {
    let closing_equity = notional(price, size, decimals);
    let slice = notional(position.entry_price as int, size, decimals);
    Position {
        closed_size: (position.closed_size + size) as i64,
        closed_equity: (position.closed_equity + closing_equity) as i64,
        closed_price: floor_div(
            position.closed_equity + closing_equity,
            position.closed_size + size,
        ) as i64,
        closed_pnl: (position.closed_pnl + realized_by(position, decimals, price, size)) as i64,
        size: (position.size - size) as i64,
        notional: (position.notional - slice) as i64,
        unrealized_pnl: unrealized_pnl(
            position.notional - slice,
            price,
            position.size - size,
            decimals,
            position.direction,
        ) as i64,
        closed_at: if position.size - size == 0 {
            now
        } else {
            position.closed_at
        },
        ..position
    }
}

/// Whether every value that reducing a position forms is in range.
pub open spec fn decrease_fits(
    participant: ParticipantView,
    position: Position,
    decimals: nat,
    price: int,
    size: int,
) -> bool {
    let closing_equity = notional(price, size, decimals);
    let slice = notional(position.entry_price as int, size, decimals);
    let after = decreased(position, decimals, price, size, 0);
    &&& scale_fits(decimals)
    &&& fits(closing_equity)
    &&& fits(slice)
    &&& fits(realized_by(position, decimals, price, size))
    &&& position.leverage != 0
    &&& fits(position.notional - slice)
    &&& fits(released_by(position, decimals, size))
    &&& fits(position.closed_size + size)
    &&& fits(position.closed_equity + closing_equity)
    &&& position.closed_size + size != 0
    &&& fits(floor_div(position.closed_equity + closing_equity, position.closed_size + size))
    &&& fits(position.closed_pnl + realized_by(position, decimals, price, size))
    &&& fits(position.size - size)
    &&& fits(
        unrealized_pnl(
            position.notional - slice,
            price,
            position.size - size,
            decimals,
            position.direction,
        ),
    )
    &&& fits(participant.total_volume + closing_equity)
    &&& fits(participant.used_margin - released_by(position, decimals, size))
    &&& fits(participant.virtual_balance + realized_by(position, decimals, price, size))
    &&& fits(after.unrealized_pnl - position.unrealized_pnl)
    &&& fits(participant.unrealized_pnl + (after.unrealized_pnl - position.unrealized_pnl))
}

/// What reducing a position does: the participant and the position
/// afterwards, or the reason why nothing changes.
///
/// What the slice realizes goes to the participant's balance, its value at
/// the closing price to the volume, and its margin is set free. A position
/// that is closed in full leaves the participant's list of open positions.
pub open spec fn decrease_position_outcome(
    league: LeagueView,
    market: Market,
    participant: ParticipantView,
    position: Position,
    position_key: Key,
    oracle_feed: Key,
    oracle_data: Seq<u8>,
    size_to_close: i64,
    now: i64,
) -> Result<(ParticipantView, Position), ErrorCode> {
    let refusal = decrease_refusal(
        league,
        market,
        position,
        oracle_feed,
        oracle_data,
        size_to_close,
    );
    let price = checked_oracle_price(oracle_data).unwrap() as int;
    let decimals = market.decimals as nat;
    let size = size_to_close as int;
    let after = decreased(position, decimals, price, size, now);
    if refusal is Some {
        Err(refusal.unwrap())
    } else if !decrease_fits(participant, position, decimals, price, size) {
        Err(ErrorCode::MathOverflow)
    } else {
        Ok(
            (
                ParticipantView {
                    total_volume: (participant.total_volume + notional(price, size, decimals)) as i64,
                    used_margin: (participant.used_margin - released_by(position, decimals, size)) as i64,
                    virtual_balance: (participant.virtual_balance + realized_by(
                        position,
                        decimals,
                        price,
                        size,
                    )) as i64,
                    unrealized_pnl: (participant.unrealized_pnl + (after.unrealized_pnl
                        - position.unrealized_pnl)) as i64,
                    positions: if after.size == 0 {
                        without(participant.positions, position_key)
                    } else {
                        participant.positions
                    },
                    ..participant
                },
                after,
            ),
        )
    }
}

/// The keys of a list without every occurrence of one key, in order.
pub fn remove_key(keys: &Vec<Key>, key: Key) -> (kept: Vec<Key>)
    ensures
        kept@ == without(keys@, key),
{
    let mut kept: Vec<Key> = Vec::new();
    let mut i: usize = 0;
    while i < keys.len()
        invariant
            i <= keys@.len(),
            kept@ == without(keys@.take(i as int), key),
        decreases keys@.len() - i,
    {
        proof {
            let next = keys@.take(i + 1);
            assert(next.drop_last() =~= keys@.take(i as int));
            assert(next.last() == keys@[i as int]);
        }
        if !(keys[i] == key) {
            kept.push(keys[i]);
        }
        i += 1;
    }
    assert(keys@.take(keys@.len() as int) =~= keys@);
    kept
}

/// Closes `size_to_close` units of a position at the oracle's price.
///
/// On failure neither the participant nor the position is touched.
pub fn decrease_position_size(
    league: &League,
    market: &Market,
    participant: &mut Participant,
    position: &mut Position,
    position_key: Key,
    oracle_feed: Key,
    oracle_data: &[u8],
    size_to_close: i64,
    now: i64,
) -> (r: Result<(), ErrorCode>)
    ensures
        match r {
            Ok(_) => decrease_position_outcome(
                league@,
                *market,
                old(participant)@,
                *old(position),
                position_key,
                oracle_feed,
                oracle_data@,
                size_to_close,
                now,
            ) == Ok::<(ParticipantView, Position), ErrorCode>(
                (final(participant)@, *final(position)),
            ),
            Err(e) => decrease_position_outcome(
                league@,
                *market,
                old(participant)@,
                *old(position),
                position_key,
                oracle_feed,
                oracle_data@,
                size_to_close,
                now,
            ) == Err::<(ParticipantView, Position), ErrorCode>(e) && *final(participant) == *old(
                participant,
            ) && *final(position) == *old(position),
        },
        old(participant)@.wf() ==> final(participant)@.wf(),
        r is Ok && old(position).wf() ==> final(position).wf(),
{
    let current_price = get_price_from_oracle(oracle_data)?;
    if size_to_close <= 0 {
        return Err(ErrorCode::InvalidPositionSize);
    }
    if league.status != LeagueStatus::Active {
        return Err(ErrorCode::LeagueNotActive);
    }
    if oracle_feed != market.oracle_feed {
        return Err(ErrorCode::OracleMismatch);
    }
    if size_to_close > position.size {
        return Err(ErrorCode::InvalidReduceSize);
    }
    let closing_equity = calculate_notional(current_price, size_to_close, market.decimals)?;
    let closing_notional = calculate_notional(
        position.entry_price,
        size_to_close,
        market.decimals,
    )?;
    let realized = calculate_realized_pnl(closing_equity, closing_notional, position.direction)?;
    let prev_locked = required_margin(position.notional, position.leverage)?;
    let new_notional = difference_of(position.notional, closing_notional)?;
    let new_locked = required_margin(new_notional, position.leverage)?;
    let released = difference_of(prev_locked, new_locked)?;

    let closed_size = sum_of(position.closed_size, size_to_close)?;
    let closed_equity = sum_of(position.closed_equity, closing_equity)?;
    let closed_price = calculate_price_from_notional_and_size(closed_equity, closed_size)?;
    let closed_pnl = sum_of(position.closed_pnl, realized)?;

    let new_size = difference_of(position.size, size_to_close)?;
    let new_pnl = calculate_unrealized_pnl(
        new_notional,
        current_price,
        new_size,
        market.decimals,
        position.direction,
    )?;

    let total_volume = sum_of(participant.total_volume, closing_equity)?;
    let used_margin = difference_of(participant.used_margin, released)?;
    let virtual_balance = sum_of(participant.virtual_balance, realized)?;
    let pnl_delta = difference_of(new_pnl, position.unrealized_pnl)?;
    let participant_pnl = sum_of(participant.unrealized_pnl, pnl_delta)?;

    position.closed_size = closed_size;
    position.closed_equity = closed_equity;
    position.closed_price = closed_price;
    position.closed_pnl = closed_pnl;
    position.size = new_size;
    position.notional = new_notional;
    position.unrealized_pnl = new_pnl;
    participant.total_volume = total_volume;
    participant.used_margin = used_margin;
    participant.virtual_balance = virtual_balance;
    participant.unrealized_pnl = participant_pnl;
    if new_size == 0 {
        position.closed_at = now;
        proof {
            lemma_without_len(participant.positions@, position_key);
        }
        participant.positions = remove_key(&participant.positions, position_key);
    }
    Ok(())
}

/// The entry price is the size-weighted average of the fills, rounded down.
///
/// After `size` units have been added at `price`, the entry price times the
/// whole entry size is at most the notional of both fills together, and less
/// than one unit of price per unit of size below it. In a market without
/// decimals the notional of a fill is its price times its size, so the entry
/// price is the floor of the size-weighted average of the two prices and
/// lies between them.
pub proof fn lemma_entry_price_is_weighted_average(
    position: Position,
    decimals: nat,
    price: int,
    size: int,
)
    requires
        position.entry_size > 0,
        size > 0,
        fits(position.entry_size + size),
        fits(
            floor_div(
                notional(position.entry_price as int, position.entry_size as int, decimals)
                    + notional(price, size, decimals),
                position.entry_size + size,
            ),
        ),
    ensures
        ({
            let after = increased(position, decimals, price, size);
            let both = notional(position.entry_price as int, position.entry_size as int, decimals)
                + notional(price, size, decimals);
            let sizes = position.entry_size + size;
            &&& after.entry_size == sizes
            &&& after.entry_price * sizes <= both < (after.entry_price + 1) * sizes
            &&& decimals == 0 ==> both == position.entry_price * position.entry_size + price * size
            &&& decimals == 0 && position.entry_price <= price ==> position.entry_price
                <= after.entry_price <= price
            &&& decimals == 0 && price <= position.entry_price ==> price <= after.entry_price
                <= position.entry_price
        }),
{
    let first = position.entry_price as int;
    let first_size = position.entry_size as int;
    let both = notional(first, first_size, decimals) + notional(price, size, decimals);
    let sizes = first_size + size;
    let average = both / sizes;
    assert(average * sizes <= both < (average + 1) * sizes) by (nonlinear_arith)
        requires
            sizes > 0,
            average == both / sizes,
    ;
    if decimals == 0 {
        assert(crate::margin::pow10(0) == 1);
        assert(notional(first, first_size, 0) == first * first_size);
        assert(notional(price, size, 0) == price * size);
        if first <= price {
            assert(first * sizes <= both <= price * sizes) by (nonlinear_arith)
                requires
                    both == first * first_size + price * size,
                    sizes == first_size + size,
                    first <= price,
                    first_size > 0,
                    size > 0,
            ;
            assert(first <= average <= price) by (nonlinear_arith)
                requires
                    first * sizes <= both <= price * sizes,
                    average * sizes <= both < (average + 1) * sizes,
                    sizes > 0,
            ;
        }
        if price <= first {
            assert(price * sizes <= both <= first * sizes) by (nonlinear_arith)
                requires
                    both == first * first_size + price * size,
                    sizes == first_size + size,
                    price <= first,
                    first_size > 0,
                    size > 0,
            ;
            assert(price <= average <= first) by (nonlinear_arith)
                requires
                    price * sizes <= both <= first * sizes,
                    average * sizes <= both < (average + 1) * sizes,
                    sizes > 0,
            ;
        }
    }
}

/// In a market without decimals, the entry price after two fills have been
/// added is the size-weighted average price of all that was bought, rounded
/// down once at each fill: it is at most the exact average and less than two
/// units of price below it.
pub proof fn lemma_entry_price_after_two_increases(
    position: Position,
    first_price: int,
    first_size: int,
    second_price: int,
    second_size: int,
)
    requires
        position.entry_size > 0,
        first_size > 0,
        second_size > 0,
        fits(position.entry_size + first_size + second_size),
        fits(
            floor_div(
                position.entry_price * position.entry_size + first_price * first_size,
                position.entry_size + first_size,
            ),
        ),
        fits(
            floor_div(
                increased(position, 0, first_price, first_size).entry_price * (position.entry_size
                    + first_size) + second_price * second_size,
                position.entry_size + first_size + second_size,
            ),
        ),
    ensures
        ({
            let once = increased(position, 0, first_price, first_size);
            let twice = increased(once, 0, second_price, second_size);
            let bought = position.entry_price * position.entry_size + first_price * first_size
                + second_price * second_size;
            let sizes = position.entry_size + first_size + second_size;
            &&& twice.entry_size == sizes
            &&& bought - 2 * sizes < twice.entry_price * sizes <= bought
        }),
{
    assert(crate::margin::pow10(0) == 1);
    let once = increased(position, 0, first_price, first_size);
    assert(notional(position.entry_price as int, position.entry_size as int, 0)
        == position.entry_price * position.entry_size);
    assert(notional(first_price, first_size, 0) == first_price * first_size);
    lemma_entry_price_is_weighted_average(position, 0, first_price, first_size);
    assert(once.entry_size == position.entry_size + first_size);
    assert(notional(once.entry_price as int, once.entry_size as int, 0) == once.entry_price
        * once.entry_size);
    assert(notional(second_price, second_size, 0) == second_price * second_size);
    lemma_entry_price_is_weighted_average(once, 0, second_price, second_size);
    let twice = increased(once, 0, second_price, second_size);
    let sizes = position.entry_size + first_size + second_size;
    assert((twice.entry_price + 1) * sizes == twice.entry_price * sizes + sizes)
        by (nonlinear_arith);
    assert((once.entry_price + 1) * once.entry_size == once.entry_price * once.entry_size
        + once.entry_size) by (nonlinear_arith);
}

} // verus!
