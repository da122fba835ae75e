use crate::errors::ErrorCode;
use crate::key::Key;
use crate::leaderboard::{update_topk_equity, update_topk_volume, Leaderboard, LeaderboardView};
use crate::margin::{
    calculate_notional, calculate_price_from_notional_and_size, calculate_unrealized_pnl,
    checked_unrealized_pnl, difference_of, fits, floor_div, notional, required_margin,
    scale_fits, sum_of,
};
use crate::oracle::{checked_oracle_price, get_price_from_oracle};
use crate::state::{Participant, ParticipantView, Position};
use vstd::prelude::*;

verus! {

/// A position record as it is handed to a refresh: where it lives and what it holds.
#[derive(Clone, Copy, Debug, PartialEq, Eq)]
pub struct PositionAccount {
    pub key: Key,
    pub position: Position,
}

/// An oracle record as it is handed to a refresh: where it lives and its bytes.
#[derive(Clone, Debug, PartialEq, Eq)]
pub struct OracleAccount {
    pub key: Key,
    pub data: Vec<u8>,
}

/// What marking positions to market has gathered so far: the positions
/// marked, the price of each (zero for a closed one), and the sums of their
/// unrealized profit and of their margin.
pub struct Marked {
    pub accounts: Seq<PositionAccount>,
    pub prices: Seq<i64>,
    pub total_pnl: i64,
    pub total_margin: i64,
}

/// What liquidating positions has gathered so far: the positions unwound and
/// the participant's volume, margin in use and balance.
pub struct Liquidated {
    pub accounts: Seq<PositionAccount>,
    pub total_volume: i64,
    pub used_margin: i64,
    pub virtual_balance: i64,
}

/// Whether a refresh of this participant may be handed `remaining` records:
/// one position record and one oracle record for each open position.
pub open spec fn refresh_accounts_match(participant: ParticipantView, remaining: int) -> bool {
    remaining == 2 * participant.positions.len()
}

/// Marks the position at place `i` to market and adds it to what has been gathered.
///
/// The record must live where the participant's list says. A closed position
/// is passed over. An open one must be bound to the oracle record beside it;
/// its unrealized profit is taken anew at that oracle's price.
pub open spec fn mark_step(
    keys: Seq<Key>,
    accounts: Seq<PositionAccount>,
    oracles: Seq<OracleAccount>,
    so_far: Marked,
    i: int,
) -> Result<Marked, ErrorCode> {
    let account = accounts[i];
    let position = account.position;
    let price = checked_oracle_price(oracles[i].data@);
    let pnl = checked_unrealized_pnl(
        position.notional as int,
        price.unwrap() as int,
        position.size as int,
        position.market_decimals as nat,
        position.direction,
    );
    let margin = position.notional as int / (position.leverage as int);
    if keys[i] != account.key {
        Err(ErrorCode::PositionMismatch)
    } else if position.size == 0 {
        Ok(
            Marked {
                accounts: so_far.accounts.push(account),
                prices: so_far.prices.push(0),
                ..so_far
            },
        )
    } else if position.oracle_feed != oracles[i].key {
        Err(ErrorCode::OracleMismatch)
    } else if price is Err {
        Err(ErrorCode::InvalidPrice)
    } else if pnl is Err || !fits(so_far.total_pnl + pnl.unwrap()) || position.leverage == 0
        || !fits(so_far.total_margin + margin) {
        Err(ErrorCode::MathOverflow)
    } else {
        Ok(
            Marked {
                accounts: so_far.accounts.push(
                    PositionAccount {
                        key: account.key,
                        position: Position { unrealized_pnl: pnl.unwrap(), ..position },
                    },
                ),
                prices: so_far.prices.push(price.unwrap()),
                total_pnl: (so_far.total_pnl + pnl.unwrap()) as i64,
                total_margin: (so_far.total_margin + margin) as i64,
            },
        )
    }
}

/// Marks the positions from place `i` on, in order, stopping at the first failure.
pub open spec fn mark_from(
    keys: Seq<Key>,
    accounts: Seq<PositionAccount>,
    oracles: Seq<OracleAccount>,
    so_far: Marked,
    i: int,
) -> Result<Marked, ErrorCode>
    decreases accounts.len() - i,
{
    if i >= accounts.len() {
        Ok(so_far)
    } else {
        match mark_step(keys, accounts, oracles, so_far, i) {
            Ok(next) => mark_from(keys, accounts, oracles, next, i + 1),
            Err(e) => Err(e),
        }
    }
}

/// All positions marked to market.
pub open spec fn marked(
    keys: Seq<Key>,
    accounts: Seq<PositionAccount>,
    oracles: Seq<OracleAccount>,
) -> Result<Marked, ErrorCode> {
    mark_from(
        keys,
        accounts,
        oracles,
        Marked { accounts: Seq::empty(), prices: Seq::empty(), total_pnl: 0, total_margin: 0 },
        0,
    )
}

/// A position unwound in full at `price` at time `now`: all of its size is
/// added to what has been closed, at its value at `price`; what it showed as
/// unrealized is realized; nothing of it is left.
pub open spec fn unwound(position: Position, price: i64, now: i64) -> Position {
    let closing_equity = notional(
        price as int,
        position.size as int,
        position.market_decimals as nat,
    );
    let closed_size = position.closed_size + position.size;
    let closed_equity = position.closed_equity + closing_equity;
    Position {
        closed_size: closed_size as i64,
        closed_equity: closed_equity as i64,
        closed_price: if closed_size > 0 {
            floor_div(closed_equity, closed_size) as i64
        } else {
            position.closed_price
        },
        closed_pnl: (position.closed_pnl + position.unrealized_pnl) as i64,
        size: 0,
        notional: 0,
        unrealized_pnl: 0,
        closed_at: now,
        ..position
    }
}

/// Whether every value that unwinding a position forms is in range.
pub open spec fn unwind_fits(so_far: Liquidated, position: Position, price: i64) -> bool {
    let closing_equity = notional(
        price as int,
        position.size as int,
        position.market_decimals as nat,
    );
    let closed_size = position.closed_size + position.size;
    let closed_equity = position.closed_equity + closing_equity;
    &&& position.leverage != 0
    &&& scale_fits(position.market_decimals as nat)
    &&& fits(closing_equity)
    &&& fits(closed_size)
    &&& fits(closed_equity)
    &&& closed_size > 0 ==> fits(floor_div(closed_equity, closed_size))
    &&& fits(position.closed_pnl + position.unrealized_pnl)
    &&& fits(so_far.total_volume + closing_equity)
    &&& fits(so_far.used_margin - position.notional as int / (position.leverage as int))
    &&& fits(so_far.virtual_balance + position.unrealized_pnl)
}

/// Unwinds the position at place `i` and adds it to what has been gathered.
///
/// A closed position is passed over. An open one is closed in full at the
/// price at which it was marked: its value goes to the volume, its margin is
/// set free, and what it showed as unrealized goes to the balance.
pub open spec fn liquidate_step(
    accounts: Seq<PositionAccount>,
    prices: Seq<i64>,
    now: i64,
    so_far: Liquidated,
    i: int,
) -> Result<Liquidated, ErrorCode> {
    let account = accounts[i];
    let position = account.position;
    let closing_equity = notional(
        prices[i] as int,
        position.size as int,
        position.market_decimals as nat,
    );
    if position.size == 0 {
        Ok(Liquidated { accounts: so_far.accounts.push(account), ..so_far })
    } else if !unwind_fits(so_far, position, prices[i]) {
        Err(ErrorCode::MathOverflow)
    } else {
        Ok(
            Liquidated {
                accounts: so_far.accounts.push(
                    PositionAccount {
                        key: account.key,
                        position: unwound(position, prices[i], now),
                    },
                ),
                total_volume: (so_far.total_volume + closing_equity) as i64,
                used_margin: (so_far.used_margin - position.notional as int / (
                position.leverage as int)) as i64,
                virtual_balance: (so_far.virtual_balance + position.unrealized_pnl) as i64,
            },
        )
    }
}

/// Unwinds the positions from place `i` on, in order, stopping at the first failure.
pub open spec fn liquidate_from(
    accounts: Seq<PositionAccount>,
    prices: Seq<i64>,
    now: i64,
    so_far: Liquidated,
    i: int,
) -> Result<Liquidated, ErrorCode>
    decreases accounts.len() - i,
{
    if i >= accounts.len() {
        Ok(so_far)
    } else {
        match liquidate_step(accounts, prices, now, so_far, i) {
            Ok(next) => liquidate_from(accounts, prices, now, next, i + 1),
            Err(e) => Err(e),
        }
    }
}

/// The leaderboard after a participant has reported its equity and its
/// volume at time `now`.
pub open spec fn reported(
    board: LeaderboardView,
    key: Key,
    equity: i64,
    volume: i64,
    now: i64,
) -> LeaderboardView {
    LeaderboardView {
        last_updated: now,
        ..board.with_equity_score(key, equity).with_volume_score(key, volume)
    }
}

/// Whether a participant whose positions have been marked must be
/// liquidated: exactly when its equity has fallen below zero. An equity of
/// zero is not below zero.
pub open spec fn must_liquidate(participant: ParticipantView, marks: Marked) -> bool {
    participant.virtual_balance + marks.total_pnl < 0
}

/// What a refresh does: the participant, the leaderboard and the position
/// records afterwards, or the reason why nothing changes.
///
/// Every open position is marked to market and the participant's unrealized
/// profit and margin in use become the sums over its positions. If the equity
/// is then below zero, every open position is unwound and the participant is
/// left without open positions. At the end the participant's equity and
/// volume are reported to the leaderboard.
pub open spec fn refresh_outcome(
    participant: ParticipantView,
    participant_key: Key,
    board: LeaderboardView,
    accounts: Seq<PositionAccount>,
    oracles: Seq<OracleAccount>,
    now: i64,
) -> Result<(ParticipantView, LeaderboardView, Seq<PositionAccount>), ErrorCode> {
    if accounts.len() != participant.positions.len() || oracles.len()
        != participant.positions.len() {
        Err(ErrorCode::InvalidRefreshAccounts)
    } else {
        match marked(participant.positions, accounts, oracles) {
            Err(e) => Err(e),
            Ok(marks) => {
                let equity = participant.virtual_balance + marks.total_pnl;
                if !fits(equity) {
                    Err(ErrorCode::MathOverflow)
                } else if must_liquidate(participant, marks) {
                    match liquidate_from(
                        marks.accounts,
                        marks.prices,
                        now,
                        Liquidated {
                            accounts: Seq::empty(),
                            total_volume: participant.total_volume,
                            used_margin: marks.total_margin,
                            virtual_balance: participant.virtual_balance,
                        },
                        0,
                    ) {
                        Err(e) => Err(e),
                        Ok(done) => Ok(
                            (
                                ParticipantView {
                                    unrealized_pnl: 0,
                                    used_margin: done.used_margin,
                                    total_volume: done.total_volume,
                                    virtual_balance: done.virtual_balance,
                                    positions: Seq::empty(),
                                    ..participant
                                },
                                reported(
                                    board,
                                    participant_key,
                                    done.virtual_balance,
                                    done.total_volume,
                                    now,
                                ),
                                done.accounts,
                            ),
                        ),
                    }
                } else {
                    Ok(
                        (
                            ParticipantView {
                                unrealized_pnl: marks.total_pnl,
                                used_margin: marks.total_margin,
                                ..participant
                            },
                            reported(
                                board,
                                participant_key,
                                equity as i64,
                                participant.total_volume,
                                now,
                            ),
                            marks.accounts,
                        ),
                    )
                }
            },
        }
    }
}

/// Checks that a refresh is handed one position record and one oracle
/// record for each open position of the participant.
pub fn check_refresh_accounts(participant: &Participant, remaining: usize) -> (r: Result<
    (),
    ErrorCode,
>)
    ensures
        refresh_accounts_match(participant@, remaining as int) ==> r is Ok,
        !refresh_accounts_match(participant@, remaining as int) ==> r == Err::<(), ErrorCode>(
            ErrorCode::InvalidRefreshAccounts,
        ),
{
    let open = participant.positions.len();
    if remaining % 2 == 0 && remaining / 2 == open {
        Ok(())
    } else {
        Err(ErrorCode::InvalidRefreshAccounts)
    }
}

/// Marks every position to market.
fn mark_to_market(
    keys: &Vec<Key>,
    accounts: &Vec<PositionAccount>,
    oracles: &Vec<OracleAccount>,
) -> (r: Result<(Vec<PositionAccount>, Vec<i64>, i64, i64), ErrorCode>)
    requires
        accounts@.len() == keys@.len(),
        oracles@.len() == keys@.len(),
    ensures
        match r {
            Ok((out, prices, total_pnl, total_margin)) => marked(keys@, accounts@, oracles@) == Ok::<
                Marked,
                ErrorCode,
            >(Marked { accounts: out@, prices: prices@, total_pnl, total_margin }),
            Err(e) => marked(keys@, accounts@, oracles@) == Err::<Marked, ErrorCode>(e),
        },
{
    let mut out: Vec<PositionAccount> = Vec::new();
    let mut prices: Vec<i64> = Vec::new();
    let mut total_pnl: i64 = 0;
    let mut total_margin: i64 = 0;
    let mut i: usize = 0;
    while i < accounts.len()
        invariant
            i <= accounts@.len(),
            accounts@.len() == keys@.len(),
            oracles@.len() == keys@.len(),
            marked(keys@, accounts@, oracles@) == mark_from(
                keys@,
                accounts@,
                oracles@,
                Marked { accounts: out@, prices: prices@, total_pnl, total_margin },
                i as int,
            ),
        decreases accounts@.len() - i,
    {
        let account = accounts[i];
        let position = account.position;
        if !(keys[i] == account.key) {
            return Err(ErrorCode::PositionMismatch);
        }
        if position.size == 0 {
            out.push(account);
            prices.push(0);
            i += 1;
            continue;
        }
        if !(position.oracle_feed == oracles[i].key) {
            return Err(ErrorCode::OracleMismatch);
        }
        let price = get_price_from_oracle(oracles[i].data.as_slice())?;
        let pnl = calculate_unrealized_pnl(
            position.notional,
            price,
            position.size,
            position.market_decimals,
            position.direction,
        )?;
        let next_pnl = sum_of(total_pnl, pnl)?;
        let margin = required_margin(position.notional, position.leverage)?;
        let next_margin = sum_of(total_margin, margin)?;
        let mut marked_position = position;
        marked_position.unrealized_pnl = pnl;
        out.push(PositionAccount { key: account.key, position: marked_position });
        prices.push(price);
        total_pnl = next_pnl;
        total_margin = next_margin;
        i += 1;
    }
    Ok((out, prices, total_pnl, total_margin))
}

/// Unwinds every open position at the price at which it was marked.
fn liquidate_all(
    accounts: &Vec<PositionAccount>,
    prices: &Vec<i64>,
    now: i64,
    total_volume: i64,
    used_margin: i64,
    virtual_balance: i64,
) -> (r: Result<(Vec<PositionAccount>, i64, i64, i64), ErrorCode>)
    requires
        prices@.len() == accounts@.len(),
    ensures
        match r {
            Ok((out, volume, margin, balance)) => liquidate_from(
                accounts@,
                prices@,
                now,
                Liquidated { accounts: Seq::empty(), total_volume, used_margin, virtual_balance },
                0,
            ) == Ok::<Liquidated, ErrorCode>(
                Liquidated {
                    accounts: out@,
                    total_volume: volume,
                    used_margin: margin,
                    virtual_balance: balance,
                },
            ),
            Err(e) => liquidate_from(
                accounts@,
                prices@,
                now,
                Liquidated { accounts: Seq::empty(), total_volume, used_margin, virtual_balance },
                0,
            ) == Err::<Liquidated, ErrorCode>(e),
        },
{
    let ghost start = Liquidated {
        accounts: Seq::empty(),
        total_volume,
        used_margin,
        virtual_balance,
    };
    let mut out: Vec<PositionAccount> = Vec::new();
    let mut volume: i64 = total_volume;
    let mut margin: i64 = used_margin;
    let mut balance: i64 = virtual_balance;
    let mut i: usize = 0;
    while i < accounts.len()
        invariant
            i <= accounts@.len(),
            prices@.len() == accounts@.len(),
            start == (Liquidated {
                accounts: Seq::empty(),
                total_volume,
                used_margin,
                virtual_balance,
            }),
            liquidate_from(accounts@, prices@, now, start, 0) == liquidate_from(
                accounts@,
                prices@,
                now,
                Liquidated {
                    accounts: out@,
                    total_volume: volume,
                    used_margin: margin,
                    virtual_balance: balance,
                },
                i as int,
            ),
        decreases accounts@.len() - i,
    {
        let account = accounts[i];
        let position = account.position;
        if position.size == 0 {
            out.push(account);
            i += 1;
            continue;
        }
        let price = prices[i];
        let realized = position.unrealized_pnl;
        let released = required_margin(position.notional, position.leverage)?;
        let closing_equity = calculate_notional(price, position.size, position.market_decimals)?;
        let closed_size = sum_of(position.closed_size, position.size)?;
        let closed_equity = sum_of(position.closed_equity, closing_equity)?;
        let closed_price = if closed_size > 0 {
            calculate_price_from_notional_and_size(closed_equity, closed_size)?
        } else {
            position.closed_price
        };
        let closed_pnl = sum_of(position.closed_pnl, realized)?;
        let next_volume = sum_of(volume, closing_equity)?;
        let next_margin = difference_of(margin, released)?;
        let next_balance = sum_of(balance, realized)?;
        let mut closed = position;
        closed.closed_size = closed_size;
        closed.closed_equity = closed_equity;
        closed.closed_price = closed_price;
        closed.closed_pnl = closed_pnl;
        closed.size = 0;
        closed.notional = 0;
        closed.unrealized_pnl = 0;
        closed.closed_at = now;
        out.push(PositionAccount { key: account.key, position: closed });
        volume = next_volume;
        margin = next_margin;
        balance = next_balance;
        i += 1;
    }
    Ok((out, volume, margin, balance))
}

/// Refreshes a participant: marks its positions to market, liquidates it if
/// its equity has fallen below zero, and reports it to the leaderboard.
///
/// `accounts` and `oracles` hold, in the order of the participant's list of
/// open positions, the record of each position and the record of its oracle.
/// On success `accounts` holds the records as they are to be written back.
/// On failure nothing is touched.
pub fn refresh_participant(
    participant: &mut Participant,
    participant_key: Key,
    leaderboard: &mut Leaderboard,
    accounts: &mut Vec<PositionAccount>,
    oracles: &Vec<OracleAccount>,
    now: i64,
) -> (r: Result<(), ErrorCode>)
    ensures
        match r {
            Ok(_) => refresh_outcome(
                old(participant)@,
                participant_key,
                old(leaderboard)@,
                old(accounts)@,
                oracles@,
                now,
            ) == Ok::<(ParticipantView, LeaderboardView, Seq<PositionAccount>), ErrorCode>(
                (final(participant)@, final(leaderboard)@, final(accounts)@),
            ),
            Err(e) => refresh_outcome(
                old(participant)@,
                participant_key,
                old(leaderboard)@,
                old(accounts)@,
                oracles@,
                now,
            ) == Err::<(ParticipantView, LeaderboardView, Seq<PositionAccount>), ErrorCode>(e)
                && *final(participant) == *old(participant) && *final(leaderboard) == *old(
                leaderboard,
            ) && *final(accounts) == *old(accounts),
        },
        old(participant)@.wf() ==> final(participant)@.wf(),
        old(leaderboard)@.wf() ==> final(leaderboard)@.wf(),
        r is Ok ==> final(accounts)@.len() == old(accounts)@.len(),
        r is Ok ==> forall|j: int|
            0 <= j < old(accounts)@.len() && old(accounts)@[j].position.wf() ==> (
            #[trigger] final(accounts)@[j]).position.wf(),
{
    proof {
        if refresh_outcome(
            participant@,
            participant_key,
            leaderboard@,
            accounts@,
            oracles@,
            now,
        ) is Ok {
            lemma_liquidation_rule(
                participant@,
                participant_key,
                leaderboard@,
                accounts@,
                oracles@,
                now,
            );
        }
    }
    let open = participant.positions.len();
    if accounts.len() != open || oracles.len() != open {
        return Err(ErrorCode::InvalidRefreshAccounts);
    }
    let (marks, prices, total_pnl, total_margin) = mark_to_market(
        &participant.positions,
        accounts,
        oracles,
    )?;
    let equity = sum_of(participant.virtual_balance, total_pnl)?;
    proof {
        lemma_mark_from_keeps(
            participant.positions@,
            accounts@,
            oracles@,
            Marked { accounts: Seq::empty(), prices: Seq::empty(), total_pnl: 0, total_margin: 0 },
            0,
        );
    }
    if equity < 0 {
        let (closed, volume, margin, balance) = liquidate_all(
            &marks,
            &prices,
            now,
            participant.total_volume,
            total_margin,
            participant.virtual_balance,
        )?;
        participant.unrealized_pnl = 0;
        participant.used_margin = margin;
        participant.total_volume = volume;
        participant.virtual_balance = balance;
        participant.positions.clear();
        *accounts = closed;
        let _ = update_topk_equity(leaderboard, participant_key, balance);
        let _ = update_topk_volume(leaderboard, participant_key, volume);
    } else {
        participant.unrealized_pnl = total_pnl;
        participant.used_margin = total_margin;
        *accounts = marks;
        let _ = update_topk_equity(leaderboard, participant_key, equity);
        let _ = update_topk_volume(leaderboard, participant_key, participant.total_volume);
    }
    leaderboard.last_updated = now;
    Ok(())
}

/// Whether two records are the same position at the same place, seen before
/// and after it was marked to market: nothing but what it shows as
/// unrealized may differ.
pub open spec fn is_marking_of(after: PositionAccount, before: PositionAccount) -> bool {
    &&& after.key == before.key
    &&& after.position == (Position {
        unrealized_pnl: after.position.unrealized_pnl,
        ..before.position
    })
}

/// Marking to market changes nothing of a position but what it shows as
/// unrealized, and leaves a closed position as it is.
pub proof fn lemma_mark_from_keeps(
    keys: Seq<Key>,
    accounts: Seq<PositionAccount>,
    oracles: Seq<OracleAccount>,
    so_far: Marked,
    i: int,
)
    requires
        0 <= i <= accounts.len(),
        so_far.accounts.len() == i,
        so_far.prices.len() == i,
        forall|j: int| 0 <= j < i ==> is_marking_of(#[trigger] so_far.accounts[j], accounts[j]),
    ensures
        mark_from(keys, accounts, oracles, so_far, i) matches Ok(marks) ==> {
            &&& marks.accounts.len() == accounts.len()
            &&& marks.prices.len() == accounts.len()
            &&& forall|j: int|
                0 <= j < accounts.len() ==> is_marking_of(#[trigger] marks.accounts[j], accounts[j])
        },
    decreases accounts.len() - i,
{
    if i < accounts.len() {
        match mark_step(keys, accounts, oracles, so_far, i) {
            Ok(next) => {
                assert forall|j: int| 0 <= j < i + 1 implies is_marking_of(
                    #[trigger] next.accounts[j],
                    accounts[j],
                ) by {
                    if j < i {
                        assert(next.accounts[j] == so_far.accounts[j]);
                    }
                }
                lemma_mark_from_keeps(keys, accounts, oracles, next, i + 1);
            },
            Err(_) => {},
        }
    }
}

/// Liquidation leaves no position open: whatever it gathers from place `i`
/// on is a record for each place, at the same key, with no size left, and
/// well-formed where the position was.
pub proof fn lemma_liquidate_from_closes(
    accounts: Seq<PositionAccount>,
    prices: Seq<i64>,
    now: i64,
    so_far: Liquidated,
    i: int,
)
    requires
        0 <= i <= accounts.len(),
        so_far.accounts.len() == i,
        forall|j: int|
            0 <= j < i ==> {
                &&& (#[trigger] so_far.accounts[j]).key == accounts[j].key
                &&& so_far.accounts[j].position.size == 0
                &&& accounts[j].position.wf() ==> so_far.accounts[j].position.wf()
            },
    ensures
        liquidate_from(accounts, prices, now, so_far, i) matches Ok(done) ==> {
            &&& done.accounts.len() == accounts.len()
            &&& forall|j: int|
                0 <= j < accounts.len() ==> {
                    &&& (#[trigger] done.accounts[j]).key == accounts[j].key
                    &&& done.accounts[j].position.size == 0
                    &&& accounts[j].position.wf() ==> done.accounts[j].position.wf()
                }
        },
    decreases accounts.len() - i,
{
    if i < accounts.len() {
        match liquidate_step(accounts, prices, now, so_far, i) {
            Ok(next) => {
                assert forall|j: int| 0 <= j < i + 1 implies {
                    &&& (#[trigger] next.accounts[j]).key == accounts[j].key
                    &&& next.accounts[j].position.size == 0
                    &&& accounts[j].position.wf() ==> next.accounts[j].position.wf()
                } by {
                    if j < i {
                        assert(next.accounts[j] == so_far.accounts[j]);
                    }
                }
                lemma_liquidate_from_closes(accounts, prices, now, next, i + 1);
            },
            Err(_) => {},
        }
    }
}

/// The liquidation rule. A refresh that succeeds liquidates the participant
/// exactly when its equity, taken after all positions have been marked, is
/// below zero: then no position is left open and the participant's list of
/// open positions is empty. With an equity of zero or more, zero included,
/// every position keeps its size and the participant keeps its balance, its
/// volume and its list.
pub proof fn lemma_liquidation_rule(
    participant: ParticipantView,
    participant_key: Key,
    board: LeaderboardView,
    accounts: Seq<PositionAccount>,
    oracles: Seq<OracleAccount>,
    now: i64,
)
    requires
        refresh_outcome(participant, participant_key, board, accounts, oracles, now) is Ok,
    ensures
        marked(participant.positions, accounts, oracles) is Ok,
        ({
            let marks = marked(participant.positions, accounts, oracles).unwrap();
            let (after, _, records) = refresh_outcome(
                participant,
                participant_key,
                board,
                accounts,
                oracles,
                now,
            ).unwrap();
            &&& records.len() == accounts.len()
            &&& forall|j: int|
                0 <= j < accounts.len() ==> (#[trigger] records[j]).key == accounts[j].key
            &&& forall|j: int|
                0 <= j < accounts.len() && accounts[j].position.wf() ==> (
                #[trigger] records[j]).position.wf()
            &&& participant.virtual_balance + marks.total_pnl < 0 ==> {
                &&& after.positions.len() == 0
                &&& after.unrealized_pnl == 0
                &&& forall|j: int|
                    0 <= j < accounts.len() ==> (#[trigger] records[j]).position.size == 0
            }
            &&& participant.virtual_balance + marks.total_pnl >= 0 ==> {
                &&& after.positions == participant.positions
                &&& after.virtual_balance == participant.virtual_balance
                &&& after.total_volume == participant.total_volume
                &&& after.unrealized_pnl == marks.total_pnl
                &&& forall|j: int|
                    0 <= j < accounts.len() ==> is_marking_of(#[trigger] records[j], accounts[j])
            }
        }),
{
    let empty = Marked {
        accounts: Seq::empty(),
        prices: Seq::empty(),
        total_pnl: 0,
        total_margin: 0,
    };
    lemma_mark_from_keeps(participant.positions, accounts, oracles, empty, 0);
    let marks = marked(participant.positions, accounts, oracles).unwrap();
    if must_liquidate(participant, marks) {
        let start = Liquidated {
            accounts: Seq::empty(),
            total_volume: participant.total_volume,
            used_margin: marks.total_margin,
            virtual_balance: participant.virtual_balance,
        };
        lemma_liquidate_from_closes(marks.accounts, marks.prices, now, start, 0);
        let done = liquidate_from(marks.accounts, marks.prices, now, start, 0).unwrap();
        assert forall|j: int| 0 <= j < accounts.len() implies (#[trigger] done.accounts[j]).key
            == accounts[j].key && (accounts[j].position.wf() ==> done.accounts[j].position.wf()) by {
            assert(is_marking_of(marks.accounts[j], accounts[j]));
        }
    } else {
        assert forall|j: int| 0 <= j < accounts.len() && accounts[j].position.wf() implies (
        #[trigger] marks.accounts[j]).position.wf() by {
            assert(is_marking_of(marks.accounts[j], accounts[j]));
        }
    }
}

} // verus!
