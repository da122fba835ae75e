use crate::errors::ErrorCode;
use crate::key::Key;
use crate::leaderboard::{find_rank, rank_of, Leaderboard, LeaderboardView};
use crate::state::{League, LeagueStatus, LeagueView, Participant, ParticipantView};
use vstd::prelude::*;

verus! {

/// The weight of a rank on a leaderboard of `k` places: `k` for the best,
/// one less for each place down, `1` for the last.
pub open spec fn weight_of(k: nat, rank: nat) -> int {
    k - rank
}

/// The weights of all `k` ranks together: `k * (k + 1) / 2`.
pub open spec fn total_weight(k: nat) -> int {
    (k as int) * (k + 1) / 2
}

/// The share of the reward pool that the participant at `rank` is paid:
/// `floor(total * (k - rank) / (k * (k + 1) / 2))`.
pub open spec fn reward_share(total: nat, k: nat, rank: nat) -> int {
    (total as int) * weight_of(k, rank) / total_weight(k)
}

/// What the first `n` ranks are paid together.
pub open spec fn shares_paid(total: nat, k: nat, n: nat) -> int
    decreases n,
{
    if n == 0 {
        0
    } else {
        shares_paid(total, k, (n - 1) as nat) + reward_share(total, k, (n - 1) as nat)
    }
}

/// The weights of the first `n` ranks together.
pub open spec fn weights_of_first(k: nat, n: nat) -> int
    decreases n,
{
    if n == 0 {
        0
    } else {
        weights_of_first(k, (n - 1) as nat) + weight_of(k, (n - 1) as nat)
    }
}

/// Twice the total weight is `k * (k + 1)`: the division by two leaves no rest.
pub proof fn lemma_total_weight(k: nat)
    ensures
        2 * total_weight(k) == k * (k + 1),
        k >= 1 ==> total_weight(k) >= k,
    decreases k,
{
    if k == 0 {
        assert(0 * (0 + 1) == 0) by (nonlinear_arith);
    } else {
        let j = (k - 1) as nat;
        lemma_total_weight(j);
        assert(k * (k + 1) == j * (j + 1) + 2 * k) by (nonlinear_arith)
            requires
                j == k - 1,
        ;
        let half = total_weight(j) + k;
        assert(k * (k + 1) == 2 * half);
        assert((2 * half) / 2 == half);
        assert(total_weight(j) >= 0) by (nonlinear_arith)
            requires
                2 * total_weight(j) == j * (j + 1),
                j >= 0,
        ;
    }
}

proof fn lemma_weights_of_first(k: nat, n: nat)
    requires
        n <= k,
    ensures
        2 * weights_of_first(k, n) == 2 * n * k - n * (n - 1),
    decreases n,
{
    if n == 0 {
        assert(2 * 0 * k - 0 * (0 - 1) == 0) by (nonlinear_arith);
    } else {
        let m = (n - 1) as nat;
        lemma_weights_of_first(k, m);
        assert(2 * n * k - n * (n - 1) == 2 * m * k - m * (m - 1) + 2 * (k - m)) by (nonlinear_arith)
            requires
                m == n - 1,
        ;
    }
}

proof fn lemma_shares_within_weights(total: nat, k: nat, n: nat)
    requires
        k >= 1,
        n <= k,
    ensures
        shares_paid(total, k, n) >= 0,
        shares_paid(total, k, n) * total_weight(k) <= total * weights_of_first(k, n),
    decreases n,
{
    lemma_total_weight(k);
    let w = total_weight(k);
    if n == 0 {
        assert(0 * w <= total * 0) by (nonlinear_arith);
    } else {
        let m = (n - 1) as nat;
        lemma_shares_within_weights(total, k, m);
        let paid = shares_paid(total, k, m);
        let share = reward_share(total, k, m);
        let weight = weight_of(k, m);
        let product = total * weight;
        assert(share == product / w);
        assert(0 <= (product / w) * w <= product) by (nonlinear_arith)
            requires
                w >= 1,
                product >= 0,
        ;
        assert(product >= 0) by (nonlinear_arith)
            requires
                product == total * weight,
                total >= 0,
                weight >= 0,
        ;
        assert(share >= 0) by (nonlinear_arith)
            requires
                share == product / w,
                product >= 0,
                w >= 1,
        ;
        assert((paid + share) * w == paid * w + share * w) by (nonlinear_arith);
        assert(total * (weights_of_first(k, m) + weight) == total * weights_of_first(k, m) + total
            * weight) by (nonlinear_arith);
    }
}

/// The pool is never overpaid: on a leaderboard of `k` places, what all
/// `k` ranks are paid together is at most the whole pool. Because each share
/// is rounded down, it may be less.
pub proof fn lemma_shares_within_pool(total: nat, k: nat)
    requires
        k >= 1,
    ensures
        0 <= shares_paid(total, k, k) <= total,
{
    lemma_total_weight(k);
    lemma_weights_of_first(k, k);
    lemma_shares_within_weights(total, k, k);
    let w = total_weight(k);
    let paid = shares_paid(total, k, k);
    assert(2 * k * k - k * (k - 1) == k * (k + 1)) by (nonlinear_arith);
    assert(weights_of_first(k, k) == w);
    assert(paid <= total) by (nonlinear_arith)
        requires
            paid * w <= total * w,
            w >= 1,
    ;
}

/// No share is more than the pool, and none is negative.
pub proof fn lemma_share_within_pool(total: nat, k: nat, rank: nat)
    requires
        rank < k,
    ensures
        0 <= reward_share(total, k, rank) <= total,
{
    lemma_total_weight(k);
    let w = total_weight(k);
    let weight = weight_of(k, rank);
    assert(0 <= (total * weight) / w <= total) by (nonlinear_arith)
        requires
            1 <= weight <= w,
            total >= 0,
    ;
}

/// The share of a pool of `total_reward` that the participant at `rank` of
/// `k` places is paid.
///
/// Fails with `MathOverflow` where the rank is not one of the `k` places.
pub fn calculate_reward_share(total_reward: u64, k: u16, rank: usize) -> (r: Result<u64, ErrorCode>)
    ensures
        rank < k ==> r == Ok::<u64, ErrorCode>(
            reward_share(total_reward as nat, k as nat, rank as nat) as u64,
        ) && 0 <= reward_share(total_reward as nat, k as nat, rank as nat) <= total_reward,
        rank >= k ==> r == Err::<u64, ErrorCode>(ErrorCode::MathOverflow),
{
    if rank >= k as usize {
        return Err(ErrorCode::MathOverflow);
    }
    proof {
        lemma_total_weight(k as nat);
        lemma_share_within_pool(total_reward as nat, k as nat, rank as nat);
    }
    let places: u128 = k as u128;
    let weight: u128 = places - rank as u128;
    assert(places * (places + 1) <= 0x1_0000_0000) by (nonlinear_arith)
        requires
            places <= 0xFFFF,
    ;
    let all: u128 = places * (places + 1) / 2;
    assert(total_reward as u128 * weight <= 0x1_0000_0000_0000_0000_0000) by (nonlinear_arith)
        requires
            total_reward <= 0xFFFF_FFFF_FFFF_FFFF,
            weight <= 0xFFFF,
    ;
    let share: u128 = total_reward as u128 * weight / all;
    Ok(share as u64)
}

/// What a claim does: the participant afterwards and the share to be paid
/// out, or the reason why nothing is paid.
///
/// Rewards are paid once the league is closed, once to each participant, and
/// only to those who stand on the equity leaderboard.
pub open spec fn claim_outcome(
    league: LeagueView,
    board: LeaderboardView,
    participant: ParticipantView,
    participant_key: Key,
) -> Result<(ParticipantView, u64), ErrorCode> {
    if league.status != LeagueStatus::Closed {
        Err(ErrorCode::LeagueNotClosed)
    } else if participant.claimed {
        Err(ErrorCode::AlreadyClaimed)
    } else {
        match rank_of(board.topk_equity, participant_key) {
            None => Err(ErrorCode::NotInTopK),
            Some(rank) => if rank >= board.k {
                Err(ErrorCode::MathOverflow)
            } else {
                Ok(
                    (
                        ParticipantView { claimed: true, ..participant },
                        reward_share(
                            league.total_reward_amount as nat,
                            board.k as nat,
                            rank as nat,
                        ) as u64,
                    ),
                )
            },
        }
    }
}

/// A reward is claimed once: after a claim that succeeded, the same
/// participant's next claim fails with `AlreadyClaimed`, whatever else has
/// changed in the meantime.
pub proof fn lemma_claim_is_once(
    league: LeagueView,
    board: LeaderboardView,
    participant: ParticipantView,
    participant_key: Key,
    later_league: LeagueView,
    later_board: LeaderboardView,
)
    requires
        claim_outcome(league, board, participant, participant_key) is Ok,
        later_league.status == LeagueStatus::Closed,
    ensures
        claim_outcome(
            later_league,
            later_board,
            claim_outcome(league, board, participant, participant_key).unwrap().0,
            participant_key,
        ) == Err::<(ParticipantView, u64), ErrorCode>(ErrorCode::AlreadyClaimed),
{
}

/// Claims a participant's share of the reward pool.
///
/// On success the share to be paid out is returned and the participant is
/// marked as paid. On failure the participant is untouched.
pub fn claim_reward(
    league: &League,
    leaderboard: &Leaderboard,
    participant: &mut Participant,
    participant_key: Key,
) -> (r: Result<u64, ErrorCode>)
    ensures
        match r {
            Ok(share) => claim_outcome(league@, leaderboard@, old(participant)@, participant_key)
                == Ok::<(ParticipantView, u64), ErrorCode>((final(participant)@, share)) && share
                <= league.total_reward_amount,
            Err(e) => claim_outcome(league@, leaderboard@, old(participant)@, participant_key)
                == Err::<(ParticipantView, u64), ErrorCode>(e) && *final(participant) == *old(
                participant,
            ),
        },
        old(participant)@.wf() ==> final(participant)@.wf(),
{
    if league.status != LeagueStatus::Closed {
        return Err(ErrorCode::LeagueNotClosed);
    }
    if participant.claimed {
        return Err(ErrorCode::AlreadyClaimed);
    }
    let rank = match find_rank(&leaderboard.topk_equity, participant_key) {
        Some(rank) => rank,
        None => {
            return Err(ErrorCode::NotInTopK);
        },
    };
    let share = calculate_reward_share(league.total_reward_amount, leaderboard.k, rank)?;
    participant.claimed = true;
    Ok(share)
}

} // verus!
