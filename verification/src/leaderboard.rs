use crate::errors::ErrorCode;
use crate::key::Key;
use vstd::prelude::*;

verus! {

/// The most places that a leaderboard may have.
pub const MAX_TOP_K: u16 = 50;

/// The ranking of one league: the `k` best participants by equity and the `k`
/// best by volume, each list with the best first.
///
/// An entry is a snapshot of a participant's score at its last refresh. A
/// participant stands in a list only while it ranks among the best `k`.
#[derive(Clone, Debug, PartialEq, Eq)]
pub struct Leaderboard {
    pub league: Key,
    pub k: u16,
    pub topk_equity: Vec<Key>,
    pub topk_equity_scores: Vec<i64>,
    pub topk_volume: Vec<Key>,
    pub topk_volume_scores: Vec<i64>,
    pub last_updated: i64,
    pub bump: u8,
}

/// A leaderboard as a mathematical value.
pub struct LeaderboardView {
    pub league: Key,
    pub k: u16,
    pub topk_equity: Seq<Key>,
    pub topk_equity_scores: Seq<i64>,
    pub topk_volume: Seq<Key>,
    pub topk_volume_scores: Seq<i64>,
    pub last_updated: i64,
    pub bump: u8,
}

impl View for Leaderboard {
    type V = LeaderboardView;

    open spec fn view(&self) -> LeaderboardView {
        LeaderboardView {
            league: self.league,
            k: self.k,
            topk_equity: self.topk_equity@,
            topk_equity_scores: self.topk_equity_scores@,
            topk_volume: self.topk_volume@,
            topk_volume_scores: self.topk_volume_scores@,
            last_updated: self.last_updated,
            bump: self.bump,
        }
    }
}

/// The entries that two parallel lists spell: the key and the score at each
/// place that both lists have.
pub open spec fn zip(keys: Seq<Key>, scores: Seq<i64>) -> Seq<(Key, i64)> {
    Seq::new(
        if keys.len() <= scores.len() {
            keys.len()
        } else {
            scores.len()
        },
        |i: int| (keys[i], scores[i]),
    )
}

/// The keys of a list of entries, in order.
pub open spec fn keys_of(entries: Seq<(Key, i64)>) -> Seq<Key> {
    Seq::new(entries.len(), |i: int| entries[i].0)
}

/// The scores of a list of entries, in order.
pub open spec fn scores_of(entries: Seq<(Key, i64)>) -> Seq<i64> {
    Seq::new(entries.len(), |i: int| entries[i].1)
}

/// No score is followed by a higher one.
pub open spec fn is_ranked(entries: Seq<(Key, i64)>) -> bool {
    forall|i: int, j: int| 0 <= i < j < entries.len() ==> entries[i].1 >= entries[j].1
}

/// No key stands at two places.
pub open spec fn is_distinct(entries: Seq<(Key, i64)>) -> bool {
    forall|i: int, j: int| 0 <= i < j < entries.len() ==> entries[i].0 != entries[j].0
}

/// Whether some entry carries the key.
pub open spec fn has_key(entries: Seq<(Key, i64)>, key: Key) -> bool {
    exists|i: int| 0 <= i < entries.len() && entries[i].0 == key
}

/// What one list of a leaderboard with `k` places must be at all times: at
/// most `k` entries, the best first, no participant twice.
pub open spec fn is_top_list(entries: Seq<(Key, i64)>, k: nat) -> bool {
    &&& entries.len() <= k
    &&& is_ranked(entries)
    &&& is_distinct(entries)
}

/// The first place at or after `start` that carries the key, or the length of
/// the list if there is none.
pub open spec fn first_index_from(keys: Seq<Key>, key: Key, start: int) -> int
    decreases keys.len() - start,
{
    if start >= keys.len() {
        keys.len() as int
    } else if keys[start] == key {
        start
    } else {
        first_index_from(keys, key, start + 1)
    }
}

/// The place of a key in a list: its first, if it has one.
pub open spec fn rank_of(keys: Seq<Key>, key: Key) -> Option<int> {
    let i = first_index_from(keys, key, 0);
    if i < keys.len() {
        Some(i)
    } else {
        None
    }
}

/// The entries with the key's score brought up to date: in place where the
/// key already stands, at the end where it does not.
pub open spec fn merged(entries: Seq<(Key, i64)>, key: Key, score: i64) -> Seq<(Key, i64)> {
    match rank_of(keys_of(entries), key) {
        Some(i) => entries.update(i, (key, score)),
        None => entries.push((key, score)),
    }
}

/// The first place at or after `start` whose score is below `score`, or the
/// length of the list if there is none.
pub open spec fn slot_from(entries: Seq<(Key, i64)>, score: i64, start: int) -> int
    decreases entries.len() - start,
{
    if start >= entries.len() {
        entries.len() as int
    } else if entries[start].1 >= score {
        slot_from(entries, score, start + 1)
    } else {
        start
    }
}

/// The entries with the best first. Entries of equal score keep the order
/// in which they stood.
pub open spec fn ranked(entries: Seq<(Key, i64)>) -> Seq<(Key, i64)>
    decreases entries.len(),
{
    if entries.len() == 0 {
        Seq::empty()
    } else {
        let head = ranked(entries.drop_last());
        head.insert(slot_from(head, entries.last().1, 0), entries.last())
    }
}

/// The best `k` of the entries, best first.
pub open spec fn top(entries: Seq<(Key, i64)>, k: nat) -> Seq<(Key, i64)> {
    let all = ranked(entries);
    if k <= all.len() {
        all.take(k as int)
    } else {
        all
    }
}

/// One list of a leaderboard with `k` places after a participant has reported
/// a score. A leaderboard without places ranks nobody and stays as it is.
pub open spec fn updated(entries: Seq<(Key, i64)>, key: Key, score: i64, k: nat) -> Seq<
    (Key, i64),
> {
    if k == 0 {
        entries
    } else {
        top(merged(entries, key, score), k)
    }
}

impl LeaderboardView {
    /// The equity list as entries.
    pub open spec fn equity_entries(self) -> Seq<(Key, i64)> {
        zip(self.topk_equity, self.topk_equity_scores)
    }

    /// The volume list as entries.
    pub open spec fn volume_entries(self) -> Seq<(Key, i64)> {
        zip(self.topk_volume, self.topk_volume_scores)
    }

    /// Both lists are top lists of `k` places, `k` is at most fifty, and each
    /// key has its score.
    pub open spec fn wf(self) -> bool {
        &&& self.k <= MAX_TOP_K
        &&& self.topk_equity.len() == self.topk_equity_scores.len()
        &&& self.topk_volume.len() == self.topk_volume_scores.len()
        &&& is_top_list(self.equity_entries(), self.k as nat)
        &&& is_top_list(self.volume_entries(), self.k as nat)
    }

    /// The leaderboard after a participant has reported its equity.
    pub open spec fn with_equity_score(self, key: Key, score: i64) -> LeaderboardView {
        if self.k == 0 {
            self
        } else {
            let entries = updated(self.equity_entries(), key, score, self.k as nat);
            LeaderboardView {
                topk_equity: keys_of(entries),
                topk_equity_scores: scores_of(entries),
                ..self
            }
        }
    }

    /// The leaderboard after a participant has reported its volume.
    pub open spec fn with_volume_score(self, key: Key, score: i64) -> LeaderboardView {
        if self.k == 0 {
            self
        } else {
            let entries = updated(self.volume_entries(), key, score, self.k as nat);
            LeaderboardView {
                topk_volume: keys_of(entries),
                topk_volume_scores: scores_of(entries),
                ..self
            }
        }
    }
}

pub proof fn lemma_first_index(keys: Seq<Key>, key: Key, start: int)
    requires
        0 <= start <= keys.len(),
    ensures
        start <= first_index_from(keys, key, start) <= keys.len(),
        forall|i: int| start <= i < first_index_from(keys, key, start) ==> keys[i] != key,
        first_index_from(keys, key, start) < keys.len() ==> keys[first_index_from(
            keys,
            key,
            start,
        )] == key,
    decreases keys.len() - start,
{
    if start < keys.len() && keys[start] != key {
        lemma_first_index(keys, key, start + 1);
    }
}

pub proof fn lemma_slot(entries: Seq<(Key, i64)>, score: i64, start: int)
    requires
        0 <= start <= entries.len(),
    ensures
        start <= slot_from(entries, score, start) <= entries.len(),
        forall|i: int| start <= i < slot_from(entries, score, start) ==> entries[i].1 >= score,
        slot_from(entries, score, start) < entries.len() ==> entries[slot_from(
            entries,
            score,
            start,
        )].1 < score,
    decreases entries.len() - start,
{
    if start < entries.len() && entries[start].1 >= score {
        lemma_slot(entries, score, start + 1);
    }
}

/// Bringing a score up to date keeps a list free of repeated keys, and
/// leaves the key in it.
pub proof fn lemma_merged_distinct(entries: Seq<(Key, i64)>, key: Key, score: i64)
    requires
        is_distinct(entries),
    ensures
        is_distinct(merged(entries, key, score)),
        has_key(merged(entries, key, score), key),
        entries.len() <= merged(entries, key, score).len() <= entries.len() + 1,
{
    let keys = keys_of(entries);
    lemma_first_index(keys, key, 0);
    let i = first_index_from(keys, key, 0);
    let after = merged(entries, key, score);
    if i < keys.len() {
        assert(keys[i] == entries[i].0);
        assert(after[i].0 == key);
    } else {
        assert forall|j: int| 0 <= j < entries.len() implies entries[j].0 != key by {
            assert(keys[j] == entries[j].0);
        }
        assert(after[entries.len() as int].0 == key);
    }
}

/// Ranking moves entries and neither adds nor drops one: the result is as
/// long as the list, its scores never rise, and a key stands in it exactly
/// when it stood in the list.
pub proof fn lemma_ranked(entries: Seq<(Key, i64)>)
    ensures
        ranked(entries).len() == entries.len(),
        is_ranked(ranked(entries)),
        forall|key: Key| has_key(ranked(entries), key) <==> has_key(entries, key),
        is_distinct(entries) ==> is_distinct(ranked(entries)),
        ranked(entries).to_multiset() == entries.to_multiset(),
    decreases entries.len(),
{
    broadcast use vstd::seq_lib::to_multiset_insert;
    broadcast use vstd::seq_lib::to_multiset_build;

    if entries.len() == 0 {
        assert(entries =~= Seq::empty());
    } else {
        let init = entries.drop_last();
        let last = entries.last();
        let head = ranked(init);
        lemma_ranked(init);
        lemma_slot(head, last.1, 0);
        let p = slot_from(head, last.1, 0);
        let out = head.insert(p, last);
        assert(out == ranked(entries));
        assert(is_ranked(out)) by {
            assert forall|i: int, j: int| 0 <= i < j < out.len() implies out[i].1 >= out[j].1 by {
                if j < p {
                    assert(out[i] == head[i] && out[j] == head[j]);
                } else if j == p {
                    assert(out[i] == head[i]);
                } else if i < p {
                    assert(out[i] == head[i] && out[j] == head[j - 1]);
                    assert(head[p].1 >= head[j - 1].1 || p == j - 1);
                } else if i == p {
                    assert(out[j] == head[j - 1]);
                    assert(head[p].1 >= head[j - 1].1 || p == j - 1);
                } else {
                    assert(out[i] == head[i - 1] && out[j] == head[j - 1]);
                }
            }
        }
        assert forall|key: Key| has_key(out, key) <==> has_key(entries, key) by {
            if has_key(out, key) {
                let i = choose|i: int| 0 <= i < out.len() && out[i].0 == key;
                if i == p {
                    assert(entries[entries.len() - 1].0 == key);
                } else {
                    let h = if i < p {
                        i
                    } else {
                        i - 1
                    };
                    assert(head[h].0 == key);
                    assert(has_key(head, key));
                    assert(has_key(init, key));
                    let t = choose|t: int| 0 <= t < init.len() && init[t].0 == key;
                    assert(entries[t].0 == key);
                }
            }
            if has_key(entries, key) {
                let t = choose|t: int| 0 <= t < entries.len() && entries[t].0 == key;
                if t == entries.len() - 1 {
                    assert(out[p].0 == key);
                } else {
                    assert(init[t].0 == key);
                    assert(has_key(init, key));
                    assert(has_key(head, key));
                    let h = choose|h: int| 0 <= h < head.len() && head[h].0 == key;
                    if h < p {
                        assert(out[h].0 == key);
                    } else {
                        assert(out[h + 1].0 == key);
                    }
                }
            }
        }
        if is_distinct(entries) {
            assert(is_distinct(init)) by {
                assert forall|i: int, j: int| 0 <= i < j < init.len() implies init[i].0
                    != init[j].0 by {
                    assert(init[i] == entries[i] && init[j] == entries[j]);
                }
            }
            assert(!has_key(init, last.0)) by {
                if has_key(init, last.0) {
                    let t = choose|t: int| 0 <= t < init.len() && init[t].0 == last.0;
                    assert(entries[t].0 == entries[entries.len() - 1].0);
                }
            }
            assert(!has_key(head, last.0));
            assert forall|i: int, j: int| 0 <= i < j < out.len() implies out[i].0 != out[j].0 by {
                let hi = if i < p {
                    i
                } else {
                    i - 1
                };
                let hj = if j < p {
                    j
                } else {
                    j - 1
                };
                if i == p {
                    assert(out[j] == head[hj]);
                    assert(0 <= hj < head.len());
                } else if j == p {
                    assert(out[i] == head[hi]);
                    assert(0 <= hi < head.len());
                } else {
                    assert(out[i] == head[hi] && out[j] == head[hj]);
                }
            }
        }
        assert(entries =~= init.push(last));
        assert(out.to_multiset() =~= entries.to_multiset());
    }
}

/// After any report of a score to a leaderboard with places, the list holds
/// at most `k` entries, with scores that never rise from one place to the
/// next, whatever it held before.
pub proof fn lemma_updated_is_ranked(entries: Seq<(Key, i64)>, key: Key, score: i64, k: nat)
    requires
        k > 0,
    ensures
        updated(entries, key, score, k).len() <= k,
        is_ranked(updated(entries, key, score, k)),
{
    let all = merged(entries, key, score);
    lemma_ranked(all);
    let sorted = ranked(all);
    let out = top(all, k);
    assert forall|i: int, j: int| 0 <= i < j < out.len() implies out[i].1 >= out[j].1 by {
        assert(out[i] == sorted[i] && out[j] == sorted[j]);
    }
}

/// The leaderboard's law: after any report of a score, a list that had no
/// participant twice holds at most `k` entries, with scores that never rise
/// from one place to the next, and still has no participant twice.
pub proof fn lemma_updated_is_top_list(entries: Seq<(Key, i64)>, key: Key, score: i64, k: nat)
    requires
        is_distinct(entries),
        k == 0 ==> is_top_list(entries, k),
    ensures
        is_top_list(updated(entries, key, score, k), k),
{
    if k > 0 {
        let all = merged(entries, key, score);
        lemma_merged_distinct(entries, key, score);
        lemma_ranked(all);
        let sorted = ranked(all);
        let out = top(all, k);
        assert forall|i: int, j: int| 0 <= i < j < out.len() implies out[i].1 >= out[j].1
            && out[i].0 != out[j].0 by {
            assert(out[i] == sorted[i] && out[j] == sorted[j]);
        }
    }
}

/// Taking a list of entries apart into keys and scores and putting it
/// together again gives the list.
pub proof fn lemma_zip_of_parts(entries: Seq<(Key, i64)>)
    ensures
        zip(keys_of(entries), scores_of(entries)) == entries,
{
    assert(zip(keys_of(entries), scores_of(entries)) =~= entries);
}

/// A well-formed leaderboard stays well-formed whoever reports whatever
/// score, on either list.
pub proof fn lemma_update_keeps_wf(board: LeaderboardView, key: Key, score: i64)
    requires
        board.wf(),
    ensures
        board.with_equity_score(key, score).wf(),
        board.with_volume_score(key, score).wf(),
{
    if board.k > 0 {
        let equity = updated(board.equity_entries(), key, score, board.k as nat);
        lemma_updated_is_top_list(board.equity_entries(), key, score, board.k as nat);
        lemma_zip_of_parts(equity);
        let volume = updated(board.volume_entries(), key, score, board.k as nat);
        lemma_updated_is_top_list(board.volume_entries(), key, score, board.k as nat);
        lemma_zip_of_parts(volume);
    }
}

/// Nobody left out of the best `k` outscores anybody in it: every entry
/// that ranking puts behind the cut scores no more than every entry in front.
pub proof fn lemma_top_is_best(entries: Seq<(Key, i64)>, k: nat)
    ensures
        top(entries, k).len() == if k <= entries.len() {
            k
        } else {
            entries.len()
        },
        forall|i: int, j: int|
            0 <= i < top(entries, k).len() <= j < entries.len() ==> top(entries, k)[i].1 >= ranked(
                entries,
            )[j].1,
{
    lemma_ranked(entries);
    let sorted = ranked(entries);
    let out = top(entries, k);
    assert forall|i: int, j: int| 0 <= i < out.len() <= j < entries.len() implies out[i].1
        >= sorted[j].1 by {
        assert(out[i] == sorted[i]);
    }
}

/// Brings one participant's score up to date in a list of `k` places that is
/// held as two parallel vectors.
///
/// The participant's entry is replaced where it stands, or added, then the
/// entries are ranked with the best first and the best `k` are kept. With
/// `k == 0` nothing is ranked and the vectors stay as they are.
pub fn update_topk_list(
    list: &mut Vec<Key>,
    scores: &mut Vec<i64>,
    key: Key,
    score: i64,
    k: u16,
) -> (r: Result<(), ErrorCode>)
    ensures
        r is Ok,
        k == 0 ==> final(list)@ == old(list)@ && final(scores)@ == old(scores)@,
        k > 0 ==> final(list)@ == keys_of(
            updated(zip(old(list)@, old(scores)@), key, score, k as nat),
        ),
        k > 0 ==> final(scores)@ == scores_of(
            updated(zip(old(list)@, old(scores)@), key, score, k as nat),
        ),
        k > 0 ==> final(list)@.len() <= k && is_ranked(zip(final(list)@, final(scores)@)),
        k > 0 && is_distinct(zip(old(list)@, old(scores)@)) ==> is_top_list(
            zip(final(list)@, final(scores)@),
            k as nat,
        ),
{
    if k == 0 {
        return Ok(());
    }
    let ghost before = zip(list@, scores@);
    proof {
        let after = updated(before, key, score, k as nat);
        lemma_updated_is_ranked(before, key, score, k as nat);
        lemma_zip_of_parts(after);
        if is_distinct(before) {
            lemma_updated_is_top_list(before, key, score, k as nat);
        }
    }
    let mut combined: Vec<(Key, i64)> = Vec::new();
    let n: usize = if list.len() <= scores.len() {
        list.len()
    } else {
        scores.len()
    };
    let mut i: usize = 0;
    while i < n
        invariant
            i <= n,
            n == before.len(),
            n <= list@.len(),
            n <= scores@.len(),
            before == zip(list@, scores@),
            combined@ == before.take(i as int),
        decreases n - i,
    {
        combined.push((list[i], scores[i]));
        assert(combined@ =~= before.take(i + 1));
        i += 1;
    }
    assert(combined@ =~= before);

    let ghost keys = keys_of(before);
    let mut pos: usize = 0;
    while pos < combined.len() && !(combined[pos].0 == key)
        invariant
            pos <= combined@.len(),
            combined@ == before,
            keys == keys_of(before),
            first_index_from(keys, key, 0) == first_index_from(keys, key, pos as int),
        decreases combined@.len() - pos,
    {
        assert(keys[pos as int] == combined@[pos as int].0);
        pos += 1;
    }
    if pos < combined.len() {
        assert(keys[pos as int] == combined@[pos as int].0);
        combined[pos] = (key, score);
    } else {
        combined.push((key, score));
    }
    let ghost all = merged(before, key, score);
    assert(combined@ == all);

    let mut sorted: Vec<(Key, i64)> = Vec::new();
    let mut j: usize = 0;
    while j < combined.len()
        invariant
            j <= combined@.len(),
            combined@ == all,
            sorted@ == ranked(all.take(j as int)),
        decreases combined@.len() - j,
    {
        let entry = combined[j];
        let mut p: usize = 0;
        while p < sorted.len() && sorted[p].1 >= entry.1
            invariant
                p <= sorted@.len(),
                slot_from(sorted@, entry.1, 0) == slot_from(sorted@, entry.1, p as int),
            decreases sorted@.len() - p,
        {
            p += 1;
        }
        proof {
            let next = all.take(j + 1);
            assert(next.drop_last() =~= all.take(j as int));
            assert(next.last() == entry);
        }
        sorted.insert(p, entry);
        j += 1;
    }
    assert(all.take(all.len() as int) =~= all);

    let kept: usize = if (k as usize) <= sorted.len() {
        k as usize
    } else {
        sorted.len()
    };
    let ghost out = top(all, k as nat);
    assert(out =~= sorted@.take(kept as int));
    list.clear();
    scores.clear();
    let mut t: usize = 0;
    while t < kept
        invariant
            t <= kept,
            kept <= sorted@.len(),
            out == sorted@.take(kept as int),
            list@ == keys_of(out).take(t as int),
            scores@ == scores_of(out).take(t as int),
        decreases kept - t,
    {
        list.push(sorted[t].0);
        scores.push(sorted[t].1);
        assert(list@ =~= keys_of(out).take(t + 1));
        assert(scores@ =~= scores_of(out).take(t + 1));
        t += 1;
    }
    assert(list@ =~= keys_of(out));
    assert(scores@ =~= scores_of(out));
    Ok(())
}

impl Leaderboard {
    /// An empty leaderboard of `k` places for a league.
    ///
    /// Fails with `InvalidLeaderboardSizeLimit` where `k` is above fifty.
    pub fn new(league: Key, k: u16, bump: u8) -> (r: Result<Leaderboard, ErrorCode>)
        ensures
            k > MAX_TOP_K ==> r == Err::<Leaderboard, ErrorCode>(
                ErrorCode::InvalidLeaderboardSizeLimit,
            ),
            k <= MAX_TOP_K ==> r is Ok && r.unwrap()@ == (LeaderboardView {
                league,
                k,
                topk_equity: Seq::empty(),
                topk_equity_scores: Seq::empty(),
                topk_volume: Seq::empty(),
                topk_volume_scores: Seq::empty(),
                last_updated: 0,
                bump,
            }) && r.unwrap()@.wf(),
    {
        if k > MAX_TOP_K {
            return Err(ErrorCode::InvalidLeaderboardSizeLimit);
        }
        Ok(
            Leaderboard {
                league,
                k,
                topk_equity: Vec::new(),
                topk_equity_scores: Vec::new(),
                topk_volume: Vec::new(),
                topk_volume_scores: Vec::new(),
                last_updated: 0,
                bump,
            },
        )
    }
}

/// Brings a participant's equity up to date on the leaderboard.
pub fn update_topk_equity(leaderboard: &mut Leaderboard, key: Key, score: i64) -> (r: Result<
    (),
    ErrorCode,
>)
    ensures
        r is Ok,
        final(leaderboard)@ == old(leaderboard)@.with_equity_score(key, score),
        old(leaderboard)@.wf() ==> final(leaderboard)@.wf(),
{
    proof {
        if leaderboard@.wf() {
            lemma_update_keeps_wf(leaderboard@, key, score);
        }
    }
    let k = leaderboard.k;
    update_topk_list(
        &mut leaderboard.topk_equity,
        &mut leaderboard.topk_equity_scores,
        key,
        score,
        k,
    )
}

/// Brings a participant's volume up to date on the leaderboard.
pub fn update_topk_volume(leaderboard: &mut Leaderboard, key: Key, score: i64) -> (r: Result<
    (),
    ErrorCode,
>)
    ensures
        r is Ok,
        final(leaderboard)@ == old(leaderboard)@.with_volume_score(key, score),
        old(leaderboard)@.wf() ==> final(leaderboard)@.wf(),
{
    proof {
        if leaderboard@.wf() {
            lemma_update_keeps_wf(leaderboard@, key, score);
        }
    }
    let k = leaderboard.k;
    update_topk_list(
        &mut leaderboard.topk_volume,
        &mut leaderboard.topk_volume_scores,
        key,
        score,
        k,
    )
}

/// The place of a key in a list of keys: its first, if it has one.
pub fn find_rank(list: &Vec<Key>, key: Key) -> (rank: Option<usize>)
    ensures
        match rank {
            Some(i) => rank_of(list@, key) == Some(i as int),
            None => rank_of(list@, key) is None,
        },
{
    let mut i: usize = 0;
    while i < list.len() && !(list[i] == key)
        invariant
            i <= list@.len(),
            first_index_from(list@, key, 0) == first_index_from(list@, key, i as int),
        decreases list@.len() - i,
    {
        i += 1;
    }
    if i < list.len() {
        Some(i)
    } else {
        None
    }
}

} // verus!
