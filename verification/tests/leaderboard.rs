use tdf::errors::ErrorCode;
use tdf::key::Key;
use tdf::leaderboard::{
    find_rank, update_topk_equity, update_topk_list, update_topk_volume, Leaderboard,
};

fn key(n: u8) -> Key {
    Key::new([n; 32])
}

fn report(list: &mut Vec<Key>, scores: &mut Vec<i64>, who: u8, score: i64, k: u16) {
    assert_eq!(update_topk_list(list, scores, key(who), score, k), Ok(()));
}

fn holds_invariant(list: &Vec<Key>, scores: &Vec<i64>, k: u16) -> bool {
    if list.len() != scores.len() || list.len() > k as usize {
        return false;
    }
    for i in 1..scores.len() {
        if scores[i - 1] < scores[i] {
            return false;
        }
    }
    for i in 0..list.len() {
        for j in (i + 1)..list.len() {
            if list[i] == list[j] {
                return false;
            }
        }
    }
    true
}

#[test]
fn first_score_is_ranked_first() {
    let mut list = Vec::new();
    let mut scores = Vec::new();
    report(&mut list, &mut scores, 1, 50, 3);
    assert_eq!(list, vec![key(1)]);
    assert_eq!(scores, vec![50]);
}

#[test]
fn scores_are_ranked_best_first() {
    let mut list = Vec::new();
    let mut scores = Vec::new();
    report(&mut list, &mut scores, 1, 50, 3);
    report(&mut list, &mut scores, 2, 70, 3);
    report(&mut list, &mut scores, 3, 60, 3);
    assert_eq!(list, vec![key(2), key(3), key(1)]);
    assert_eq!(scores, vec![70, 60, 50]);
}

#[test]
fn only_the_best_k_are_kept() {
    let mut list = Vec::new();
    let mut scores = Vec::new();
    report(&mut list, &mut scores, 1, 50, 3);
    report(&mut list, &mut scores, 2, 70, 3);
    report(&mut list, &mut scores, 3, 60, 3);
    report(&mut list, &mut scores, 4, 65, 3);
    assert_eq!(list, vec![key(2), key(4), key(3)]);
    assert_eq!(scores, vec![70, 65, 60]);
    report(&mut list, &mut scores, 5, 10, 3);
    assert_eq!(list, vec![key(2), key(4), key(3)]);
    assert_eq!(scores, vec![70, 65, 60]);
}

#[test]
fn a_new_score_replaces_the_old_one() {
    let mut list = vec![key(2), key(3), key(1)];
    let mut scores = vec![70, 60, 50];
    report(&mut list, &mut scores, 1, 80, 3);
    assert_eq!(list, vec![key(1), key(2), key(3)]);
    assert_eq!(scores, vec![80, 70, 60]);
    report(&mut list, &mut scores, 1, -5, 3);
    assert_eq!(list, vec![key(2), key(3), key(1)]);
    assert_eq!(scores, vec![70, 60, -5]);
}

#[test]
fn equal_scores_keep_their_order() {
    let mut list = vec![key(1), key(2)];
    let mut scores = vec![50, 50];
    report(&mut list, &mut scores, 3, 50, 5);
    assert_eq!(list, vec![key(1), key(2), key(3)]);
    report(&mut list, &mut scores, 1, 50, 5);
    assert_eq!(list, vec![key(1), key(2), key(3)]);
    report(&mut list, &mut scores, 4, 50, 3);
    assert_eq!(list, vec![key(1), key(2), key(3)]);
    assert_eq!(scores, vec![50, 50, 50]);
}

#[test]
fn without_places_nothing_is_ranked() {
    let mut list = Vec::new();
    let mut scores = Vec::new();
    report(&mut list, &mut scores, 1, 50, 0);
    assert!(list.is_empty());
    assert!(scores.is_empty());
    let mut odd = vec![key(9)];
    let mut odd_scores = vec![1, 2];
    report(&mut odd, &mut odd_scores, 1, 50, 0);
    assert_eq!(odd, vec![key(9)]);
    assert_eq!(odd_scores, vec![1, 2]);
}

#[test]
fn an_unranked_list_is_ranked_by_the_next_report() {
    let mut list = vec![key(1), key(2), key(3)];
    let mut scores = vec![1, 3, 2];
    report(&mut list, &mut scores, 4, 0, 10);
    assert_eq!(list, vec![key(2), key(3), key(1), key(4)]);
    assert_eq!(scores, vec![3, 2, 1, 0]);
}

#[test]
fn keys_without_a_score_are_dropped() {
    let mut list = vec![key(1), key(2), key(3)];
    let mut scores = vec![5, 4];
    report(&mut list, &mut scores, 4, 1, 10);
    assert_eq!(list, vec![key(1), key(2), key(4)]);
    assert_eq!(scores, vec![5, 4, 1]);
}

#[test]
fn invariant_holds_after_every_report() {
    let mut list = Vec::new();
    let mut scores = Vec::new();
    let mut seed: u64 = 12345;
    for _ in 0..400 {
        seed = seed.wrapping_mul(6364136223846793005).wrapping_add(1442695040888963407);
        let who = ((seed >> 33) % 12) as u8;
        let score = ((seed >> 40) % 21) as i64 - 10;
        report(&mut list, &mut scores, who, score, 5);
        assert!(holds_invariant(&list, &scores, 5));
    }
    assert_eq!(list.len(), 5);
}

#[test]
fn leaderboard_of_more_than_fifty_places_is_refused() {
    assert_eq!(
        Leaderboard::new(key(1), 51, 0),
        Err(ErrorCode::InvalidLeaderboardSizeLimit)
    );
    let board = Leaderboard::new(key(1), 50, 9).unwrap();
    assert_eq!(board.k, 50);
    assert_eq!(board.league, key(1));
    assert_eq!(board.bump, 9);
    assert_eq!(board.last_updated, 0);
    assert!(board.topk_equity.is_empty() && board.topk_equity_scores.is_empty());
    assert!(board.topk_volume.is_empty() && board.topk_volume_scores.is_empty());
}

#[test]
fn equity_and_volume_are_ranked_apart() {
    let mut board = Leaderboard::new(key(1), 2, 0).unwrap();
    assert_eq!(update_topk_equity(&mut board, key(5), 10), Ok(()));
    assert_eq!(update_topk_volume(&mut board, key(5), 900), Ok(()));
    assert_eq!(update_topk_equity(&mut board, key(6), 20), Ok(()));
    assert_eq!(update_topk_volume(&mut board, key(6), 100), Ok(()));
    assert_eq!(update_topk_equity(&mut board, key(7), 15), Ok(()));
    assert_eq!(update_topk_volume(&mut board, key(7), 50), Ok(()));
    assert_eq!(board.topk_equity, vec![key(6), key(7)]);
    assert_eq!(board.topk_equity_scores, vec![20, 15]);
    assert_eq!(board.topk_volume, vec![key(5), key(6)]);
    assert_eq!(board.topk_volume_scores, vec![900, 100]);
    assert_eq!(board.k, 2);
    assert_eq!(board.last_updated, 0);
}

#[test]
fn rank_is_the_first_place_of_a_key() {
    let list = vec![key(3), key(1), key(2), key(1)];
    assert_eq!(find_rank(&list, key(3)), Some(0));
    assert_eq!(find_rank(&list, key(1)), Some(1));
    assert_eq!(find_rank(&list, key(2)), Some(2));
    assert_eq!(find_rank(&list, key(9)), None);
    assert_eq!(find_rank(&Vec::new(), key(9)), None);
}
