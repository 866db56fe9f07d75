use r2048::engine::{
    add_random_tile, all_nonzero, apply_action, create_board, merge_down, merge_left, merge_right,
    merge_up, score, slide_down, slide_left, slide_right, slide_up, EngineError,
};

fn count_of(board: &Vec<u8>, value: u8) -> usize {
    board.iter().filter(|&&c| c == value).count()
}

#[test]
fn slide_left_compacts_rows() {
    let mut b: Vec<u8> = vec![0, 1, 0, 2, 0, 0, 0, 3, 4, 0, 0, 0, 0, 0, 0, 0];
    slide_left(&mut b);
    assert_eq!(b, vec![1, 2, 0, 0, 3, 0, 0, 0, 4, 0, 0, 0, 0, 0, 0, 0]);
}

#[test]
fn slide_right_compacts_rows() {
    let mut b: Vec<u8> = vec![1, 0, 2, 0, 3, 0, 0, 0, 0, 0, 0, 0, 0, 4, 0, 5];
    slide_right(&mut b);
    assert_eq!(b, vec![0, 0, 1, 2, 0, 0, 0, 3, 0, 0, 0, 0, 0, 0, 4, 5]);
}

#[test]
fn slide_up_compacts_columns() {
    let mut b: Vec<u8> = vec![0, 0, 0, 1, 1, 0, 0, 0, 0, 2, 0, 0, 3, 0, 4, 2];
    slide_up(&mut b);
    assert_eq!(b, vec![1, 2, 4, 1, 3, 0, 0, 2, 0, 0, 0, 0, 0, 0, 0, 0]);
}

#[test]
fn slide_down_compacts_columns() {
    let mut b: Vec<u8> = vec![1, 2, 0, 0, 0, 0, 0, 0, 3, 0, 0, 0, 0, 0, 0, 4];
    slide_down(&mut b);
    assert_eq!(b, vec![0, 0, 0, 0, 0, 0, 0, 0, 1, 0, 0, 0, 3, 2, 0, 4]);
}

#[test]
fn slide_is_idempotent() {
    let mut once: Vec<u8> = vec![0, 1, 0, 1, 2, 0, 3, 0, 0, 0, 0, 5, 1, 2, 3, 4];
    slide_left(&mut once);
    let mut twice = once.clone();
    slide_left(&mut twice);
    assert_eq!(once, twice);
    let mut once_up: Vec<u8> = vec![0, 1, 0, 1, 2, 0, 3, 0, 0, 0, 0, 5, 1, 2, 3, 4];
    slide_up(&mut once_up);
    let mut twice_up = once_up.clone();
    slide_up(&mut twice_up);
    assert_eq!(once_up, twice_up);
}

#[test]
fn merge_left_is_a_single_pass() {
    let mut b: Vec<u8> = vec![1, 1, 1, 1, 0, 0, 0, 0, 0, 0, 0, 0, 0, 0, 0, 0];
    merge_left(&mut b);
    assert_eq!(b, vec![2, 0, 2, 0, 0, 0, 0, 0, 0, 0, 0, 0, 0, 0, 0, 0]);
}

#[test]
fn merge_left_combines_equal_pairs() {
    let mut b: Vec<u8> = vec![2, 2, 3, 3, 1, 2, 2, 1, 5, 0, 0, 5, 1, 2, 3, 4];
    merge_left(&mut b);
    assert_eq!(b, vec![3, 0, 4, 0, 1, 3, 0, 1, 5, 0, 0, 5, 1, 2, 3, 4]);
}

#[test]
fn merge_right_sweeps_from_the_right() {
    let mut b: Vec<u8> = vec![1, 1, 1, 1, 0, 2, 2, 2, 0, 0, 0, 0, 0, 0, 0, 0];
    merge_right(&mut b);
    assert_eq!(b, vec![0, 2, 0, 2, 0, 2, 0, 3, 0, 0, 0, 0, 0, 0, 0, 0]);
}

#[test]
fn merge_up_combines_columns() {
    let mut b: Vec<u8> = vec![1, 2, 0, 4, 1, 2, 0, 4, 3, 0, 5, 4, 3, 0, 5, 4];
    merge_up(&mut b);
    assert_eq!(b, vec![2, 3, 0, 5, 0, 0, 0, 0, 4, 0, 6, 5, 0, 0, 0, 0]);
}

#[test]
fn merge_down_combines_columns() {
    let mut b: Vec<u8> = vec![1, 0, 0, 0, 1, 0, 0, 0, 2, 0, 0, 0, 2, 0, 0, 0];
    merge_down(&mut b);
    assert_eq!(b, vec![0, 0, 0, 0, 2, 0, 0, 0, 0, 0, 0, 0, 3, 0, 0, 0]);
}

#[test]
fn score_sums_the_lookup_table() {
    let b: Vec<u8> = vec![0, 1, 2, 3, 4, 0, 0, 0, 0, 0, 0, 0, 0, 0, 0, 17];
    // 0 + 0 + 4 + 12 + 28 + 262140
    assert_eq!(score(&b), 262184);
    let empty: Vec<u8> = vec![0; 16];
    assert_eq!(score(&empty), 0);
}

#[test]
fn create_board_spawns_exactly_two_ones() {
    for _ in 0..50 {
        let b = create_board();
        assert_eq!(b.len(), 16);
        assert_eq!(count_of(&b, 1), 2);
        assert_eq!(count_of(&b, 0), 14);
    }
}

#[test]
fn add_random_tile_fills_one_empty_cell() {
    for _ in 0..20 {
        let mut b: Vec<u8> = vec![1, 2, 3, 4, 4, 3, 2, 1, 1, 2, 3, 4, 4, 3, 2, 0];
        add_random_tile(&mut b);
        assert!(b[15] == 1 || b[15] == 2);
        assert_eq!(&b[..15], &[1, 2, 3, 4, 4, 3, 2, 1, 1, 2, 3, 4, 4, 3, 2][..]);
    }
}

#[test]
fn apply_action_rejects_wrong_length() {
    let r = apply_action(vec![1, 0, 0, 0], 1);
    assert_eq!(r, Err(EngineError::InvalidInput));
}

#[test]
fn apply_action_rejects_unknown_code() {
    let r = apply_action(vec![0; 16], 4);
    assert_eq!(r, Err(EngineError::InvalidInput));
}

#[test]
fn apply_action_rejects_oversized_cell() {
    let mut b: Vec<u8> = vec![0; 16];
    b[0] = 18;
    let r = apply_action(b, 1);
    assert_eq!(r, Err(EngineError::InvalidInput));
}

#[test]
fn apply_action_refuses_merging_largest_tiles() {
    let mut b: Vec<u8> = vec![0; 16];
    b[0] = 17;
    b[1] = 17;
    let r = apply_action(b, 1);
    assert_eq!(r, Err(EngineError::InvariantViolation));
}

#[test]
fn apply_action_noop_spawns_nothing() {
    // Already compacted to the left, no merge possible: Left changes nothing.
    let b: Vec<u8> = vec![1, 2, 3, 4, 0, 0, 0, 0, 0, 0, 0, 0, 0, 0, 0, 0];
    let (new_board, delta, done) = apply_action(b.clone(), 1).unwrap();
    assert_eq!(new_board, b);
    assert_eq!(delta, 0);
    assert!(!done);
}

#[test]
fn apply_action_up_merges_the_column_pair() {
    // The two 1 tiles share column 0, so Up merges them into one 2.
    let b: Vec<u8> = vec![1, 0, 0, 0, 1, 0, 0, 0, 0, 0, 0, 0, 0, 0, 0, 0];
    let (new_board, delta, done) = apply_action(b, 3).unwrap();
    assert_eq!(new_board[0], 2);
    // One freshly spawned 1 or 2 somewhere that was empty before.
    let spawned: Vec<usize> = (1..16).filter(|&i| new_board[i] != 0).collect();
    assert_eq!(spawned.len(), 1);
    assert!(new_board[spawned[0]] == 1 || new_board[spawned[0]] == 2);
    // Score delta: 4 from the single merge, plus 4 if the spawned tile was a 4.
    if new_board[spawned[0]] == 2 {
        assert_eq!(delta, 8);
    } else {
        assert_eq!(delta, 4);
    }
    assert!(!done);
}

#[test]
fn apply_action_left_merges_row_pairs() {
    // With the pairs lying within rows, Left merges each row to [2,0,0,0].
    let b: Vec<u8> = vec![1, 1, 0, 0, 1, 1, 0, 0, 0, 0, 0, 0, 0, 0, 0, 0];
    let (new_board, delta, done) = apply_action(b, 1).unwrap();
    assert_eq!(new_board[0], 2);
    assert_eq!(new_board[4], 2);
    let spawned: Vec<usize> = (0..16).filter(|&i| i != 0 && i != 4 && new_board[i] != 0).collect();
    assert_eq!(spawned.len(), 1);
    assert!(new_board[spawned[0]] == 1 || new_board[spawned[0]] == 2);
    assert!(delta == 8 || delta == 12);
    assert!(!done);
}

#[test]
fn apply_action_merge_scores_four() {
    // [1,1,0,0] merges to [2,0,0,0]: the merge is worth 4.
    let b: Vec<u8> = vec![1, 1, 0, 0, 3, 4, 5, 6, 6, 5, 4, 3, 3, 4, 5, 6];
    let (new_board, delta, _done) = apply_action(b, 1).unwrap();
    assert_eq!(new_board[0], 2);
    assert!(delta == 4 || delta == 8);
}

#[test]
fn terminal_reported_on_the_filling_move() {
    // Rows 0-2 are full with no adjacent pairs; row 3 slides left and the
    // single remaining empty cell gets the spawned tile, whose neighbours
    // (5 to its left, 6 above) match neither 1 nor 2.
    let b: Vec<u8> = vec![3, 2, 3, 4, 5, 6, 5, 6, 3, 2, 3, 4, 0, 5, 6, 5];
    let (new_board, _delta, done) = apply_action(b, 1).unwrap();
    assert!(all_nonzero(&new_board));
    assert!(done);
}

#[test]
fn full_board_with_a_pair_is_not_terminal() {
    // Same shape, but column 0 of the result holds a vertical 3-3 pair.
    let b: Vec<u8> = vec![3, 2, 3, 4, 3, 6, 5, 6, 2, 3, 2, 3, 0, 5, 6, 5];
    let (new_board, _delta, done) = apply_action(b, 1).unwrap();
    assert!(all_nonzero(&new_board));
    assert!(!done);
}

#[test]
fn score_never_decreases_over_a_game() {
    let mut board = create_board();
    let mut total = score(&board);
    let mut steps = 0;
    while steps < 200 {
        let action = steps % 4;
        let (next, delta, done) = apply_action(board.clone(), action).unwrap();
        let next_score = score(&next);
        assert!(next_score >= total);
        assert_eq!(next_score - total, delta);
        total = next_score;
        board = next;
        if done {
            break;
        }
        steps += 1;
    }
}
