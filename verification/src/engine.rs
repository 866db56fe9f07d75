//! The executable engine: the four directional slide and merge passes, board
//! construction, the move transition with random spawning, scoring, and the
//! two caller-facing entry points.

use crate::board_props::{
    lemma_board_score_is_score16, lemma_empty16_has_empty, lemma_lines_down, lemma_lines_left,
    lemma_lines_right, lemma_lines_up, lemma_merge_all_lines, lemma_merge_all_props,
    lemma_moved_props, lemma_slide_all_lines, lemma_slide_all_props, lemma_spawn_props,
    lemma_terminal_check, merge_count_all, score16,
};
use crate::lines::{merge_line, slide_line};
use crate::model::{
    board_score, bounded, cell_score, full, has_empty, is_fresh_board, is_spawn_of, is_terminal,
    merge_all, moved, slide_all, wf,
};
use crate::rng::{random_below, random_bool};
use crate::Action;
use vstd::prelude::*;

verus! {

/// Why a request to the engine was refused.
#[derive(Copy, Clone, PartialEq, Eq, Structural, Debug)]
pub enum EngineError {
    /// The board does not have 16 cells, a cell lies outside the scored
    /// range, or the action code is not one of the four known codes.
    InvalidInput,
    /// A move doubled a largest-scored tile, so the result cannot be scored.
    InvariantViolation,
}

/// The direction each action code selects.
pub open spec fn dir_of(code: int) -> Action {
    if code == 0 {
        Action::Down
    } else if code == 1 {
        Action::Left
    } else if code == 2 {
        Action::Right
    } else {
        Action::Up
    }
}

/// Slides every row's tiles to the left, without merging.
pub fn slide_left(v: &mut Vec<u8>)
    requires
        old(v)@.len() == 16,
    ensures
        final(v)@ == slide_all(old(v)@, Action::Left),
{
    slide_line(v, 0, 1, 2, 3);
    slide_line(v, 4, 5, 6, 7);
    slide_line(v, 8, 9, 10, 11);
    slide_line(v, 12, 13, 14, 15);
    proof {
        lemma_lines_left(old(v)@);
        lemma_lines_left(v@);
        lemma_slide_all_lines(old(v)@, Action::Left);
        crate::board_props::lemma_eq_from_lines(
            v@,
            slide_all(old(v)@, Action::Left),
            Action::Left,
        );
    }
}

/// Slides every row's tiles to the right, without merging.
pub fn slide_right(v: &mut Vec<u8>)
    requires
        old(v)@.len() == 16,
    ensures
        final(v)@ == slide_all(old(v)@, Action::Right),
{
    slide_line(v, 3, 2, 1, 0);
    slide_line(v, 7, 6, 5, 4);
    slide_line(v, 11, 10, 9, 8);
    slide_line(v, 15, 14, 13, 12);
    proof {
        lemma_lines_right(old(v)@);
        lemma_lines_right(v@);
        lemma_slide_all_lines(old(v)@, Action::Right);
        crate::board_props::lemma_eq_from_lines(
            v@,
            slide_all(old(v)@, Action::Right),
            Action::Right,
        );
    }
}

/// Slides every column's tiles upward, without merging.
pub fn slide_up(v: &mut Vec<u8>)
    requires
        old(v)@.len() == 16,
    ensures
        final(v)@ == slide_all(old(v)@, Action::Up),
{
    slide_line(v, 0, 4, 8, 12);
    slide_line(v, 1, 5, 9, 13);
    slide_line(v, 2, 6, 10, 14);
    slide_line(v, 3, 7, 11, 15);
    proof {
        lemma_lines_up(old(v)@);
        lemma_lines_up(v@);
        lemma_slide_all_lines(old(v)@, Action::Up);
        crate::board_props::lemma_eq_from_lines(v@, slide_all(old(v)@, Action::Up), Action::Up);
    }
}

/// Slides every column's tiles downward, without merging.
pub fn slide_down(v: &mut Vec<u8>)
    requires
        old(v)@.len() == 16,
    ensures
        final(v)@ == slide_all(old(v)@, Action::Down),
{
    slide_line(v, 12, 8, 4, 0);
    slide_line(v, 13, 9, 5, 1);
    slide_line(v, 14, 10, 6, 2);
    slide_line(v, 15, 11, 7, 3);
    proof {
        lemma_lines_down(old(v)@);
        lemma_lines_down(v@);
        lemma_slide_all_lines(old(v)@, Action::Down);
        crate::board_props::lemma_eq_from_lines(
            v@,
            slide_all(old(v)@, Action::Down),
            Action::Down,
        );
    }
}

/// One merge pass over every row, sweeping from the left edge.
pub fn merge_left(v: &mut Vec<u8>)
    requires
        old(v)@.len() == 16,
        bounded(old(v)@, 254),
    ensures
        final(v)@ == merge_all(old(v)@, Action::Left),
{
    merge_line(v, 0, 1, 2, 3);
    merge_line(v, 4, 5, 6, 7);
    merge_line(v, 8, 9, 10, 11);
    merge_line(v, 12, 13, 14, 15);
    proof {
        lemma_lines_left(old(v)@);
        lemma_lines_left(v@);
        lemma_merge_all_lines(old(v)@, Action::Left);
        crate::board_props::lemma_eq_from_lines(
            v@,
            merge_all(old(v)@, Action::Left),
            Action::Left,
        );
    }
}

/// One merge pass over every row, sweeping from the right edge.
pub fn merge_right(v: &mut Vec<u8>)
    requires
        old(v)@.len() == 16,
        bounded(old(v)@, 254),
    ensures
        final(v)@ == merge_all(old(v)@, Action::Right),
{
    merge_line(v, 3, 2, 1, 0);
    merge_line(v, 7, 6, 5, 4);
    merge_line(v, 11, 10, 9, 8);
    merge_line(v, 15, 14, 13, 12);
    proof {
        lemma_lines_right(old(v)@);
        lemma_lines_right(v@);
        lemma_merge_all_lines(old(v)@, Action::Right);
        crate::board_props::lemma_eq_from_lines(
            v@,
            merge_all(old(v)@, Action::Right),
            Action::Right,
        );
    }
}

/// One merge pass over every column, sweeping from the top edge.
pub fn merge_up(v: &mut Vec<u8>)
    requires
        old(v)@.len() == 16,
        bounded(old(v)@, 254),
    ensures
        final(v)@ == merge_all(old(v)@, Action::Up),
{
    merge_line(v, 0, 4, 8, 12);
    merge_line(v, 1, 5, 9, 13);
    merge_line(v, 2, 6, 10, 14);
    merge_line(v, 3, 7, 11, 15);
    proof {
        lemma_lines_up(old(v)@);
        lemma_lines_up(v@);
        lemma_merge_all_lines(old(v)@, Action::Up);
        crate::board_props::lemma_eq_from_lines(v@, merge_all(old(v)@, Action::Up), Action::Up);
    }
}

/// One merge pass over every column, sweeping from the bottom edge.
pub fn merge_down(v: &mut Vec<u8>)
    requires
        old(v)@.len() == 16,
        bounded(old(v)@, 254),
    ensures
        final(v)@ == merge_all(old(v)@, Action::Down),
{
    merge_line(v, 12, 8, 4, 0);
    merge_line(v, 13, 9, 5, 1);
    merge_line(v, 14, 10, 6, 2);
    merge_line(v, 15, 11, 7, 3);
    proof {
        lemma_lines_down(old(v)@);
        lemma_lines_down(v@);
        lemma_merge_all_lines(old(v)@, Action::Down);
        crate::board_props::lemma_eq_from_lines(
            v@,
            merge_all(old(v)@, Action::Down),
            Action::Down,
        );
    }
}

/// The score one cell contributes, from the fixed 18-entry table.
fn cell_score_value(e: u8) -> (r: u64)
    requires
        e <= 17,
    ensures
        r as int == cell_score(e),
        r <= 262140,
{
    proof {
        reveal(crate::model::cell_score);
        vstd::arithmetic::power2::lemma2_to64();
    }
    if e <= 1 {
        0
    } else if e == 2 {
        4
    } else if e == 3 {
        12
    } else if e == 4 {
        28
    } else if e == 5 {
        60
    } else if e == 6 {
        124
    } else if e == 7 {
        252
    } else if e == 8 {
        508
    } else if e == 9 {
        1020
    } else if e == 10 {
        2044
    } else if e == 11 {
        4092
    } else if e == 12 {
        8188
    } else if e == 13 {
        16380
    } else if e == 14 {
        32764
    } else if e == 15 {
        65532
    } else if e == 16 {
        131068
    } else {
        262140
    }
}

/// Total score of the board: the sum of every cell's table entry.
pub fn score(v: &Vec<u8>) -> (r: u64)
    requires
        wf(v@),
        bounded(v@, 17),
    ensures
        r as int == board_score(v@),
{
    let mut total: u64 = 0;
    let mut i: usize = 0;
    proof {
        assert(v@.take(0) =~= Seq::<u8>::empty());
    }
    while i < 16
        invariant
            wf(v@),
            bounded(v@, 17),
            i <= 16,
            total as int == board_score(v@.take(i as int)),
            total <= i * 262140,
        decreases 16 - i,
    {
        proof {
            crate::board_props::lemma_board_score_step(v@, i as int);
        }
        total = total + cell_score_value(v[i]);
        i = i + 1;
    }
    proof {
        assert(v@.take(16) =~= v@);
    }
    total
}

/// Whether two boards hold the same cells.
pub fn boards_equal(a: &Vec<u8>, b: &Vec<u8>) -> (r: bool)
    ensures
        r <==> a@ == b@,
{
    if a.len() != b.len() {
        return false;
    }
    let mut i: usize = 0;
    while i < a.len()
        invariant
            a@.len() == b@.len(),
            i <= a@.len(),
            forall|k: int| 0 <= k < i as int ==> a@[k] == b@[k],
        decreases a@.len() - i,
    {
        if a[i] != b[i] {
            return false;
        }
        i = i + 1;
    }
    proof {
        assert(a@ =~= b@);
    }
    true
}

/// Whether every cell of the board holds a tile.
pub fn all_nonzero(v: &Vec<u8>) -> (r: bool)
    ensures
        r <==> full(v@),
{
    let mut i: usize = 0;
    while i < v.len()
        invariant
            i <= v@.len(),
            forall|k: int| 0 <= k < i as int ==> v@[k] != 0,
        decreases v@.len() - i,
    {
        if v[i] == 0 {
            return false;
        }
        i = i + 1;
    }
    true
}

/// Whether every cell of the board is at most `m`.
pub fn cells_within(v: &Vec<u8>, m: u8) -> (r: bool)
    ensures
        r <==> bounded(v@, m),
{
    let mut i: usize = 0;
    while i < v.len()
        invariant
            i <= v@.len(),
            forall|k: int| 0 <= k < i as int ==> v@[k] <= m,
        decreases v@.len() - i,
    {
        if v[i] > m {
            return false;
        }
        i = i + 1;
    }
    true
}

/// A fresh copy of the board.
pub fn clone_board(v: &Vec<u8>) -> (r: Vec<u8>)
    ensures
        r@ == v@,
{
    let mut r: Vec<u8> = Vec::new();
    let mut i: usize = 0;
    while i < v.len()
        invariant
            i <= v@.len(),
            r@ == v@.take(i as int),
        decreases v@.len() - i,
    {
        r.push(v[i]);
        proof {
            assert(r@ =~= v@.take(i as int + 1));
        }
        i = i + 1;
    }
    proof {
        assert(v@.take(v@.len() as int) =~= v@);
    }
    r
}

/// A new game board: all cells empty except two distinct cells, chosen at
/// random, each holding exponent 1 (the tile 2).
pub fn create_board() -> (r: Vec<u8>)
    ensures
        wf(r@),
        bounded(r@, 17),
        is_fresh_board(r@),
{
    let mut v: Vec<u8> = Vec::new();
    let mut n: usize = 0;
    while n < 16
        invariant
            v@.len() == n as int,
            n <= 16,
            forall|k: int| 0 <= k < n as int ==> v@[k] == 0,
        decreases 16 - n,
    {
        v.push(0);
        n = n + 1;
    }
    let first = random_below(16);
    let offset = random_below(15);
    let second = if offset >= first {
        offset + 1
    } else {
        offset
    };
    v[first] = 1;
    v[second] = 1;
    proof {
        assert(v@ =~= crate::model::empty_board().update(first as int, 1u8).update(
            second as int,
            1u8,
        ));
        assert(is_fresh_board(v@));
    }
    v
}

/// Puts one new tile into a uniformly chosen empty cell: exponent 1 half
/// the time, exponent 2 otherwise.
pub fn add_random_tile(v: &mut Vec<u8>)
    requires
        old(v)@.len() == 16,
        has_empty(old(v)@),
    ensures
        final(v)@.len() == 16,
        is_spawn_of(old(v)@, final(v)@),
{
    let mut open_cells: Vec<usize> = Vec::new();
    let mut k: usize = 0;
    while k < 16
        invariant
            v@ == old(v)@,
            v@.len() == 16,
            k <= 16,
            forall|t: int|
                0 <= t < open_cells@.len() ==> (open_cells@[t] < 16 && v@[open_cells@[t] as int]
                    == 0),
            (exists|t: int| 0 <= t < k as int && v@[t] == 0) ==> open_cells@.len() > 0,
        decreases 16 - k,
    {
        if v[k] == 0 {
            open_cells.push(k);
        }
        k = k + 1;
    }
    let pick = open_cells[random_below(open_cells.len())];
    if random_bool() {
        v[pick] = 1;
    } else {
        v[pick] = 2;
    }
    proof {
        assert(v@ == old(v)@.update(pick as int, v@[pick as int]));
        assert(is_spawn_of(old(v)@, v@));
    }
}

/// One move: slide, merge, slide for the chosen direction. A move that
/// changes nothing is a no-op and spawns nothing; a move that changes the
/// board spawns one random tile and then reports whether the game is over,
/// which holds exactly when no cell is empty and no merge is possible in
/// any direction.
pub fn advance_state(v: &mut Vec<u8>, act: Action) -> (done: bool)
    requires
        old(v)@.len() == 16,
        bounded(old(v)@, 17),
    ensures
        final(v)@.len() == 16,
        bounded(final(v)@, 18),
        moved(old(v)@, act) == old(v)@ ==> final(v)@ == old(v)@ && !done,
        moved(old(v)@, act) != old(v)@ ==> is_spawn_of(moved(old(v)@, act), final(v)@),
        moved(old(v)@, act) != old(v)@ ==> final(v)@ != old(v)@,
        moved(old(v)@, act) != old(v)@ ==> (done <==> is_terminal(final(v)@)),
{
    let snapshot = clone_board(v);
    match act {
        Action::Up => {
            proof {
                lemma_slide_all_props(old(v)@, Action::Up, 17);
                lemma_merge_all_props(slide_all(old(v)@, Action::Up), Action::Up, 17);
            }
            slide_up(v);
            merge_up(v);
            slide_up(v);
        },
        Action::Down => {
            proof {
                lemma_slide_all_props(old(v)@, Action::Down, 17);
                lemma_merge_all_props(slide_all(old(v)@, Action::Down), Action::Down, 17);
            }
            slide_down(v);
            merge_down(v);
            slide_down(v);
        },
        Action::Left => {
            proof {
                lemma_slide_all_props(old(v)@, Action::Left, 17);
                lemma_merge_all_props(slide_all(old(v)@, Action::Left), Action::Left, 17);
            }
            slide_left(v);
            merge_left(v);
            slide_left(v);
        },
        Action::Right => {
            proof {
                lemma_slide_all_props(old(v)@, Action::Right, 17);
                lemma_merge_all_props(slide_all(old(v)@, Action::Right), Action::Right, 17);
            }
            slide_right(v);
            merge_right(v);
            slide_right(v);
        },
    }
    proof {
        assert(v@ == moved(old(v)@, act));
        lemma_moved_props(old(v)@, act, 17);
    }
    if boards_equal(v, &snapshot) {
        return false;
    }
    proof {
        lemma_empty16_has_empty(v@);
    }
    add_random_tile(v);
    proof {
        lemma_spawn_props(moved(old(v)@, act), v@, 18);
        if merge_count_all(slide_all(old(v)@, act), act) == 0 {
            assert(crate::board_props::empty16(v@) != crate::board_props::empty16(old(v)@));
        } else {
            assert(score16(v@) >= score16(old(v)@) + 4);
        }
        assert(v@ != old(v)@);
    }
    let done: bool;
    if !all_nonzero(v) {
        done = false;
        proof {
            assert(!is_terminal(v@));
        }
    } else {
        let mut rows = clone_board(v);
        merge_left(&mut rows);
        let rows_same = boards_equal(&rows, v);
        let mut cols = clone_board(v);
        merge_up(&mut cols);
        let cols_same = boards_equal(&cols, v);
        done = rows_same && cols_same;
        proof {
            lemma_terminal_check(v@, 18);
        }
    }
    done
}

/// The caller-facing transition: validates the board and the action code,
/// applies the move, and returns the new board, the score it added, and
/// whether the game ended. A move that changes nothing returns the board
/// unchanged with no score and no ending; a board or code outside the
/// engine's domain is refused rather than processed.
pub fn apply_action(state: Vec<u8>, action: usize) -> (res: Result<
    (Vec<u8>, u64, bool),
    EngineError,
>)
    ensures
        !(state@.len() == 16 && action <= 3 && bounded(state@, 17)) ==> res is Err
            && res->Err_0 == EngineError::InvalidInput,
        state@.len() == 16 && action <= 3 && bounded(state@, 17) && moved(
            state@,
            dir_of(action as int),
        ) == state@ ==> res is Ok && res->Ok_0.0@ == state@ && res->Ok_0.1 == 0 && res->Ok_0.2
            == false,
        state@.len() == 16 && action <= 3 && bounded(state@, 17) && moved(
            state@,
            dir_of(action as int),
        ) != state@ && !bounded(moved(state@, dir_of(action as int)), 17) ==> res is Err
            && res->Err_0 == EngineError::InvariantViolation,
        state@.len() == 16 && action <= 3 && bounded(state@, 17) && moved(
            state@,
            dir_of(action as int),
        ) != state@ && bounded(moved(state@, dir_of(action as int)), 17) ==> res is Ok
            && is_spawn_of(moved(state@, dir_of(action as int)), res->Ok_0.0@) && bounded(
            res->Ok_0.0@,
            17,
        ) && res->Ok_0.1 as int == board_score(res->Ok_0.0@) - board_score(state@) && (res->Ok_0.2
            <==> is_terminal(res->Ok_0.0@)) && res->Ok_0.0@ != state@,
{
    if state.len() != 16 {
        return Err(EngineError::InvalidInput);
    }
    if action > 3 {
        return Err(EngineError::InvalidInput);
    }
    if !cells_within(&state, 17) {
        return Err(EngineError::InvalidInput);
    }
    let act = if action == 0 {
        Action::Down
    } else if action == 1 {
        Action::Left
    } else if action == 2 {
        Action::Right
    } else {
        Action::Up
    };
    proof {
        assert(act == dir_of(action as int));
    }
    let prev_score = score(&state);
    let mut board = clone_board(&state);
    let done = advance_state(&mut board, act);
    if boards_equal(&board, &state) {
        proof {
            assert(moved(state@, act) == state@);
        }
        return Ok((board, 0, false));
    }
    proof {
        let mv = moved(state@, act);
        lemma_moved_props(state@, act, 17);
        assert(mv != state@);
        assert(is_spawn_of(mv, board@));
        let j = choose|j: int|
            0 <= j < 16 && mv[j] == 0 && (board@[j] == 1 || board@[j] == 2) && board@ == mv.update(
                j,
                board@[j],
            );
        if bounded(board@, 17) {
            assert forall|k: int| 0 <= k < 16 implies mv[k] <= 17 by {
                if k != j {
                    assert(mv[k] == board@[k]);
                }
            }
            assert(bounded(mv, 17));
        }
        if bounded(mv, 17) {
            assert forall|k: int| 0 <= k < 16 implies board@[k] <= 17 by {
                if k != j {
                    assert(board@[k] == mv[k]);
                } else {
                    assert(board@[j] <= 2);
                }
            }
            assert(bounded(board@, 17));
        }
    }
    if !cells_within(&board, 17) {
        return Err(EngineError::InvariantViolation);
    }
    let new_score = score(&board);
    proof {
        lemma_board_score_is_score16(state@);
        lemma_board_score_is_score16(board@);
        lemma_moved_props(state@, act, 17);
        lemma_spawn_props(moved(state@, act), board@, 18);
        assert(score16(board@) >= score16(state@));
    }
    let delta = new_score - prev_score;
    Ok((board, delta, done))
}

} // verus!
