//! Facts about whole-board transformations: how sliding, merging and
//! spawning act on the score, on the count of empty cells, and on the cell
//! bound, and how the merge passes detect a finished game.

use crate::lines::{lemma_compact4_props, lemma_merge4_len, lemma_merge4_props};
use crate::model::{
    board_score, bounded, cell_score, compact4, empty4, full, has_empty, is_spawn_of, line_at,
    line_score, merge4, merge4_count, merge_all, moved, no_horizontal_pair, no_vertical_pair,
    slide_all, wf,
};
use crate::Action;
use vstd::prelude::*;

verus! {

/// Total score written as the explicit sum over the 16 cells.
pub open spec fn score16(s: Seq<u8>) -> int
    recommends
        wf(s),
{
    cell_score(s[0]) + cell_score(s[1]) + cell_score(s[2]) + cell_score(s[3]) + cell_score(s[4])
        + cell_score(s[5]) + cell_score(s[6]) + cell_score(s[7]) + cell_score(s[8]) + cell_score(
        s[9],
    ) + cell_score(s[10]) + cell_score(s[11]) + cell_score(s[12]) + cell_score(s[13]) + cell_score(
        s[14],
    ) + cell_score(s[15])
}

/// Number of empty cells, written as the explicit sum over the 16 cells.
pub open spec fn empty16(s: Seq<u8>) -> int
    recommends
        wf(s),
{
    (if s[0] == 0 { 1int } else { 0int }) + (if s[1] == 0 { 1int } else { 0int }) + (if s[2] == 0 {
        1int
    } else {
        0int
    }) + (if s[3] == 0 { 1int } else { 0int }) + (if s[4] == 0 { 1int } else { 0int }) + (if s[5]
        == 0 { 1int } else { 0int }) + (if s[6] == 0 { 1int } else { 0int }) + (if s[7] == 0 {
        1int
    } else {
        0int
    }) + (if s[8] == 0 { 1int } else { 0int }) + (if s[9] == 0 { 1int } else { 0int }) + (if s[10]
        == 0 { 1int } else { 0int }) + (if s[11] == 0 { 1int } else { 0int }) + (if s[12] == 0 {
        1int
    } else {
        0int
    }) + (if s[13] == 0 { 1int } else { 0int }) + (if s[14] == 0 { 1int } else { 0int }) + (if s[15]
        == 0 { 1int } else { 0int })
}

/// How many pairs the merge passes of a move in `dir` combine.
pub open spec fn merge_count_all(s: Seq<u8>, dir: Action) -> int
    recommends
        wf(s),
{
    merge4_count(line_at(s, dir, 0)) + merge4_count(line_at(s, dir, 1)) + merge4_count(
        line_at(s, dir, 2),
    ) + merge4_count(line_at(s, dir, 3))
}

/// The rows of a leftward move, written out cell by cell.
pub proof fn lemma_lines_left(u: Seq<u8>)
    requires
        wf(u),
    ensures
        line_at(u, Action::Left, 0) == seq![u[0], u[1], u[2], u[3]],
        line_at(u, Action::Left, 1) == seq![u[4], u[5], u[6], u[7]],
        line_at(u, Action::Left, 2) == seq![u[8], u[9], u[10], u[11]],
        line_at(u, Action::Left, 3) == seq![u[12], u[13], u[14], u[15]],
{
    assert(line_at(u, Action::Left, 0) =~= seq![u[0], u[1], u[2], u[3]]);
    assert(line_at(u, Action::Left, 1) =~= seq![u[4], u[5], u[6], u[7]]);
    assert(line_at(u, Action::Left, 2) =~= seq![u[8], u[9], u[10], u[11]]);
    assert(line_at(u, Action::Left, 3) =~= seq![u[12], u[13], u[14], u[15]]);
}

/// The rows of a rightward move, written out cell by cell.
pub proof fn lemma_lines_right(u: Seq<u8>)
    requires
        wf(u),
    ensures
        line_at(u, Action::Right, 0) == seq![u[3], u[2], u[1], u[0]],
        line_at(u, Action::Right, 1) == seq![u[7], u[6], u[5], u[4]],
        line_at(u, Action::Right, 2) == seq![u[11], u[10], u[9], u[8]],
        line_at(u, Action::Right, 3) == seq![u[15], u[14], u[13], u[12]],
{
    assert(line_at(u, Action::Right, 0) =~= seq![u[3], u[2], u[1], u[0]]);
    assert(line_at(u, Action::Right, 1) =~= seq![u[7], u[6], u[5], u[4]]);
    assert(line_at(u, Action::Right, 2) =~= seq![u[11], u[10], u[9], u[8]]);
    assert(line_at(u, Action::Right, 3) =~= seq![u[15], u[14], u[13], u[12]]);
}

/// The columns of an upward move, written out cell by cell.
pub proof fn lemma_lines_up(u: Seq<u8>)
    requires
        wf(u),
    ensures
        line_at(u, Action::Up, 0) == seq![u[0], u[4], u[8], u[12]],
        line_at(u, Action::Up, 1) == seq![u[1], u[5], u[9], u[13]],
        line_at(u, Action::Up, 2) == seq![u[2], u[6], u[10], u[14]],
        line_at(u, Action::Up, 3) == seq![u[3], u[7], u[11], u[15]],
{
    assert(line_at(u, Action::Up, 0) =~= seq![u[0], u[4], u[8], u[12]]);
    assert(line_at(u, Action::Up, 1) =~= seq![u[1], u[5], u[9], u[13]]);
    assert(line_at(u, Action::Up, 2) =~= seq![u[2], u[6], u[10], u[14]]);
    assert(line_at(u, Action::Up, 3) =~= seq![u[3], u[7], u[11], u[15]]);
}

/// The columns of a downward move, written out cell by cell.
pub proof fn lemma_lines_down(u: Seq<u8>)
    requires
        wf(u),
    ensures
        line_at(u, Action::Down, 0) == seq![u[12], u[8], u[4], u[0]],
        line_at(u, Action::Down, 1) == seq![u[13], u[9], u[5], u[1]],
        line_at(u, Action::Down, 2) == seq![u[14], u[10], u[6], u[2]],
        line_at(u, Action::Down, 3) == seq![u[15], u[11], u[7], u[3]],
{
    assert(line_at(u, Action::Down, 0) =~= seq![u[12], u[8], u[4], u[0]]);
    assert(line_at(u, Action::Down, 1) =~= seq![u[13], u[9], u[5], u[1]]);
    assert(line_at(u, Action::Down, 2) =~= seq![u[14], u[10], u[6], u[2]]);
    assert(line_at(u, Action::Down, 3) =~= seq![u[15], u[11], u[7], u[3]]);
}

/// The lines of a leftward move partition the board: score and empty-cell
/// count split into per-line sums.
#[verifier::rlimit(100)]
proof fn lemma_regroup_left(u: Seq<u8>)
    requires
        wf(u),
    ensures
        score16(u) == line_score(line_at(u, Action::Left, 0)) + line_score(
            line_at(u, Action::Left, 1),
        ) + line_score(line_at(u, Action::Left, 2)) + line_score(line_at(u, Action::Left, 3)),
        empty16(u) == empty4(line_at(u, Action::Left, 0)) + empty4(line_at(u, Action::Left, 1))
            + empty4(line_at(u, Action::Left, 2)) + empty4(line_at(u, Action::Left, 3)),
{
    lemma_lines_left(u);
}

/// The lines of a rightward move partition the board: score and empty-cell
/// count split into per-line sums.
#[verifier::rlimit(100)]
proof fn lemma_regroup_right(u: Seq<u8>)
    requires
        wf(u),
    ensures
        score16(u) == line_score(line_at(u, Action::Right, 0)) + line_score(
            line_at(u, Action::Right, 1),
        ) + line_score(line_at(u, Action::Right, 2)) + line_score(line_at(u, Action::Right, 3)),
        empty16(u) == empty4(line_at(u, Action::Right, 0)) + empty4(line_at(u, Action::Right, 1))
            + empty4(line_at(u, Action::Right, 2)) + empty4(line_at(u, Action::Right, 3)),
{
    lemma_lines_right(u);
}

/// The lines of a upward move partition the board: score and empty-cell
/// count split into per-line sums.
#[verifier::rlimit(100)]
proof fn lemma_regroup_up(u: Seq<u8>)
    requires
        wf(u),
    ensures
        score16(u) == line_score(line_at(u, Action::Up, 0)) + line_score(
            line_at(u, Action::Up, 1),
        ) + line_score(line_at(u, Action::Up, 2)) + line_score(line_at(u, Action::Up, 3)),
        empty16(u) == empty4(line_at(u, Action::Up, 0)) + empty4(line_at(u, Action::Up, 1))
            + empty4(line_at(u, Action::Up, 2)) + empty4(line_at(u, Action::Up, 3)),
{
    lemma_lines_up(u);
}

/// The lines of a downward move partition the board: score and empty-cell
/// count split into per-line sums.
#[verifier::rlimit(100)]
proof fn lemma_regroup_down(u: Seq<u8>)
    requires
        wf(u),
    ensures
        score16(u) == line_score(line_at(u, Action::Down, 0)) + line_score(
            line_at(u, Action::Down, 1),
        ) + line_score(line_at(u, Action::Down, 2)) + line_score(line_at(u, Action::Down, 3)),
        empty16(u) == empty4(line_at(u, Action::Down, 0)) + empty4(line_at(u, Action::Down, 1))
            + empty4(line_at(u, Action::Down, 2)) + empty4(line_at(u, Action::Down, 3)),
{
    lemma_lines_down(u);
}

/// The four lines of a direction partition the board: score and empty-cell
/// count split into per-line sums.
pub proof fn lemma_regroup(u: Seq<u8>, dir: Action)
    requires
        wf(u),
    ensures
        score16(u) == line_score(line_at(u, dir, 0)) + line_score(line_at(u, dir, 1)) + line_score(
            line_at(u, dir, 2),
        ) + line_score(line_at(u, dir, 3)),
        empty16(u) == empty4(line_at(u, dir, 0)) + empty4(line_at(u, dir, 1)) + empty4(
            line_at(u, dir, 2),
        ) + empty4(line_at(u, dir, 3)),
{
    match dir {
        Action::Left => lemma_regroup_left(u),
        Action::Right => lemma_regroup_right(u),
        Action::Up => lemma_regroup_up(u),
        Action::Down => lemma_regroup_down(u),
    }
}

/// Two boards whose four lines agree are the same board.
#[verifier::rlimit(100)]
pub proof fn lemma_eq_from_lines(u: Seq<u8>, w: Seq<u8>, dir: Action)
    requires
        wf(u),
        wf(w),
        line_at(u, dir, 0) == line_at(w, dir, 0),
        line_at(u, dir, 1) == line_at(w, dir, 1),
        line_at(u, dir, 2) == line_at(w, dir, 2),
        line_at(u, dir, 3) == line_at(w, dir, 3),
    ensures
        u == w,
{
    match dir {
        Action::Left => {
            lemma_lines_left(u);
            lemma_lines_left(w);
        },
        Action::Right => {
            lemma_lines_right(u);
            lemma_lines_right(w);
        },
        Action::Up => {
            lemma_lines_up(u);
            lemma_lines_up(w);
        },
        Action::Down => {
            lemma_lines_down(u);
            lemma_lines_down(w);
        },
    }
    assert(u =~= w);
}

/// A bound that holds on each of the four lines holds on the whole board.
#[verifier::rlimit(100)]
pub proof fn lemma_bounded_from_lines(u: Seq<u8>, dir: Action, m: u8)
    requires
        wf(u),
        bounded(line_at(u, dir, 0), m),
        bounded(line_at(u, dir, 1), m),
        bounded(line_at(u, dir, 2), m),
        bounded(line_at(u, dir, 3), m),
    ensures
        bounded(u, m),
{
    match dir {
        Action::Left => lemma_lines_left(u),
        Action::Right => lemma_lines_right(u),
        Action::Up => lemma_lines_up(u),
        Action::Down => lemma_lines_down(u),
    }
    assert forall|k: int| 0 <= k < 16 implies u[k] <= m by {
        assert(line_at(u, dir, 0)[0] <= m && line_at(u, dir, 0)[1] <= m && line_at(u, dir, 0)[2]
            <= m && line_at(u, dir, 0)[3] <= m);
        assert(line_at(u, dir, 1)[0] <= m && line_at(u, dir, 1)[1] <= m && line_at(u, dir, 1)[2]
            <= m && line_at(u, dir, 1)[3] <= m);
        assert(line_at(u, dir, 2)[0] <= m && line_at(u, dir, 2)[1] <= m && line_at(u, dir, 2)[2]
            <= m && line_at(u, dir, 2)[3] <= m);
        assert(line_at(u, dir, 3)[0] <= m && line_at(u, dir, 3)[1] <= m && line_at(u, dir, 3)[2]
            <= m && line_at(u, dir, 3)[3] <= m);
    }
}

/// Each line of the slid board is the compaction of the input line, for
/// leftward moves.
#[verifier::rlimit(100)]
proof fn lemma_slide_lines_left(s: Seq<u8>)
    requires
        wf(s),
    ensures
        wf(slide_all(s, Action::Left)),
        line_at(slide_all(s, Action::Left), Action::Left, 0) == compact4(line_at(s, Action::Left, 0)),
        line_at(slide_all(s, Action::Left), Action::Left, 1) == compact4(line_at(s, Action::Left, 1)),
        line_at(slide_all(s, Action::Left), Action::Left, 2) == compact4(line_at(s, Action::Left, 2)),
        line_at(slide_all(s, Action::Left), Action::Left, 3) == compact4(line_at(s, Action::Left, 3)),
{
    lemma_compact4_props(line_at(s, Action::Left, 0), 255);
    lemma_compact4_props(line_at(s, Action::Left, 1), 255);
    lemma_compact4_props(line_at(s, Action::Left, 2), 255);
    lemma_compact4_props(line_at(s, Action::Left, 3), 255);
    let t = slide_all(s, Action::Left);
    assert(line_at(t, Action::Left, 0) =~= compact4(line_at(s, Action::Left, 0)));
    assert(line_at(t, Action::Left, 1) =~= compact4(line_at(s, Action::Left, 1)));
    assert(line_at(t, Action::Left, 2) =~= compact4(line_at(s, Action::Left, 2)));
    assert(line_at(t, Action::Left, 3) =~= compact4(line_at(s, Action::Left, 3)));
}

/// Each line of the slid board is the compaction of the input line, for
/// rightward moves.
#[verifier::rlimit(100)]
proof fn lemma_slide_lines_right(s: Seq<u8>)
    requires
        wf(s),
    ensures
        wf(slide_all(s, Action::Right)),
        line_at(slide_all(s, Action::Right), Action::Right, 0) == compact4(line_at(s, Action::Right, 0)),
        line_at(slide_all(s, Action::Right), Action::Right, 1) == compact4(line_at(s, Action::Right, 1)),
        line_at(slide_all(s, Action::Right), Action::Right, 2) == compact4(line_at(s, Action::Right, 2)),
        line_at(slide_all(s, Action::Right), Action::Right, 3) == compact4(line_at(s, Action::Right, 3)),
{
    lemma_compact4_props(line_at(s, Action::Right, 0), 255);
    lemma_compact4_props(line_at(s, Action::Right, 1), 255);
    lemma_compact4_props(line_at(s, Action::Right, 2), 255);
    lemma_compact4_props(line_at(s, Action::Right, 3), 255);
    let t = slide_all(s, Action::Right);
    assert(line_at(t, Action::Right, 0) =~= compact4(line_at(s, Action::Right, 0)));
    assert(line_at(t, Action::Right, 1) =~= compact4(line_at(s, Action::Right, 1)));
    assert(line_at(t, Action::Right, 2) =~= compact4(line_at(s, Action::Right, 2)));
    assert(line_at(t, Action::Right, 3) =~= compact4(line_at(s, Action::Right, 3)));
}

/// Each line of the slid board is the compaction of the input line, for
/// upward moves.
#[verifier::rlimit(100)]
proof fn lemma_slide_lines_up(s: Seq<u8>)
    requires
        wf(s),
    ensures
        wf(slide_all(s, Action::Up)),
        line_at(slide_all(s, Action::Up), Action::Up, 0) == compact4(line_at(s, Action::Up, 0)),
        line_at(slide_all(s, Action::Up), Action::Up, 1) == compact4(line_at(s, Action::Up, 1)),
        line_at(slide_all(s, Action::Up), Action::Up, 2) == compact4(line_at(s, Action::Up, 2)),
        line_at(slide_all(s, Action::Up), Action::Up, 3) == compact4(line_at(s, Action::Up, 3)),
{
    lemma_compact4_props(line_at(s, Action::Up, 0), 255);
    lemma_compact4_props(line_at(s, Action::Up, 1), 255);
    lemma_compact4_props(line_at(s, Action::Up, 2), 255);
    lemma_compact4_props(line_at(s, Action::Up, 3), 255);
    let t = slide_all(s, Action::Up);
    assert(line_at(t, Action::Up, 0) =~= compact4(line_at(s, Action::Up, 0)));
    assert(line_at(t, Action::Up, 1) =~= compact4(line_at(s, Action::Up, 1)));
    assert(line_at(t, Action::Up, 2) =~= compact4(line_at(s, Action::Up, 2)));
    assert(line_at(t, Action::Up, 3) =~= compact4(line_at(s, Action::Up, 3)));
}

/// Each line of the slid board is the compaction of the input line, for
/// downward moves.
#[verifier::rlimit(100)]
proof fn lemma_slide_lines_down(s: Seq<u8>)
    requires
        wf(s),
    ensures
        wf(slide_all(s, Action::Down)),
        line_at(slide_all(s, Action::Down), Action::Down, 0) == compact4(line_at(s, Action::Down, 0)),
        line_at(slide_all(s, Action::Down), Action::Down, 1) == compact4(line_at(s, Action::Down, 1)),
        line_at(slide_all(s, Action::Down), Action::Down, 2) == compact4(line_at(s, Action::Down, 2)),
        line_at(slide_all(s, Action::Down), Action::Down, 3) == compact4(line_at(s, Action::Down, 3)),
{
    lemma_compact4_props(line_at(s, Action::Down, 0), 255);
    lemma_compact4_props(line_at(s, Action::Down, 1), 255);
    lemma_compact4_props(line_at(s, Action::Down, 2), 255);
    lemma_compact4_props(line_at(s, Action::Down, 3), 255);
    let t = slide_all(s, Action::Down);
    assert(line_at(t, Action::Down, 0) =~= compact4(line_at(s, Action::Down, 0)));
    assert(line_at(t, Action::Down, 1) =~= compact4(line_at(s, Action::Down, 1)));
    assert(line_at(t, Action::Down, 2) =~= compact4(line_at(s, Action::Down, 2)));
    assert(line_at(t, Action::Down, 3) =~= compact4(line_at(s, Action::Down, 3)));
}

/// Each line of the slid board is the compaction of the input line.
pub proof fn lemma_slide_all_lines(s: Seq<u8>, dir: Action)
    requires
        wf(s),
    ensures
        wf(slide_all(s, dir)),
        line_at(slide_all(s, dir), dir, 0) == compact4(line_at(s, dir, 0)),
        line_at(slide_all(s, dir), dir, 1) == compact4(line_at(s, dir, 1)),
        line_at(slide_all(s, dir), dir, 2) == compact4(line_at(s, dir, 2)),
        line_at(slide_all(s, dir), dir, 3) == compact4(line_at(s, dir, 3)),
{
    match dir {
        Action::Left => lemma_slide_lines_left(s),
        Action::Right => lemma_slide_lines_right(s),
        Action::Up => lemma_slide_lines_up(s),
        Action::Down => lemma_slide_lines_down(s),
    }
}

/// Each line of the merged board is the merge pass over the input line.
#[verifier::rlimit(100)]
pub proof fn lemma_merge_all_lines(s: Seq<u8>, dir: Action)
    requires
        wf(s),
    ensures
        wf(merge_all(s, dir)),
        line_at(merge_all(s, dir), dir, 0) == merge4(line_at(s, dir, 0)),
        line_at(merge_all(s, dir), dir, 1) == merge4(line_at(s, dir, 1)),
        line_at(merge_all(s, dir), dir, 2) == merge4(line_at(s, dir, 2)),
        line_at(merge_all(s, dir), dir, 3) == merge4(line_at(s, dir, 3)),
{
    lemma_merge4_len(line_at(s, dir, 0));
    lemma_merge4_len(line_at(s, dir, 1));
    lemma_merge4_len(line_at(s, dir, 2));
    lemma_merge4_len(line_at(s, dir, 3));
    let t = merge_all(s, dir);
    match dir {
        Action::Left => {
            assert(line_at(t, dir, 0) =~= merge4(line_at(s, dir, 0)));
            assert(line_at(t, dir, 1) =~= merge4(line_at(s, dir, 1)));
            assert(line_at(t, dir, 2) =~= merge4(line_at(s, dir, 2)));
            assert(line_at(t, dir, 3) =~= merge4(line_at(s, dir, 3)));
        },
        Action::Right => {
            assert(line_at(t, dir, 0) =~= merge4(line_at(s, dir, 0)));
            assert(line_at(t, dir, 1) =~= merge4(line_at(s, dir, 1)));
            assert(line_at(t, dir, 2) =~= merge4(line_at(s, dir, 2)));
            assert(line_at(t, dir, 3) =~= merge4(line_at(s, dir, 3)));
        },
        Action::Up => {
            assert(line_at(t, dir, 0) =~= merge4(line_at(s, dir, 0)));
            assert(line_at(t, dir, 1) =~= merge4(line_at(s, dir, 1)));
            assert(line_at(t, dir, 2) =~= merge4(line_at(s, dir, 2)));
            assert(line_at(t, dir, 3) =~= merge4(line_at(s, dir, 3)));
        },
        Action::Down => {
            assert(line_at(t, dir, 0) =~= merge4(line_at(s, dir, 0)));
            assert(line_at(t, dir, 1) =~= merge4(line_at(s, dir, 1)));
            assert(line_at(t, dir, 2) =~= merge4(line_at(s, dir, 2)));
            assert(line_at(t, dir, 3) =~= merge4(line_at(s, dir, 3)));
        },
    }
}

/// Peeling one cell off the front of the recursive score sum.
pub proof fn lemma_board_score_step(s: Seq<u8>, k: int)
    requires
        0 <= k < s.len(),
    ensures
        board_score(s.take(k + 1)) == board_score(s.take(k)) + cell_score(s[k]),
{
    assert(s.take(k + 1).drop_last() =~= s.take(k));
    assert(s.take(k + 1).last() == s[k]);
}

/// The recursive score sum equals the explicit 16-cell sum.
pub proof fn lemma_board_score_is_score16(s: Seq<u8>)
    requires
        wf(s),
    ensures
        board_score(s) == score16(s),
{
    assert(s.take(0) =~= Seq::<u8>::empty());
    lemma_board_score_step(s, 0);
    lemma_board_score_step(s, 1);
    lemma_board_score_step(s, 2);
    lemma_board_score_step(s, 3);
    lemma_board_score_step(s, 4);
    lemma_board_score_step(s, 5);
    lemma_board_score_step(s, 6);
    lemma_board_score_step(s, 7);
    lemma_board_score_step(s, 8);
    lemma_board_score_step(s, 9);
    lemma_board_score_step(s, 10);
    lemma_board_score_step(s, 11);
    lemma_board_score_step(s, 12);
    lemma_board_score_step(s, 13);
    lemma_board_score_step(s, 14);
    lemma_board_score_step(s, 15);
    assert(s.take(16) =~= s);
}

/// An empty cell exists exactly when the count of empty cells is positive.
pub proof fn lemma_empty16_has_empty(s: Seq<u8>)
    requires
        wf(s),
    ensures
        empty16(s) >= 0,
        has_empty(s) <==> empty16(s) >= 1,
        full(s) <==> empty16(s) == 0,
{
    if empty16(s) >= 1 {
        assert(has_empty(s)) by {
            if s[0] != 0 && s[1] != 0 && s[2] != 0 && s[3] != 0 && s[4] != 0 && s[5] != 0 && s[6]
                != 0 && s[7] != 0 && s[8] != 0 && s[9] != 0 && s[10] != 0 && s[11] != 0 && s[12]
                != 0 && s[13] != 0 && s[14] != 0 && s[15] != 0 {
                assert(empty16(s) == 0);
            }
        }
    }
    if has_empty(s) {
        let i = choose|i: int| 0 <= i < s.len() && s[i] == 0;
        assert(empty16(s) >= 1);
    }
    if full(s) {
        assert(empty16(s) == 0);
    }
    if empty16(s) == 0 {
        assert(full(s)) by {
            assert forall|i: int| 0 <= i < s.len() implies s[i] != 0 by {
                if s[i] == 0 {
                    assert(empty16(s) >= 1);
                }
            }
        }
    }
}

/// Sliding every line of `dir`: the board keeps its shape, bound, score and
/// count of empty cells; sliding twice is the same as sliding once; and a
/// board with no empty cell does not move.
pub proof fn lemma_slide_all_props(s: Seq<u8>, dir: Action, m: u8)
    requires
        wf(s),
        bounded(s, m),
    ensures
        wf(slide_all(s, dir)),
        bounded(slide_all(s, dir), m),
        score16(slide_all(s, dir)) == score16(s),
        empty16(slide_all(s, dir)) == empty16(s),
        slide_all(slide_all(s, dir), dir) == slide_all(s, dir),
        empty16(s) == 0 ==> slide_all(s, dir) == s,
        line_at(slide_all(s, dir), dir, 0) == compact4(line_at(s, dir, 0)),
        line_at(slide_all(s, dir), dir, 1) == compact4(line_at(s, dir, 1)),
        line_at(slide_all(s, dir), dir, 2) == compact4(line_at(s, dir, 2)),
        line_at(slide_all(s, dir), dir, 3) == compact4(line_at(s, dir, 3)),
{
    let t = slide_all(s, dir);
    let l0 = line_at(s, dir, 0);
    let l1 = line_at(s, dir, 1);
    let l2 = line_at(s, dir, 2);
    let l3 = line_at(s, dir, 3);
    assert(bounded(l0, m) && bounded(l1, m) && bounded(l2, m) && bounded(l3, m)) by {
        match dir {
            Action::Left => lemma_lines_left(s),
            Action::Right => lemma_lines_right(s),
            Action::Up => lemma_lines_up(s),
            Action::Down => lemma_lines_down(s),
        }
    }
    lemma_compact4_props(l0, m);
    lemma_compact4_props(l1, m);
    lemma_compact4_props(l2, m);
    lemma_compact4_props(l3, m);
    lemma_slide_all_lines(s, dir);
    lemma_bounded_from_lines(t, dir, m);
    lemma_regroup(s, dir);
    lemma_regroup(t, dir);
    lemma_slide_all_lines(t, dir);
    lemma_eq_from_lines(slide_all(t, dir), t, dir);
    if empty16(s) == 0 {
        assert(empty4(l0) >= 0 && empty4(l1) >= 0 && empty4(l2) >= 0 && empty4(l3) >= 0);
        assert(empty4(l0) == 0 && empty4(l1) == 0 && empty4(l2) == 0 && empty4(l3) == 0);
        lemma_eq_from_lines(t, s, dir);
    }
}

/// One merge pass over every line of `dir`: the board keeps its shape; the
/// score rises by exactly 4 and the count of empty cells by exactly 1 for
/// each combined pair; the bound rises by at most 1; and the board is
/// unchanged exactly when no pair was combined.
pub proof fn lemma_merge_all_props(s: Seq<u8>, dir: Action, m: u8)
    requires
        wf(s),
        bounded(s, m),
        m < 255,
    ensures
        wf(merge_all(s, dir)),
        bounded(merge_all(s, dir), (m + 1) as u8),
        score16(merge_all(s, dir)) == score16(s) + 4 * merge_count_all(s, dir),
        empty16(merge_all(s, dir)) == empty16(s) + merge_count_all(s, dir),
        merge_count_all(s, dir) >= 0,
        merge_count_all(s, dir) == 0 <==> merge_all(s, dir) == s,
        line_at(merge_all(s, dir), dir, 0) == merge4(line_at(s, dir, 0)),
        line_at(merge_all(s, dir), dir, 1) == merge4(line_at(s, dir, 1)),
        line_at(merge_all(s, dir), dir, 2) == merge4(line_at(s, dir, 2)),
        line_at(merge_all(s, dir), dir, 3) == merge4(line_at(s, dir, 3)),
{
    let t = merge_all(s, dir);
    let l0 = line_at(s, dir, 0);
    let l1 = line_at(s, dir, 1);
    let l2 = line_at(s, dir, 2);
    let l3 = line_at(s, dir, 3);
    assert(bounded(l0, m) && bounded(l1, m) && bounded(l2, m) && bounded(l3, m)) by {
        match dir {
            Action::Left => lemma_lines_left(s),
            Action::Right => lemma_lines_right(s),
            Action::Up => lemma_lines_up(s),
            Action::Down => lemma_lines_down(s),
        }
    }
    lemma_merge4_props(l0, m);
    lemma_merge4_props(l1, m);
    lemma_merge4_props(l2, m);
    lemma_merge4_props(l3, m);
    lemma_merge_all_lines(s, dir);
    lemma_bounded_from_lines(t, dir, (m + 1) as u8);
    lemma_regroup(s, dir);
    lemma_regroup(t, dir);
    if merge_count_all(s, dir) == 0 {
        assert(merge4_count(l0) == 0 && merge4_count(l1) == 0 && merge4_count(l2) == 0
            && merge4_count(l3) == 0);
        lemma_eq_from_lines(t, s, dir);
    }
    if t == s {
        assert(line_at(t, dir, 0) == l0 && line_at(t, dir, 1) == l1 && line_at(t, dir, 2) == l2
            && line_at(t, dir, 3) == l3);
    }
}

/// On a board with no empty cell, a merge pass toward the left changes
/// nothing exactly when no two horizontally adjacent cells are equal.
#[verifier::rlimit(100)]
proof fn lemma_terminal_check_h(s: Seq<u8>, m: u8)
    requires
        wf(s),
        full(s),
        bounded(s, m),
        m < 255,
    ensures
        merge_all(s, Action::Left) == s <==> no_horizontal_pair(s),
{
    lemma_merge_all_props(s, Action::Left, m);
    lemma_lines_left(s);
    let h0 = line_at(s, Action::Left, 0);
    let h1 = line_at(s, Action::Left, 1);
    let h2 = line_at(s, Action::Left, 2);
    let h3 = line_at(s, Action::Left, 3);
    lemma_merge4_props(h0, m);
    lemma_merge4_props(h1, m);
    lemma_merge4_props(h2, m);
    lemma_merge4_props(h3, m);
    if merge_all(s, Action::Left) == s {
        assert(no_horizontal_pair(s)) by {
            assert(merge4(h0) == h0 && merge4(h1) == h1 && merge4(h2) == h2 && merge4(h3) == h3);
            assert forall|i: int| 0 <= i < 16 && i % 4 != 3 implies #[trigger] s[i] != s[i + 1] by {
                assert(h0[0] != h0[1] && h0[1] != h0[2] && h0[2] != h0[3]);
                assert(h1[0] != h1[1] && h1[1] != h1[2] && h1[2] != h1[3]);
                assert(h2[0] != h2[1] && h2[1] != h2[2] && h2[2] != h2[3]);
                assert(h3[0] != h3[1] && h3[1] != h3[2] && h3[2] != h3[3]);
            }
        }
    }
    if no_horizontal_pair(s) {
        assert(merge4(h0) == h0 && merge4(h1) == h1 && merge4(h2) == h2 && merge4(h3) == h3);
        assert(merge_count_all(s, Action::Left) == 0);
    }
}

/// On a board with no empty cell, a merge pass upward changes nothing
/// exactly when no two vertically adjacent cells are equal.
#[verifier::rlimit(100)]
proof fn lemma_terminal_check_v(s: Seq<u8>, m: u8)
    requires
        wf(s),
        full(s),
        bounded(s, m),
        m < 255,
    ensures
        merge_all(s, Action::Up) == s <==> no_vertical_pair(s),
{
    lemma_merge_all_props(s, Action::Up, m);
    lemma_lines_up(s);
    let v0 = line_at(s, Action::Up, 0);
    let v1 = line_at(s, Action::Up, 1);
    let v2 = line_at(s, Action::Up, 2);
    let v3 = line_at(s, Action::Up, 3);
    lemma_merge4_props(v0, m);
    lemma_merge4_props(v1, m);
    lemma_merge4_props(v2, m);
    lemma_merge4_props(v3, m);
    if merge_all(s, Action::Up) == s {
        assert(no_vertical_pair(s)) by {
            assert(merge4(v0) == v0 && merge4(v1) == v1 && merge4(v2) == v2 && merge4(v3) == v3);
            assert forall|i: int| 0 <= i < 12 implies #[trigger] s[i] != s[i + 4] by {
                assert(v0[0] != v0[1] && v0[1] != v0[2] && v0[2] != v0[3]);
                assert(v1[0] != v1[1] && v1[1] != v1[2] && v1[2] != v1[3]);
                assert(v2[0] != v2[1] && v2[1] != v2[2] && v2[2] != v2[3]);
                assert(v3[0] != v3[1] && v3[1] != v3[2] && v3[2] != v3[3]);
            }
        }
    }
    if no_vertical_pair(s) {
        assert(merge4(v0) == v0 && merge4(v1) == v1 && merge4(v2) == v2 && merge4(v3) == v3);
        assert(merge_count_all(s, Action::Up) == 0);
    }
}

/// On a board with no empty cell, the two merge passes of the ending check
/// change nothing exactly when no merge is possible anywhere.
pub proof fn lemma_terminal_check(s: Seq<u8>, m: u8)
    requires
        wf(s),
        full(s),
        bounded(s, m),
        m < 255,
    ensures
        merge_all(s, Action::Left) == s <==> no_horizontal_pair(s),
        merge_all(s, Action::Up) == s <==> no_vertical_pair(s),
{
    lemma_terminal_check_h(s, m);
    lemma_terminal_check_v(s, m);
}

/// The deterministic part of a move: the score rises by exactly 4 and the
/// count of empty cells by exactly 1 for each combined pair; the cell bound
/// rises by at most 1; a changed board always keeps at least one empty cell;
/// and when no pair was combined the move is exactly one slide.
pub proof fn lemma_moved_props(s: Seq<u8>, dir: Action, m: u8)
    requires
        wf(s),
        bounded(s, m),
        m < 255,
    ensures
        wf(moved(s, dir)),
        bounded(moved(s, dir), (m + 1) as u8),
        score16(moved(s, dir)) == score16(s) + 4 * merge_count_all(slide_all(s, dir), dir),
        empty16(moved(s, dir)) == empty16(s) + merge_count_all(slide_all(s, dir), dir),
        merge_count_all(slide_all(s, dir), dir) >= 0,
        merge_count_all(slide_all(s, dir), dir) == 0 ==> moved(s, dir) == slide_all(s, dir),
        moved(s, dir) != s ==> has_empty(moved(s, dir)),
{
    let t1 = slide_all(s, dir);
    lemma_slide_all_props(s, dir, m);
    let t2 = merge_all(t1, dir);
    lemma_merge_all_props(t1, dir, m);
    lemma_slide_all_props(t2, dir, (m + 1) as u8);
    let mc = merge_count_all(t1, dir);
    if mc == 0 {
        assert(t2 == t1);
        assert(moved(s, dir) == slide_all(t1, dir));
        assert(moved(s, dir) == t1);
    }
    if moved(s, dir) != s {
        lemma_empty16_has_empty(s);
        lemma_empty16_has_empty(moved(s, dir));
        if mc == 0 {
            if empty16(s) == 0 {
                assert(t1 == s);
                assert(moved(s, dir) == s);
            }
            assert(empty16(s) >= 1);
        } else {
            assert(empty16(moved(s, dir)) == empty16(s) + mc);
            assert(empty16(s) >= 0);
        }
        assert(empty16(moved(s, dir)) >= 1);
    }
}

/// Updating one cell changes the recursive score sum by the difference of
/// the two cell scores.
pub proof fn lemma_board_score_update(s: Seq<u8>, j: int, v: u8)
    requires
        0 <= j < s.len(),
    ensures
        board_score(s.update(j, v)) == board_score(s) - cell_score(s[j]) + cell_score(v),
    decreases s.len(),
{
    if j == s.len() - 1 {
        assert(s.update(j, v).drop_last() =~= s.drop_last());
        assert(s.update(j, v).last() == v);
    } else {
        assert(s.update(j, v).drop_last() =~= s.drop_last().update(j, v));
        lemma_board_score_update(s.drop_last(), j, v);
        assert(s.update(j, v).last() == s.last());
    }
}

/// Number of empty cells, counted recursively for proofs by induction.
pub open spec fn empties(s: Seq<u8>) -> int
    decreases s.len(),
{
    if s.len() == 0 {
        0
    } else {
        empties(s.drop_last()) + if s.last() == 0 {
            1int
        } else {
            0int
        }
    }
}

/// Peeling one cell off the front of the recursive empty-cell count.
proof fn lemma_empties_step(s: Seq<u8>, k: int)
    requires
        0 <= k < s.len(),
    ensures
        empties(s.take(k + 1)) == empties(s.take(k)) + if s[k] == 0 {
            1int
        } else {
            0int
        },
{
    assert(s.take(k + 1).drop_last() =~= s.take(k));
    assert(s.take(k + 1).last() == s[k]);
}

/// The recursive empty-cell count equals the explicit 16-cell sum.
#[verifier::rlimit(100)]
proof fn lemma_empties_is_empty16(s: Seq<u8>)
    requires
        wf(s),
    ensures
        empties(s) == empty16(s),
{
    assert(s.take(0) =~= Seq::<u8>::empty());
    lemma_empties_step(s, 0);
    lemma_empties_step(s, 1);
    lemma_empties_step(s, 2);
    lemma_empties_step(s, 3);
    lemma_empties_step(s, 4);
    lemma_empties_step(s, 5);
    lemma_empties_step(s, 6);
    lemma_empties_step(s, 7);
    lemma_empties_step(s, 8);
    lemma_empties_step(s, 9);
    lemma_empties_step(s, 10);
    lemma_empties_step(s, 11);
    lemma_empties_step(s, 12);
    lemma_empties_step(s, 13);
    lemma_empties_step(s, 14);
    lemma_empties_step(s, 15);
    assert(s.take(16) =~= s);
}

/// Updating one cell changes the recursive empty-cell count by the change
/// at that cell.
proof fn lemma_empties_update(s: Seq<u8>, j: int, v: u8)
    requires
        0 <= j < s.len(),
    ensures
        empties(s.update(j, v)) == empties(s) - (if s[j] == 0 {
            1int
        } else {
            0int
        }) + (if v == 0 {
            1int
        } else {
            0int
        }),
    decreases s.len(),
{
    if j == s.len() - 1 {
        assert(s.update(j, v).drop_last() =~= s.drop_last());
        assert(s.update(j, v).last() == v);
    } else {
        assert(s.update(j, v).drop_last() =~= s.drop_last().update(j, v));
        lemma_empties_update(s.drop_last(), j, v);
        assert(s.update(j, v).last() == s.last());
    }
}

/// Spawning one tile into `m`: the score rises by the new tile's score, 0
/// for a spawned 2 and 4 for a spawned 4; the count of empty cells falls by
/// one; and the bound is kept as long as it admits the new tile.
pub proof fn lemma_spawn_props(m: Seq<u8>, b: Seq<u8>, mm: u8)
    requires
        wf(m),
        is_spawn_of(m, b),
    ensures
        wf(b),
        score16(m) <= score16(b) <= score16(m) + 4,
        empty16(b) == empty16(m) - 1,
        mm >= 2 && bounded(m, mm) ==> bounded(b, mm),
        b != m,
{
    let j = choose|j: int|
        0 <= j < 16 && m[j] == 0 && (b[j] == 1 || b[j] == 2) && b == m.update(j, b[j]);
    assert(cell_score(0u8) == 0 && cell_score(1u8) == 0 && cell_score(2u8) == 4) by {
        reveal(cell_score);
        vstd::arithmetic::power2::lemma2_to64();
    }
    lemma_board_score_is_score16(m);
    lemma_board_score_is_score16(b);
    lemma_board_score_update(m, j, b[j]);
    lemma_empties_is_empty16(m);
    lemma_empties_is_empty16(b);
    lemma_empties_update(m, j, b[j]);
    if mm >= 2 && bounded(m, mm) {
        assert forall|k: int| 0 <= k < 16 implies b[k] <= mm by {}
    }
}

} // verus!
