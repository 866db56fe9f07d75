//! The mathematical model of the game: boards as sequences of cell
//! exponents, the per-line compaction and merge passes, the combined move
//! transition, scoring and terminal-state detection.

use crate::Action;
use vstd::arithmetic::power2::pow2;
use vstd::prelude::*;

verus! {

/// A board is well formed when it holds exactly 16 cells, row-major.
pub open spec fn wf(s: Seq<u8>) -> bool {
    s.len() == 16
}

/// Every cell exponent is at most `m`.
pub open spec fn bounded(s: Seq<u8>, m: u8) -> bool {
    forall|i: int| 0 <= i < s.len() ==> s[i] <= m
}

/// No cell of the board is empty.
pub open spec fn full(s: Seq<u8>) -> bool {
    forall|i: int| 0 <= i < s.len() ==> s[i] != 0
}

/// Some cell of the board is empty.
pub open spec fn has_empty(s: Seq<u8>) -> bool {
    exists|i: int| 0 <= i < s.len() && s[i] == 0
}

/// Cumulative score contributed by one cell: empty cells and freshly spawned
/// `2` tiles are worth nothing, and a tile `2^e` is worth `2^(e+1) - 4`,
/// the sum of all merge values that can have produced it.
#[verifier::opaque]
pub open spec fn cell_score(e: u8) -> int {
    if e <= 1 {
        0
    } else {
        pow2((e + 1) as nat) - 4
    }
}

/// Total score of a board: the sum of its cells' scores.
pub open spec fn board_score(s: Seq<u8>) -> int
    decreases s.len(),
{
    if s.len() == 0 {
        0
    } else {
        board_score(s.drop_last()) + cell_score(s.last())
    }
}

/// Number of empty cells in one line of four.
pub open spec fn empty4(l: Seq<u8>) -> int
    recommends
        l.len() == 4,
{
    (if l[0] == 0 { 1int } else { 0int }) + (if l[1] == 0 { 1int } else { 0int }) + (if l[2] == 0 {
        1int
    } else {
        0int
    }) + (if l[3] == 0 { 1int } else { 0int })
}

/// Score of one line of four.
pub open spec fn line_score(l: Seq<u8>) -> int
    recommends
        l.len() == 4,
{
    cell_score(l[0]) + cell_score(l[1]) + cell_score(l[2]) + cell_score(l[3])
}

/// The non-empty cells of a line, in their original order.
#[verifier::opaque]
pub open spec fn nonzeros(l: Seq<u8>) -> Seq<u8>
    decreases l.len(),
{
    if l.len() == 0 {
        Seq::empty()
    } else if l.last() == 0 {
        nonzeros(l.drop_last())
    } else {
        nonzeros(l.drop_last()).push(l.last())
    }
}

/// A run of `n` empty cells.
pub open spec fn zero_pad(n: int) -> Seq<u8> {
    Seq::new(if n >= 0 { n as nat } else { 0nat }, |i: int| 0u8)
}

/// Sliding a line of four toward its near edge: the non-empty cells keep
/// their order and move to the front, the empty cells pad the far end.
pub open spec fn compact4(l: Seq<u8>) -> Seq<u8>
    recommends
        l.len() == 4,
{
    nonzeros(l) + zero_pad(4 - nonzeros(l).len())
}

/// One merged (doubled) cell.
pub open spec fn bump(x: u8) -> u8 {
    (x + 1) as u8
}

/// One merge pass over a line of four, sweeping from the near edge: each
/// adjacent pair is inspected in turn against the values the sweep has
/// already produced, and an equal non-empty pair becomes one doubled cell
/// next to one emptied cell. A cell emptied by an earlier pair of the same
/// pass cannot merge again.
#[verifier::opaque]
pub open spec fn merge4(l: Seq<u8>) -> Seq<u8>
    recommends
        l.len() == 4,
{
    let a = l[0];
    let b = l[1];
    let c = l[2];
    let d = l[3];
    let a1 = if a == b && a != 0 { bump(a) } else { a };
    let b1 = if a == b && a != 0 { 0u8 } else { b };
    let b2 = if b1 == c && b1 != 0 { bump(b1) } else { b1 };
    let c1 = if b1 == c && b1 != 0 { 0u8 } else { c };
    let c2 = if c1 == d && c1 != 0 { bump(c1) } else { c1 };
    let d1 = if c1 == d && c1 != 0 { 0u8 } else { d };
    seq![a1, b2, c2, d1]
}

/// How many pairs the merge pass over `l` combines.
#[verifier::opaque]
pub open spec fn merge4_count(l: Seq<u8>) -> int
    recommends
        l.len() == 4,
{
    let a = l[0];
    let b = l[1];
    let c = l[2];
    let d = l[3];
    let t1 = a == b && a != 0;
    let b1 = if t1 { 0u8 } else { b };
    let t2 = b1 == c && b1 != 0;
    let c1 = if t2 { 0u8 } else { c };
    let t3 = c1 == d && c1 != 0;
    (if t1 { 1int } else { 0int }) + (if t2 { 1int } else { 0int }) + (if t3 { 1int } else { 0int })
}

/// Board index of position `p` (0 = near edge) in line `r` of a move in
/// direction `dir`. Lines are rows for Left and Right, columns for Up and
/// Down.
pub open spec fn idx_of(dir: Action, r: int, p: int) -> int
    recommends
        0 <= r < 4,
        0 <= p < 4,
{
    match dir {
        Action::Left => 4 * r + p,
        Action::Right => 4 * r + 3 - p,
        Action::Up => r + 4 * p,
        Action::Down => r + 12 - 4 * p,
    }
}

/// Line `r` of the board for direction `dir`, near edge first.
pub open spec fn line_at(s: Seq<u8>, dir: Action, r: int) -> Seq<u8>
    recommends
        wf(s),
        0 <= r < 4,
{
    Seq::new(4, |p: int| s[idx_of(dir, r, p)])
}

/// Which line of direction `dir` the board index `i` belongs to.
pub open spec fn line_of(dir: Action, i: int) -> int
    recommends
        0 <= i < 16,
{
    match dir {
        Action::Left => i / 4,
        Action::Right => i / 4,
        Action::Up => i % 4,
        Action::Down => i % 4,
    }
}

/// The position (0 = near edge) of board index `i` within its line.
pub open spec fn pos_of(dir: Action, i: int) -> int
    recommends
        0 <= i < 16,
{
    match dir {
        Action::Left => i % 4,
        Action::Right => 3 - i % 4,
        Action::Up => i / 4,
        Action::Down => 3 - i / 4,
    }
}

/// The board after sliding every line toward the near edge of `dir`.
pub open spec fn slide_all(s: Seq<u8>, dir: Action) -> Seq<u8>
    recommends
        wf(s),
{
    Seq::new(16, |i: int| compact4(line_at(s, dir, line_of(dir, i)))[pos_of(dir, i)])
}

/// The board after one merge pass over every line of `dir`.
pub open spec fn merge_all(s: Seq<u8>, dir: Action) -> Seq<u8>
    recommends
        wf(s),
{
    Seq::new(16, |i: int| merge4(line_at(s, dir, line_of(dir, i)))[pos_of(dir, i)])
}

/// The deterministic part of a move: slide, merge once, slide again to close
/// the gaps the merges opened. Spawning is not included.
pub open spec fn moved(s: Seq<u8>, dir: Action) -> Seq<u8>
    recommends
        wf(s),
{
    slide_all(merge_all(slide_all(s, dir), dir), dir)
}

/// The board with every cell empty.
pub open spec fn empty_board() -> Seq<u8> {
    Seq::new(16, |i: int| 0u8)
}

/// A freshly created board: empty but for two distinct cells, each holding
/// exponent 1.
pub open spec fn is_fresh_board(s: Seq<u8>) -> bool {
    exists|i: int, j: int|
        0 <= i < 16 && 0 <= j < 16 && i != j && s == #[trigger] empty_board().update(
            i,
            1u8,
        ).update(j, 1u8)
}

/// `b` is `m` with one new tile: a single formerly empty cell now holds
/// exponent 1 or 2, and every other cell is unchanged.
pub open spec fn is_spawn_of(m: Seq<u8>, b: Seq<u8>) -> bool {
    exists|j: int|
        0 <= j < 16 && m[j] == 0 && (b[j] == 1 || b[j] == 2) && b == m.update(j, b[j])
}

/// No two horizontally adjacent cells hold equal tiles.
pub open spec fn no_horizontal_pair(s: Seq<u8>) -> bool {
    forall|i: int| 0 <= i < 16 && i % 4 != 3 ==> #[trigger] s[i] != s[i + 1]
}

/// No two vertically adjacent cells hold equal tiles.
pub open spec fn no_vertical_pair(s: Seq<u8>) -> bool {
    forall|i: int| 0 <= i < 12 ==> #[trigger] s[i] != s[i + 4]
}

/// The game is over: every cell is filled and no merge is possible in any
/// direction.
pub open spec fn is_terminal(s: Seq<u8>) -> bool {
    full(s) && no_horizontal_pair(s) && no_vertical_pair(s)
}

} // verus!
