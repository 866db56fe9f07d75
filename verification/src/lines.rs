//! One line of four cells: facts about the compaction and merge passes, and
//! the executable passes over four chosen board positions.

use crate::model::{bounded, bump, compact4, empty4, line_score, merge4, merge4_count, nonzeros};
use vstd::arithmetic::power2::{lemma2_to64, lemma_pow2_pos, lemma_pow2_strictly_increases, lemma_pow2_unfold, pow2};
use vstd::prelude::*;

verus! {

/// Step-by-step evaluation of `nonzeros` on a line of four, so that callers
/// can compute it by cases on which cells are empty.
pub proof fn lemma_nonzeros4(a: u8, b: u8, c: u8, d: u8)
    ensures
        nonzeros(seq![a, b, c, d]) == if d == 0 {
            nonzeros(seq![a, b, c])
        } else {
            nonzeros(seq![a, b, c]).push(d)
        },
        nonzeros(seq![a, b, c]) == if c == 0 {
            nonzeros(seq![a, b])
        } else {
            nonzeros(seq![a, b]).push(c)
        },
        nonzeros(seq![a, b]) == if b == 0 {
            nonzeros(seq![a])
        } else {
            nonzeros(seq![a]).push(b)
        },
        nonzeros(seq![a]) == if a == 0 {
            Seq::<u8>::empty()
        } else {
            Seq::<u8>::empty().push(a)
        },
{
    reveal_with_fuel(nonzeros, 2);
    assert(seq![a, b, c, d].drop_last() =~= seq![a, b, c]);
    assert(seq![a, b, c].drop_last() =~= seq![a, b]);
    assert(seq![a, b].drop_last() =~= seq![a]);
    assert(seq![a].drop_last() =~= Seq::<u8>::empty());
    assert(nonzeros(Seq::<u8>::empty()) == Seq::<u8>::empty());
}

/// The merge pass keeps the length of the line.
pub proof fn lemma_merge4_len(l: Seq<u8>)
    ensures
        merge4(l).len() == 4,
{
    reveal(crate::model::merge4);
}

/// The compaction of a line of four: it keeps the line's length, score,
/// number of empty cells and bound; compacting again changes nothing; and a
/// line with no empty cell is left as it is.
pub proof fn lemma_compact4_props(l: Seq<u8>, m: u8)
    requires
        l.len() == 4,
        bounded(l, m),
    ensures
        compact4(l).len() == 4,
        bounded(compact4(l), m),
        line_score(compact4(l)) == line_score(l),
        empty4(compact4(l)) == empty4(l),
        compact4(compact4(l)) == compact4(l),
        empty4(l) == 0 ==> compact4(l) == l,
{
    let a = l[0];
    let b = l[1];
    let c = l[2];
    let d = l[3];
    assert(l =~= seq![a, b, c, d]);
    lemma_nonzeros4(a, b, c, d);
    let k = compact4(l);
    assert(k.len() == 4);
    assert(k =~= seq![k[0], k[1], k[2], k[3]]);
    lemma_nonzeros4(k[0], k[1], k[2], k[3]);
    assert(compact4(k) =~= k);
    assert(empty4(l) == 0 ==> compact4(l) =~= l);
}

/// `2^(x+1)` is worth 4 more than two copies of `2^x`: the score a merge adds
/// is always exactly 4.
pub proof fn lemma_cell_score_bump(x: u8)
    requires
        x != 0,
        x < 255,
    ensures
        crate::model::cell_score(bump(x)) == 2 * crate::model::cell_score(x) + 4,
        crate::model::cell_score(x) >= 0,
        bump(x) != 0,
        bump(x) != x,
{
    reveal(crate::model::cell_score);
    lemma2_to64();
    if x >= 2 {
        lemma_pow2_unfold((x + 2) as nat);
        lemma_pow2_pos((x + 1) as nat);
        assert(pow2((x + 1) as nat) >= 4) by {
            if x + 1 > 3 {
                lemma_pow2_strictly_increases(2, (x + 1) as nat);
            }
        }
    }
}

/// The merge pass over a line of four: it keeps the length; it raises the
/// score by exactly 4 for each pair it combines and the count of empty cells
/// by exactly 1 for each; it changes the line exactly when it combines at
/// least one pair; it raises the bound by at most 1; and on a line with no
/// empty cell it changes nothing exactly when no two adjacent cells are
/// equal.
pub proof fn lemma_merge4_props(l: Seq<u8>, m: u8)
    requires
        l.len() == 4,
        bounded(l, m),
        m < 255,
    ensures
        merge4(l).len() == 4,
        bounded(merge4(l), (m + 1) as u8),
        line_score(merge4(l)) == line_score(l) + 4 * merge4_count(l),
        empty4(merge4(l)) == empty4(l) + merge4_count(l),
        merge4_count(l) >= 0,
        merge4_count(l) == 0 <==> merge4(l) == l,
        empty4(l) == 0 ==> (merge4(l) == l <==> (l[0] != l[1] && l[1] != l[2] && l[2] != l[3])),
{
    reveal(crate::model::merge4);
    reveal(crate::model::merge4_count);
    assert(crate::model::cell_score(0u8) == 0) by {
        reveal(crate::model::cell_score);
    }
    let a = l[0];
    let b = l[1];
    let c = l[2];
    let d = l[3];
    if a == b && a != 0 {
        lemma_cell_score_bump(a);
    }
    let b1 = if a == b && a != 0 { 0u8 } else { b };
    if b1 == c && b1 != 0 {
        lemma_cell_score_bump(b1);
    }
    let c1 = if b1 == c && b1 != 0 { 0u8 } else { c };
    if c1 == d && c1 != 0 {
        lemma_cell_score_bump(c1);
    }
    assert(merge4(l) == l ==> merge4_count(l) == 0) by {
        if a == b && a != 0 {
            assert(merge4(l)[1] == 0);
        } else if b1 == c && b1 != 0 {
            assert(merge4(l)[2] == 0);
        } else if c1 == d && c1 != 0 {
            assert(merge4(l)[3] == 0);
        }
    }
    assert(merge4_count(l) == 0 ==> merge4(l) =~= l);
}

/// The compacted line: the non-empty cells in order, then the empty ones.
#[verifier::rlimit(100)]
fn compact_cells(a: u8, b: u8, c: u8, d: u8) -> (r: (u8, u8, u8, u8))
    ensures
        seq![r.0, r.1, r.2, r.3] == compact4(seq![a, b, c, d]),
{
    let r: (u8, u8, u8, u8) = if a != 0 {
        if b != 0 {
            if c != 0 {
                if d != 0 {
                    (a, b, c, d)
                } else {
                    (a, b, c, 0)
                }
            } else {
                if d != 0 {
                    (a, b, d, 0)
                } else {
                    (a, b, 0, 0)
                }
            }
        } else {
            if c != 0 {
                if d != 0 {
                    (a, c, d, 0)
                } else {
                    (a, c, 0, 0)
                }
            } else {
                if d != 0 {
                    (a, d, 0, 0)
                } else {
                    (a, 0, 0, 0)
                }
            }
        }
    } else {
        if b != 0 {
            if c != 0 {
                if d != 0 {
                    (b, c, d, 0)
                } else {
                    (b, c, 0, 0)
                }
            } else {
                if d != 0 {
                    (b, d, 0, 0)
                } else {
                    (b, 0, 0, 0)
                }
            }
        } else {
            if c != 0 {
                if d != 0 {
                    (c, d, 0, 0)
                } else {
                    (c, 0, 0, 0)
                }
            } else {
                if d != 0 {
                    (d, 0, 0, 0)
                } else {
                    (0, 0, 0, 0)
                }
            }
        }
    };
    proof {
        lemma_nonzeros4(a, b, c, d);
        assert(seq![r.0, r.1, r.2, r.3] =~= compact4(seq![a, b, c, d]));
    }
    r
}

/// Compacts the line formed by the four distinct positions `i0, i1, i2, i3`
/// (near edge first) toward `i0`: the non-empty cells keep their order and
/// move next to `i0`, the empty cells move to the far end. No other cell
/// changes.
pub(crate) fn slide_line(v: &mut Vec<u8>, i0: usize, i1: usize, i2: usize, i3: usize)
    requires
        old(v)@.len() == 16,
        i0 < 16 && i1 < 16 && i2 < 16 && i3 < 16,
        i0 != i1 && i0 != i2 && i0 != i3 && i1 != i2 && i1 != i3 && i2 != i3,
    ensures
        final(v)@.len() == 16,
        seq![
            final(v)@[i0 as int],
            final(v)@[i1 as int],
            final(v)@[i2 as int],
            final(v)@[i3 as int],
        ] == compact4(
            seq![old(v)@[i0 as int], old(v)@[i1 as int], old(v)@[i2 as int], old(v)@[i3 as int]],
        ),
        forall|k: int|
            0 <= k < 16 && k != i0 as int && k != i1 as int && k != i2 as int && k != i3 as int
                ==> final(v)@[k] == old(v)@[k],
{
    let packed = compact_cells(v[i0], v[i1], v[i2], v[i3]);
    v[i0] = packed.0;
    v[i1] = packed.1;
    v[i2] = packed.2;
    v[i3] = packed.3;
    proof {
        assert(seq![v@[i0 as int], v@[i1 as int], v@[i2 as int], v@[i3 as int]] =~= seq![
            packed.0,
            packed.1,
            packed.2,
            packed.3,
        ]);
    }
}

/// One merge pass over the line formed by the four distinct positions
/// `i0, i1, i2, i3` (near edge first): each adjacent pair is inspected from
/// the edge against the values already produced, and an equal non-empty pair
/// becomes one doubled cell and one emptied cell. No other cell changes.
pub(crate) fn merge_line(v: &mut Vec<u8>, i0: usize, i1: usize, i2: usize, i3: usize)
    requires
        old(v)@.len() == 16,
        i0 < 16 && i1 < 16 && i2 < 16 && i3 < 16,
        i0 != i1 && i0 != i2 && i0 != i3 && i1 != i2 && i1 != i3 && i2 != i3,
        old(v)@[i0 as int] <= 254,
        old(v)@[i1 as int] <= 254,
        old(v)@[i2 as int] <= 254,
    ensures
        final(v)@.len() == 16,
        seq![
            final(v)@[i0 as int],
            final(v)@[i1 as int],
            final(v)@[i2 as int],
            final(v)@[i3 as int],
        ] == merge4(
            seq![old(v)@[i0 as int], old(v)@[i1 as int], old(v)@[i2 as int], old(v)@[i3 as int]],
        ),
        forall|k: int|
            0 <= k < 16 && k != i0 as int && k != i1 as int && k != i2 as int && k != i3 as int
                ==> final(v)@[k] == old(v)@[k],
{
    if v[i0] == v[i1] && v[i0] != 0 {
        let doubled = v[i0] + 1;
        v[i0] = doubled;
        v[i1] = 0;
    }
    if v[i1] == v[i2] && v[i1] != 0 {
        let doubled = v[i1] + 1;
        v[i1] = doubled;
        v[i2] = 0;
    }
    if v[i2] == v[i3] && v[i2] != 0 {
        let doubled = v[i2] + 1;
        v[i2] = doubled;
        v[i3] = 0;
    }
    proof {
        reveal(crate::model::merge4);
        let a = old(v)@[i0 as int];
        let b = old(v)@[i1 as int];
        let c = old(v)@[i2 as int];
        let d = old(v)@[i3 as int];
        assert(seq![v@[i0 as int], v@[i1 as int], v@[i2 as int], v@[i3 as int]] =~= merge4(
            seq![a, b, c, d],
        ));
    }
}

} // verus!
