//! Laws of the engine that relate several operations.

use crate::board_props::{
    lemma_board_score_is_score16, lemma_merge_all_props, lemma_moved_props, lemma_slide_all_props,
    lemma_spawn_props,
};
use crate::model::{board_score, bounded, is_spawn_of, merge_all, moved, slide_all, wf};
use crate::Action;
use vstd::prelude::*;

verus! {

/// Sliding is idempotent: for every board and direction, a second slide in
/// the same direction changes nothing.
pub proof fn lemma_slide_idempotent(s: Seq<u8>, dir: Action)
    requires
        wf(s),
    ensures
        slide_all(slide_all(s, dir), dir) == slide_all(s, dir),
{
    assert(bounded(s, 255));
    lemma_slide_all_props(s, dir, 255);
}

/// Score never decreases across a state-changing move: the board after the
/// move and its spawned tile scores at least as much as the board before,
/// and scores the same only when the move merged nothing and the spawned
/// tile was a 2.
pub proof fn lemma_score_monotone(s: Seq<u8>, dir: Action, b: Seq<u8>)
    requires
        wf(s),
        bounded(s, 17),
        moved(s, dir) != s,
        is_spawn_of(moved(s, dir), b),
    ensures
        board_score(b) >= board_score(s),
        board_score(b) == board_score(s) ==> merge_all(slide_all(s, dir), dir) == slide_all(
            s,
            dir,
        ),
{
    lemma_moved_props(s, dir, 17);
    lemma_spawn_props(moved(s, dir), b, 18);
    lemma_board_score_is_score16(s);
    lemma_board_score_is_score16(b);
    lemma_slide_all_props(s, dir, 17);
    lemma_merge_all_props(slide_all(s, dir), dir, 17);
}

} // verus!
