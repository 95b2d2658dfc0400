use rand::Rng;

use vstd::prelude::*;

use crate::position::{in_arena, Position, ARENA_HEIGHT, ARENA_WIDTH};

verus! {

/// Random cells drawn for one placement before the arena is scanned in
/// order for a free cell.
pub const SPAWN_ATTEMPTS: usize = 16;

/// Food may go on `p`: inside the arena and off every segment.
pub open spec fn is_free(segments: Seq<Position>, p: Position) -> bool {
    in_arena(p) && !segments.contains(p)
}

/// Some cell of the arena is free.
pub open spec fn has_free_cell(segments: Seq<Position>) -> bool {
    exists|p: Position| is_free(segments, p)
}

/// `q` comes before `p` in row-major order (rows from `y = 0` upward).
pub open spec fn precedes(q: Position, p: Position) -> bool {
    q.y < p.y || (q.y == p.y && q.x < p.x)
}

/// `p` is the first free cell in row-major order.
pub open spec fn is_first_free_cell(segments: Seq<Position>, p: Position) -> bool {
    is_free(segments, p) && forall|q: Position| #[trigger] is_free(segments, q) ==> !precedes(q, p)
}

/// The first free cell among `candidates`, if any.
pub open spec fn first_free_candidate(segments: Seq<Position>, candidates: Seq<Position>) -> Option<
    Position,
>
    decreases candidates.len(),
{
    if candidates.len() == 0 {
        None
    } else if is_free(segments, candidates[0]) {
        Some(candidates[0])
    } else {
        first_free_candidate(segments, candidates.drop_first())
    }
}

/// Relies on rand::thread_rng and rand::Rng::gen_range: a value drawn from
/// `0..bound`, which panics on an empty range.
#[verifier::external_body]
fn random_below(bound: i32) -> (r: i32)
    requires
        0 < bound,
    ensures
        0 <= r < bound,
{
    rand::thread_rng().gen_range(0..bound)
}

/// Whether food may go on `p`.
pub fn cell_is_free(segments: &Vec<Position>, p: Position) -> (r: bool)
    ensures
        r == is_free(segments@, p),
{
    p.is_in_arena() && !crate::position::contains_position(segments, p)
}

/// The first free cell of the arena in row-major order, or `None` when the
/// snake fills the whole arena.
pub fn first_free_cell(segments: &Vec<Position>) -> (r: Option<Position>)
    ensures
        match r {
            Some(p) => is_first_free_cell(segments@, p),
            None => !has_free_cell(segments@),
        },
{
    let mut y: i32 = 0;
    while y < ARENA_HEIGHT
        invariant
            0 <= y <= ARENA_HEIGHT,
            forall|q: Position| #[trigger] is_free(segments@, q) ==> q.y >= y,
        decreases ARENA_HEIGHT - y,
    {
        let mut x: i32 = 0;
        while x < ARENA_WIDTH
            invariant
                0 <= y < ARENA_HEIGHT,
                0 <= x <= ARENA_WIDTH,
                forall|q: Position| #[trigger] is_free(segments@, q) ==> !precedes(q, Position { x, y }),
            decreases ARENA_WIDTH - x,
        {
            let p = Position::new(x, y);
            if cell_is_free(segments, p) {
                return Some(p);
            }
            x = x + 1;
        }
        y = y + 1;
    }
    None
}

/// Picks the cell for new food: the first free cell among `candidates`,
/// or, when none of them is free, the first free cell of the arena.
pub fn choose_food_cell(segments: &Vec<Position>, candidates: &Vec<Position>) -> (r: Option<Position>)
    ensures
        first_free_candidate(segments@, candidates@) is Some ==> r == first_free_candidate(
            segments@,
            candidates@,
        ),
        first_free_candidate(segments@, candidates@) is None ==> match r {
            Some(p) => is_first_free_cell(segments@, p),
            None => !has_free_cell(segments@),
        },
{
    let mut i: usize = 0;
    assert(candidates@.skip(0) =~= candidates@);
    while i < candidates.len()
        invariant
            i <= candidates@.len(),
            first_free_candidate(segments@, candidates@) == first_free_candidate(
                segments@,
                candidates@.skip(i as int),
            ),
        decreases candidates@.len() - i,
    {
        assert(candidates@.skip(i as int).drop_first() =~= candidates@.skip(i + 1));
        if cell_is_free(segments, candidates[i]) {
            return Some(candidates[i]);
        }
        i = i + 1;
    }
    first_free_cell(segments)
}

/// Places new food by rejection sampling: up to `SPAWN_ATTEMPTS` random
/// cells are tried, then the arena is scanned in order. The result is off
/// the snake, and it is `None` exactly when the snake fills the arena.
pub fn place_food(segments: &Vec<Position>) -> (r: Option<Position>)
    ensures
        r is Some <==> has_free_cell(segments@),
        r matches Some(p) ==> is_free(segments@, p),
{
    let mut candidates: Vec<Position> = Vec::new();
    let mut k: usize = 0;
    while k < SPAWN_ATTEMPTS
        invariant
            k <= SPAWN_ATTEMPTS,
        decreases SPAWN_ATTEMPTS - k,
    {
        let x = random_below(ARENA_WIDTH);
        let y = random_below(ARENA_HEIGHT);
        candidates.push(Position::new(x, y));
        k = k + 1;
    }
    proof {
        lemma_first_free_candidate_is_free(segments@, candidates@);
    }
    choose_food_cell(segments, &candidates)
}

/// What `first_free_candidate` picks is free.
proof fn lemma_first_free_candidate_is_free(segments: Seq<Position>, candidates: Seq<Position>)
    ensures
        first_free_candidate(segments, candidates) matches Some(p) ==> is_free(segments, p),
    decreases candidates.len(),
{
    if candidates.len() > 0 {
        lemma_first_free_candidate_is_free(segments, candidates.drop_first());
    }
}

} // verus!
