use vstd::prelude::*;

use crate::direction::Direction;
use crate::input::{consume, InputBuffer};
use crate::position::{can_step, contains_position, in_arena, stepped, Position};

verus! {

/// The snake: body cells head first, and the heading of the head.
pub struct Snake {
    pub segments: Vec<Position>,
    pub heading: Direction,
}

/// What one movement step reports.
#[derive(Clone, Copy, Debug, PartialEq, Eq, Structural)]
pub struct MoveOutcome {
    /// The head left the arena or ran into the body.
    pub collided: bool,
    /// Where the last segment stood before the move; a segment grown this
    /// tick is placed here.
    pub last_tail: Position,
}

/// Body after the head moves to `new_head`: each other segment takes the
/// cell that the segment ahead of it held before the move.
pub open spec fn shifted(segments: Seq<Position>, new_head: Position) -> Seq<Position> {
    seq![new_head] + segments.take(segments.len() - 1)
}

/// Whether moving the head to `new_head` ends the round: it leaves the
/// arena or lands on a cell that a segment held before the move.
pub open spec fn collides(segments: Seq<Position>, new_head: Position) -> bool {
    !in_arena(new_head) || segments.contains(new_head)
}

/// No two segments share a cell.
pub open spec fn no_overlap(segments: Seq<Position>) -> bool {
    forall|i: int, j: int| 0 <= i < j < segments.len() ==> segments[i] != segments[j]
}

impl Snake {
    /// A snake has a head and at least one body segment.
    pub open spec fn wf(&self) -> bool {
        self.segments@.len() >= 2
    }

    pub open spec fn head_spec(&self) -> Position {
        self.segments@[0]
    }

    /// The starting snake: head at (3, 3) heading up, one segment below it.
    pub fn new() -> (r: Snake)
        ensures
            r.wf(),
            r.segments@ == seq![Position { x: 3, y: 3 }, Position { x: 3, y: 2 }],
            r.heading == Direction::Up,
    {
        let segments = vec![Position::new(3, 3), Position::new(3, 2)];
        Snake { segments, heading: Direction::Up }
    }

    pub fn head(&self) -> (r: Position)
        requires
            self.wf(),
        ensures
            r == self.head_spec(),
    {
        self.segments[0]
    }

    pub fn len(&self) -> (r: usize)
        ensures
            r == self.segments@.len(),
    {
        self.segments.len()
    }

    /// One movement step: takes this tick's command from `inputs`, moves
    /// the head one cell along the resulting heading, lets the body follow,
    /// and reports whether the move ends the round.
    pub fn advance(&mut self, inputs: &mut InputBuffer) -> (r: MoveOutcome)
        requires
            old(self).wf(),
            old(inputs).wf(),
            can_step(old(self).head_spec()),
        ensures
            final(self).wf(),
            final(inputs).wf(),
            final(self).segments@.len() == old(self).segments@.len(),
            (final(self).heading, final(inputs)@) == consume(old(inputs)@, old(self).heading),
            final(self).segments@ == shifted(
                old(self).segments@,
                stepped(old(self).head_spec(), final(self).heading),
            ),
            r.collided == collides(
                old(self).segments@,
                stepped(old(self).head_spec(), final(self).heading),
            ),
            r.last_tail == old(self).segments@.last(),
    {
        let heading = inputs.pop_matching(self.heading);
        let old_head = self.segments[0];
        let new_head = old_head.step(heading);
        let collided = !new_head.is_in_arena() || contains_position(&self.segments, new_head);
        let n = self.segments.len();
        let last_tail = self.segments[n - 1];
        let mut moved: Vec<Position> = Vec::new();
        moved.push(new_head);
        let mut i: usize = 0;
        while i + 1 < n
            invariant
                n == self.segments@.len(),
                n >= 2,
                i + 1 <= n,
                moved@ == seq![new_head] + self.segments@.take(i as int),
            decreases n - i,
        {
            moved.push(self.segments[i]);
            i = i + 1;
            assert(moved@ =~= seq![new_head] + self.segments@.take(i as int));
        }
        self.segments = moved;
        self.heading = heading;
        MoveOutcome { collided, last_tail }
    }

    /// Appends one segment at `tail`.
    pub fn grow(&mut self, tail: Position)
        requires
            old(self).wf(),
        ensures
            final(self).wf(),
            final(self).heading == old(self).heading,
            final(self).segments@ == old(self).segments@.push(tail),
    {
        self.segments.push(tail);
    }
}

/// A two-segment snake lying straight along its heading never runs into
/// itself when it keeps going, and still lies straight afterwards.
pub proof fn lemma_straight_pair_never_collides(segments: Seq<Position>, heading: Direction)
    requires
        segments.len() == 2,
        can_step(segments[0]),
        can_step(segments[1]),
        segments[0] == stepped(segments[1], heading),
    ensures
        !segments.contains(stepped(segments[0], heading)),
        shifted(segments, stepped(segments[0], heading))[0] == stepped(
            shifted(segments, stepped(segments[0], heading))[1],
            heading,
        ),
{
    let next = stepped(segments[0], heading);
    assert(heading.dx() != 0 || heading.dy() != 0);
    assert(next != segments[0]);
    assert(next != segments[1]);
    if segments.contains(next) {
        let j = choose|j: int| 0 <= j < segments.len() && segments[j] == next;
        assert(j == 0 || j == 1);
    }
    assert(shifted(segments, next)[1] == segments[0]);
}

} // verus!
