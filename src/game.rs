use vstd::prelude::*;

use crate::direction::Direction;
use crate::food::{has_free_cell, is_free, place_food};
use crate::input::{consume, InputBuffer};
use crate::position::{in_arena, stepped, Position};
use crate::snake::{collides, no_overlap, shifted, Snake};

verus! {

/// The signals raised during one tick. Each is a level: raised or not.
#[derive(Clone, Copy, Debug, PartialEq, Eq, Structural)]
pub struct TickEvents {
    /// The round is over and must be reset.
    pub game_over: bool,
    /// The snake ate and grows by one segment.
    pub growth: bool,
    /// New food must be placed.
    pub food_needed: bool,
}

/// The phases of a frame, in the order they run: commands are collected,
/// then one tick moves the snake, lets it eat, and lets it grow.
#[derive(Clone, Copy, Debug, Hash, PartialEq, Eq, Structural)]
pub enum SnakeMovement {
    Input,
    Movement,
    Eating,
    Growth,
}

/// The body of a fresh round: head at (3, 3), one segment below it.
pub open spec fn start_segments() -> Seq<Position> {
    seq![Position { x: 3, y: 3 }, Position { x: 3, y: 2 }]
}

/// State of one round: the snake, its pending commands, the food, and the
/// cell that the tail left on the latest tick.
pub struct Game {
    pub snake: Snake,
    pub inputs: InputBuffer,
    pub food: Option<Position>,
    pub last_tail: Option<Position>,
}

impl Game {
    /// Between ticks the whole snake lies in the arena with no two segments
    /// on one cell, and food, if any, lies in the arena off the snake.
    pub open spec fn wf(&self) -> bool {
        &&& self.snake.wf()
        &&& self.inputs.wf()
        &&& forall|i: int|
            0 <= i < self.snake.segments@.len() ==> in_arena(#[trigger] self.snake.segments@[i])
        &&& no_overlap(self.snake.segments@)
        &&& (self.food matches Some(f) ==> is_free(self.snake.segments@, f))
    }

    /// Heading after this tick's command is consumed.
    pub open spec fn next_heading(&self) -> Direction {
        consume(self.inputs@, self.snake.heading).0
    }

    /// Cell the head moves to on this tick.
    pub open spec fn next_head(&self) -> Position {
        stepped(self.snake.head_spec(), self.next_heading())
    }

    /// The head reaches the food on this tick.
    pub open spec fn eats(&self) -> bool {
        self.food == Some(self.next_head())
    }

    /// Events that this tick raises.
    pub open spec fn tick_events(&self) -> TickEvents {
        let over = collides(self.snake.segments@, self.next_head());
        TickEvents { game_over: over, growth: self.eats(), food_needed: over || self.eats() }
    }

    /// Body after this tick's movement and growth.
    pub open spec fn ticked_segments(&self) -> Seq<Position> {
        let moved = shifted(self.snake.segments@, self.next_head());
        if self.eats() {
            moved.push(self.snake.segments@.last())
        } else {
            moved
        }
    }

    /// A fresh round, before any food is placed.
    pub fn fresh() -> (r: Game)
        ensures
            r.wf(),
            r.snake.segments@ == start_segments(),
            r.snake.heading == Direction::Up,
            r.inputs@ == Seq::<Direction>::empty(),
            r.food is None,
            r.last_tail is None,
    {
        Game { snake: Snake::new(), inputs: InputBuffer::new(), food: None, last_tail: None }
    }

    /// A fresh round with its first food placed.
    pub fn new() -> (r: Game)
        ensures
            r.wf(),
            r.snake.segments@ == start_segments(),
            r.snake.heading == Direction::Up,
            r.inputs@ == Seq::<Direction>::empty(),
            r.food is Some,
            r.last_tail is None,
    {
        let mut g = Game::fresh();
        proof {
            assert(is_free(start_segments(), Position { x: 0, y: 0 }));
        }
        g.respawn_food(true);
        g
    }

    /// Offers a direction command to the input buffer.
    pub fn steer(&mut self, d: Direction)
        requires
            old(self).wf(),
        ensures
            final(self).wf(),
            final(self).snake == old(self).snake,
            final(self).food == old(self).food,
            final(self).last_tail == old(self).last_tail,
            old(self).inputs@.len() < crate::input::INPUT_CAPACITY ==> final(self).inputs@ == old(
                self,
            ).inputs@.push(d),
            old(self).inputs@.len() >= crate::input::INPUT_CAPACITY ==> final(self).inputs@ == old(
                self,
            ).inputs@,
    {
        self.inputs.push(d);
    }

    /// One fixed tick: movement, then eating, then growth.
    pub fn tick(&mut self) -> (ev: TickEvents)
        requires
            old(self).wf(),
        ensures
            ev == old(self).tick_events(),
            final(self).snake.wf(),
            final(self).inputs.wf(),
            final(self).snake.heading == old(self).next_heading(),
            final(self).inputs@ == consume(old(self).inputs@, old(self).snake.heading).1,
            final(self).snake.segments@ == old(self).ticked_segments(),
            final(self).food == (if ev.growth {
                None
            } else {
                old(self).food
            }),
            final(self).last_tail == Some(old(self).snake.segments@.last()),
            !ev.game_over ==> final(self).wf(),
    {
        let ghost pre = *self;
        assert(in_arena(self.snake.segments@[0]));
        let moved = self.snake.advance(&mut self.inputs);
        self.last_tail = Some(moved.last_tail);
        let head = self.snake.head();
        let growth = match self.food {
            Some(f) => f == head,
            None => false,
        };
        if growth {
            self.food = None;
            self.snake.grow(moved.last_tail);
        }
        let ev = TickEvents {
            game_over: moved.collided,
            growth,
            food_needed: moved.collided || growth,
        };
        proof {
            let old_segs = pre.snake.segments@;
            let segs = self.snake.segments@;
            if !ev.game_over {
                assert forall|i: int| 0 <= i < segs.len() implies in_arena(#[trigger] segs[i]) by {
                    if i > 0 && i < old_segs.len() {
                        assert(segs[i] == old_segs[i - 1]);
                    } else if i >= old_segs.len() {
                        assert(segs[i] == old_segs[old_segs.len() - 1]);
                    }
                }
                assert forall|i: int, j: int| 0 <= i < j < segs.len() implies segs[i] != segs[j] by {
                    if i == 0 {
                        assert(segs[0] == pre.next_head());
                        assert(!old_segs.contains(pre.next_head()));
                        let k = if j < old_segs.len() {
                            j - 1
                        } else {
                            old_segs.len() - 1
                        };
                        assert(segs[j] == old_segs[k]);
                        assert(old_segs.contains(segs[j]));
                    } else if j < old_segs.len() {
                        assert(segs[i] == old_segs[i - 1]);
                        assert(segs[j] == old_segs[j - 1]);
                    } else {
                        assert(segs[i] == old_segs[i - 1]);
                        assert(segs[j] == old_segs[old_segs.len() - 1]);
                    }
                }
                if let Some(f) = self.food {
                    assert(f != segs[0]);
                    assert(!old_segs.contains(f));
                    assert forall|i: int| 0 <= i < segs.len() implies segs[i] != f by {
                        if i > 0 {
                            assert(segs[i] == old_segs[i - 1]);
                        }
                    }
                }
            }
        }
        ev
    }

    /// Starts a new round when `game_over` is raised: the snake, the food
    /// and the pending commands are all replaced. Returns whether it did,
    /// which is also whether new food is needed.
    pub fn reset_on_game_over(&mut self, game_over: bool) -> (food_needed: bool)
        ensures
            food_needed == game_over,
            game_over ==> final(self).wf(),
            game_over ==> final(self).snake.segments@ == start_segments(),
            game_over ==> final(self).snake.heading == Direction::Up,
            game_over ==> final(self).inputs@ == Seq::<Direction>::empty(),
            game_over ==> final(self).food is None,
            game_over ==> final(self).last_tail is None,
            !game_over ==> *final(self) == *old(self),
    {
        if game_over {
            *self = Game::fresh();
        }
        game_over
    }

    /// Places new food off the snake when `food_needed` is raised.
    pub fn respawn_food(&mut self, food_needed: bool)
        requires
            old(self).snake.wf(),
            old(self).inputs.wf(),
            forall|i: int|
                0 <= i < old(self).snake.segments@.len() ==> in_arena(
                    #[trigger] old(self).snake.segments@[i],
                ),
            no_overlap(old(self).snake.segments@),
            !food_needed ==> old(self).wf(),
        ensures
            final(self).wf(),
            final(self).snake == old(self).snake,
            final(self).inputs == old(self).inputs,
            final(self).last_tail == old(self).last_tail,
            !food_needed ==> final(self).food == old(self).food,
            food_needed ==> (final(self).food is Some <==> has_free_cell(
                old(self).snake.segments@,
            )),
            food_needed ==> (final(self).food matches Some(p) ==> is_free(
                old(self).snake.segments@,
                p,
            )),
    {
        if food_needed {
            self.food = place_food(&self.snake.segments);
        }
    }

    /// One frame that carries a tick: the tick itself, then the reset on
    /// game over, then food placement. Returns the tick's events.
    pub fn step(&mut self) -> (ev: TickEvents)
        requires
            old(self).wf(),
        ensures
            ev == old(self).tick_events(),
            final(self).wf(),
            ev.game_over ==> final(self).snake.segments@ == start_segments(),
            ev.game_over ==> final(self).snake.heading == Direction::Up,
            ev.game_over ==> final(self).inputs@ == Seq::<Direction>::empty(),
            ev.game_over ==> final(self).food is Some,
            !ev.game_over ==> final(self).snake.segments@ == old(self).ticked_segments(),
            !ev.game_over ==> final(self).snake.heading == old(self).next_heading(),
            !ev.game_over ==> final(self).inputs@ == consume(
                old(self).inputs@,
                old(self).snake.heading,
            ).1,
            !ev.game_over && !ev.growth ==> final(self).food == old(self).food,
            !ev.game_over && ev.growth ==> (final(self).food is Some <==> has_free_cell(
                old(self).ticked_segments(),
            )),
            final(self).food matches Some(p) ==> is_free(final(self).snake.segments@, p),
    {
        let ev = self.tick();
        self.reset_on_game_over(ev.game_over);
        proof {
            if ev.game_over {
                assert(is_free(start_segments(), Position { x: 0, y: 0 }));
            }
        }
        self.respawn_food(ev.food_needed);
        ev
    }
}

/// A tick whose head leaves the arena raises both game over and the need
/// for new food.
pub proof fn lemma_leaving_arena_ends_round(g: Game)
    requires
        g.wf(),
        !in_arena(g.next_head()),
    ensures
        g.tick_events().game_over,
        g.tick_events().food_needed,
{
}

/// A tick whose head lands on a cell that a segment held before the move
/// raises both game over and the need for new food.
pub proof fn lemma_self_collision_ends_round(g: Game)
    requires
        g.wf(),
        g.snake.segments@.contains(g.next_head()),
    ensures
        g.tick_events().game_over,
        g.tick_events().food_needed,
{
}

/// A tick that raises growth lengthens the snake by exactly one segment,
/// placed where the tail stood before that same tick's move; a tick that
/// does not keeps the length.
pub proof fn lemma_growth_adds_pre_move_tail(g: Game)
    requires
        g.wf(),
    ensures
        g.tick_events().growth ==> g.ticked_segments().len() == g.snake.segments@.len() + 1,
        g.tick_events().growth ==> g.ticked_segments().last() == g.snake.segments@.last(),
        !g.tick_events().growth ==> g.ticked_segments().len() == g.snake.segments@.len(),
{
}

} // verus!
