use std::collections::VecDeque;

use vstd::prelude::*;

use crate::direction::Direction;

verus! {

/// Most direction commands the buffer holds at once.
pub const INPUT_CAPACITY: usize = 3;

/// `d` is a real turn from heading `h`: neither `h` itself nor its reverse.
pub open spec fn is_turn(d: Direction, h: Direction) -> bool {
    d != h && d != h.opposite()
}

/// Heading and remaining buffer after one tick's consumption: entries are
/// taken from the front and dropped until a real turn is found, which
/// becomes the heading; entries behind it stay queued.
pub open spec fn consume(inputs: Seq<Direction>, heading: Direction) -> (Direction, Seq<Direction>)
    decreases inputs.len(),
{
    if inputs.len() == 0 {
        (heading, inputs)
    } else if is_turn(inputs[0], heading) {
        (inputs[0], inputs.drop_first())
    } else {
        consume(inputs.drop_first(), heading)
    }
}

/// Bounded FIFO of pending direction commands.
pub struct InputBuffer {
    inputs: VecDeque<Direction>,
}

impl View for InputBuffer {
    type V = Seq<Direction>;

    closed spec fn view(&self) -> Seq<Direction> {
        self.inputs@
    }
}

impl InputBuffer {
    pub open spec fn wf(&self) -> bool {
        self@.len() <= INPUT_CAPACITY
    }

    pub fn new() -> (r: InputBuffer)
        ensures
            r@ == Seq::<Direction>::empty(),
            r.wf(),
    {
        InputBuffer { inputs: VecDeque::new() }
    }

    pub fn len(&self) -> (r: usize)
        ensures
            r == self@.len(),
    {
        self.inputs.len()
    }

    /// The queued commands, front first.
    pub fn to_vec(&self) -> (r: Vec<Direction>)
        ensures
            r@ == self@,
    {
        let mut r: Vec<Direction> = Vec::new();
        let mut i: usize = 0;
        while i < self.inputs.len()
            invariant
                i <= self@.len(),
                r@ == self@.subrange(0, i as int),
            decreases self@.len() - i,
        {
            r.push(self.inputs[i]);
            i = i + 1;
            assert(r@ =~= self@.subrange(0, i as int));
        }
        assert(r@ =~= self@);
        r
    }

    /// Offers a command: appended when fewer than `INPUT_CAPACITY` are
    /// queued, dropped otherwise.
    pub fn push(&mut self, d: Direction)
        requires
            old(self).wf(),
        ensures
            final(self).wf(),
            old(self)@.len() < INPUT_CAPACITY ==> final(self)@ == old(self)@.push(d),
            old(self)@.len() >= INPUT_CAPACITY ==> final(self)@ == old(self)@,
    {
        if self.inputs.len() < INPUT_CAPACITY {
            self.inputs.push_back(d);
        }
    }

    /// Drops every queued command.
    pub fn clear(&mut self)
        ensures
            final(self)@ == Seq::<Direction>::empty(),
            final(self).wf(),
    {
        self.inputs.clear();
    }

    /// Consumes commands for one tick from current heading `heading` and
    /// returns the new heading (see `consume`).
    pub fn pop_matching(&mut self, heading: Direction) -> (r: Direction)
        requires
            old(self).wf(),
        ensures
            final(self).wf(),
            (r, final(self)@) == consume(old(self)@, heading),
    {
        while self.inputs.len() > 0
            invariant
                self.wf(),
                consume(self@, heading) == consume(old(self)@, heading),
            decreases self@.len(),
        {
            let front = self.inputs.pop_front();
            match front {
                Some(d) => {
                    if d != heading && d != heading.opposite() {
                        return d;
                    }
                },
                None => {},
            }
        }
        heading
    }
}

/// Commands that repeat or reverse the heading never change it, and are
/// dropped; the first real turn becomes the heading, together with every
/// command scanned before it leaving the buffer.
pub proof fn lemma_consume_filters(inputs: Seq<Direction>, heading: Direction)
    ensures
        (forall|i: int| 0 <= i < inputs.len() ==> !is_turn(#[trigger] inputs[i], heading)) ==> consume(
            inputs,
            heading,
        ) == (heading, Seq::<Direction>::empty()),
        forall|k: int|
            0 <= k < inputs.len() && is_turn(inputs[k], heading) && (forall|i: int|
                0 <= i < k ==> !is_turn(#[trigger] inputs[i], heading)) ==> consume(inputs, heading)
                == (inputs[k], inputs.subrange(k + 1, inputs.len() as int)),
    decreases inputs.len(),
{
    if inputs.len() > 0 {
        lemma_consume_filters(inputs.drop_first(), heading);
        let rest = inputs.drop_first();
        if forall|i: int| 0 <= i < inputs.len() ==> !is_turn(#[trigger] inputs[i], heading) {
            assert(forall|i: int| 0 <= i < rest.len() ==> !is_turn(#[trigger] rest[i], heading)) by {
                assert forall|i: int| 0 <= i < rest.len() implies !is_turn(#[trigger] rest[i], heading) by {
                    assert(rest[i] == inputs[i + 1]);
                }
            }
        }
        assert forall|k: int|
            0 <= k < inputs.len() && is_turn(inputs[k], heading) && (forall|i: int|
                0 <= i < k ==> !is_turn(#[trigger] inputs[i], heading)) implies consume(inputs, heading)
            == (inputs[k], inputs.subrange(k + 1, inputs.len() as int)) by {
            if k == 0 {
                assert(inputs.drop_first() =~= inputs.subrange(1, inputs.len() as int));
            } else {
                assert(!is_turn(inputs[0], heading));
                assert(forall|i: int| 0 <= i < k - 1 ==> !is_turn(#[trigger] rest[i], heading)) by {
                    assert forall|i: int| 0 <= i < k - 1 implies !is_turn(#[trigger] rest[i], heading) by {
                        assert(rest[i] == inputs[i + 1]);
                    }
                }
                assert(rest[k - 1] == inputs[k]);
                assert(rest.subrange(k, rest.len() as int) =~= inputs.subrange(k + 1, inputs.len() as int));
            }
        }
    }
}

} // verus!
