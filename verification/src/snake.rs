//! The snake: its body, its target length and the direction it faces.

use vstd::prelude::*;
use crate::cell::{representable, Cell};
use crate::direction::{
    is_legal_turn, legal_turn, lemma_settle_is_legal, settle, turn_outcome, Direction,
};

verus! {

/// The mathematical content of a `Snake`.
pub struct SnakeModel {
    /// The cells occupied, head first.
    pub body: Seq<(int, int)>,
    /// The length up to which the body may grow.
    pub target: nat,
    /// The direction faced: that of the next step.
    pub direction: Direction,
    /// The direction of the last step, against which turns are judged.
    pub baseline: Direction,
}

impl SnakeModel {
    /// The body is never empty and never longer than the target length, and
    /// the direction faced never reverses the last step.
    pub open spec fn wf(self) -> bool {
        &&& 1 <= self.body.len() <= self.target
        &&& legal_turn(self.baseline, self.direction)
    }

    /// The cell that the head moves to in one step.
    pub open spec fn next_head(self) -> (int, int)
        recommends
            self.body.len() >= 1,
    {
        (self.body[0].0 + self.direction.offset().0, self.body[0].1 + self.direction.offset().1)
    }

    /// One step: the new head is put in front, the tail is dropped once if
    /// the body has outgrown the target length, and the direction of the
    /// step becomes the baseline for the turns to come.
    pub open spec fn advanced(self) -> SnakeModel
        recommends
            self.body.len() >= 1,
    {
        let grown = seq![self.next_head()] + self.body;
        SnakeModel {
            body: if grown.len() > self.target {
                grown.drop_last()
            } else {
                grown
            },
            target: self.target,
            direction: self.direction,
            baseline: self.direction,
        }
    }

    /// The same snake facing `direction`.
    pub open spec fn facing(self, direction: Direction) -> SnakeModel {
        SnakeModel { body: self.body, target: self.target, direction, baseline: self.baseline }
    }

    /// The snake after one request to turn.
    pub open spec fn turned(self, requested: Direction) -> SnakeModel {
        self.facing(turn_outcome(self.baseline, self.direction, requested))
    }
}

/// The views of a run of cells, in order.
pub open spec fn cell_views(cells: Seq<Cell>) -> Seq<(int, int)> {
    Seq::new(cells.len(), |i: int| cells[i]@)
}

/// A snake on the grid.
#[derive(Clone, Debug)]
pub struct Snake {
    /// The cells occupied; `body[0]` is the head.
    pub body: Vec<Cell>,
    /// The length up to which the body may grow.
    pub length: usize,
    /// The direction faced: that of the next step.
    pub direction: Direction,
    /// The direction of the last step. Requests to turn are judged against
    /// it, so that no run of requests within one tick turns the snake back
    /// onto its neck.
    pub baseline: Direction,
}

impl View for Snake {
    type V = SnakeModel;

    open spec fn view(&self) -> SnakeModel {
        SnakeModel {
            body: cell_views(self.body@),
            target: self.length as nat,
            direction: self.direction,
            baseline: self.baseline,
        }
    }
}

impl Snake {
    /// The invariant of a snake: at least one cell, at most `length` cells,
    /// and a direction that does not reverse the last step.
    pub open spec fn wf(&self) -> bool {
        self@.wf()
    }

    /// The next step stays within the coordinates that a `Cell` can hold.
    pub open spec fn can_advance(&self) -> bool {
        self@.body.len() >= 1 && representable(self@.next_head())
    }

    /// A snake of one cell at the centre of the field, not yet moving.
    pub fn new() -> (snake: Snake)
        ensures
            snake.wf(),
            snake@.body == seq![(0int, 0int)],
            snake@.target == 1,
            snake@.direction == Direction::Idle,
            snake@.baseline == Direction::Idle,
    {
        let mut body: Vec<Cell> = Vec::new();
        body.push(Cell::origin());
        let snake = Snake { body, length: 1, direction: Direction::Idle, baseline: Direction::Idle };
        assert(snake@.body =~= seq![(0int, 0int)]);
        snake
    }

    /// The head of the snake.
    pub fn head(&self) -> (head: Cell)
        requires
            self@.body.len() >= 1,
        ensures
            head@ == self@.body[0],
            head == self.body@[0],
    {
        self.body[0]
    }

    /// Turns the snake to `requested` if that is a legal turn from the
    /// direction of its last step; otherwise nothing changes.
    pub fn set_direction(&mut self, requested: Direction)
        ensures
            final(self)@ == old(self)@.turned(requested),
            final(self).body == old(self).body,
            final(self).length == old(self).length,
            final(self).baseline == old(self).baseline,
            legal_turn(old(self).baseline, requested) ==> final(self).direction == requested,
            !legal_turn(old(self).baseline, requested) ==> final(self).direction == old(
                self,
            ).direction,
            old(self).wf() ==> final(self).wf(),
    {
        if is_legal_turn(self.baseline, requested) {
            self.direction = requested;
        }
    }

    /// Tells whether a step in `direction` stays within the coordinates
    /// that a `Cell` can hold.
    pub fn fits_step(&self, direction: Direction) -> (fits: bool)
        requires
            self@.body.len() >= 1,
        ensures
            fits == representable(self@.facing(direction).next_head()),
            direction == self.direction ==> fits == self.can_advance(),
    {
        let head = self.body[0];
        assert(self@.facing(direction).body[0] == head@);
        match direction {
            Direction::Up => head.y < i32::MAX,
            Direction::Down => head.y > i32::MIN,
            Direction::Left => head.x > i32::MIN,
            Direction::Right => head.x < i32::MAX,
            Direction::Idle => true,
        }
    }

    /// Moves the snake one step in the direction it faces: the new head is
    /// put in front of the body, and the tail cell is dropped if the body
    /// would otherwise exceed the target length.
    pub fn advance(&mut self)
        requires
            old(self).can_advance(),
        ensures
            final(self)@ == old(self)@.advanced(),
            final(self).length == old(self).length,
            final(self).direction == old(self).direction,
            final(self).baseline == old(self).direction,
            old(self).wf() ==> final(self).wf(),
    {
        let head = self.body[0];
        let new_head = match self.direction {
            Direction::Up => Cell { x: head.x, y: head.y + 1 },
            Direction::Down => Cell { x: head.x, y: head.y - 1 },
            Direction::Left => Cell { x: head.x - 1, y: head.y },
            Direction::Right => Cell { x: head.x + 1, y: head.y },
            Direction::Idle => Cell { x: head.x, y: head.y },
        };
        assert(new_head@ == old(self)@.next_head());
        self.body.insert(0, new_head);
        assert(cell_views(self.body@) =~= seq![new_head@] + cell_views(old(self).body@));
        if self.body.len() > self.length {
            self.body.pop();
            assert(cell_views(self.body@) =~= (seq![new_head@] + cell_views(
                old(self).body@,
            )).drop_last());
        }
        self.baseline = self.direction;
    }
}

/// A step puts the head one unit further in the direction faced, and the
/// cell it left comes second wherever the target length leaves room for it.
pub proof fn lemma_advance_moves_head(m: SnakeModel)
    requires
        m.body.len() >= 1,
    ensures
        m.target >= 1 ==> m.advanced().body.len() >= 1 && m.advanced().body[0] == m.next_head(),
        m.direction == Direction::Up ==> m.next_head() == (m.body[0].0, m.body[0].1 + 1),
        m.direction == Direction::Down ==> m.next_head() == (m.body[0].0, m.body[0].1 - 1),
        m.direction == Direction::Left ==> m.next_head() == (m.body[0].0 - 1, m.body[0].1),
        m.direction == Direction::Right ==> m.next_head() == (m.body[0].0 + 1, m.body[0].1),
        m.direction == Direction::Idle ==> m.next_head() == m.body[0],
        m.target >= 2 ==> m.advanced().body.len() >= 2 && m.advanced().body[1] == m.body[0],
        forall|i: int| 1 <= i < m.advanced().body.len() ==> m.advanced().body[i] == m.body[i - 1],
{
}

/// A step never leaves the body longer than the target length, keeps a body
/// that had reached the target length at that length, and lets a shorter
/// one grow by one cell.
pub proof fn lemma_advance_respects_target(m: SnakeModel)
    requires
        1 <= m.body.len() <= m.target,
    ensures
        1 <= m.advanced().body.len() <= m.target,
        m.wf() ==> m.advanced().wf(),
        m.body.len() == m.target ==> m.advanced().body.len() == m.body.len(),
        m.body.len() < m.target ==> m.advanced().body.len() == m.body.len() + 1,
        m.advanced().target == m.target,
        m.advanced().direction == m.direction,
{
}

/// Whatever requests come between two steps, the second step never undoes
/// the first: the two offsets do not cancel, unless the snake stood still.
pub proof fn lemma_step_never_reverses(m: SnakeModel, requests: Seq<Direction>)
    requires
        m.wf(),
        m.baseline != Direction::Idle,
    ensures
        m.facing(settle(m.baseline, m.direction, requests)).wf(),
        ({
            let first = m.baseline.offset();
            let second = settle(m.baseline, m.direction, requests).offset();
            (first.0 + second.0, first.1 + second.1) != (0int, 0int)
        }),
{
    lemma_settle_is_legal(m.baseline, m.direction, requests);
}

} // verus!
