//! The whole simulation: one snake, one food item, one field, and the tick
//! that the host drives.

use vstd::prelude::*;
use crate::cell::{representable, within_extent};
use crate::direction::{settle, settle_requests, Direction};
use crate::food::{spawn_food, Food};
use crate::render::{render, render_text};
use crate::snake::Snake;

verus! {

/// The state of one game.
#[derive(Clone, Debug)]
pub struct SimulationState {
    pub snake: Snake,
    pub food: Food,
    pub field_size: i32,
}

impl SimulationState {
    /// The invariant of a game: a well-formed snake on a field of positive
    /// side, with the food off the centre.
    pub open spec fn wf(&self) -> bool {
        &&& self.snake.wf()
        &&& self.field_size > 0
        &&& self.food@ != (0int, 0int)
    }

    /// The direction the snake faces once the tick's `requests` are in.
    pub open spec fn settled(&self, requests: Seq<Direction>) -> Direction {
        settle(self.snake.baseline, self.snake.direction, requests)
    }

    /// The step that follows `requests` stays within the coordinates that a
    /// cell can hold.
    pub open spec fn can_tick(&self, requests: Seq<Direction>) -> bool {
        representable(self.snake@.facing(self.settled(requests)).next_head())
    }

    /// A new game on a field of side `field_size`: the snake is one cell at
    /// the centre and does not move yet; the food lies on the field, off the
    /// centre.
    pub fn new(field_size: i32) -> (state: SimulationState)
        requires
            field_size >= 2,
        ensures
            state.wf(),
            state.field_size == field_size,
            state.snake@.body == seq![(0int, 0int)],
            state.snake@.target == 1,
            state.snake@.direction == Direction::Idle,
            state.snake@.baseline == Direction::Idle,
            within_extent(state.food@, field_size as int),
    {
        let snake = Snake::new();
        let food = Food { position: spawn_food(field_size) };
        SimulationState { snake, food, field_size }
    }

    /// Hands one directional request to the snake.
    pub fn set_direction(&mut self, requested: Direction)
        ensures
            final(self).snake@ == old(self).snake@.turned(requested),
            final(self).snake.body == old(self).snake.body,
            final(self).snake.length == old(self).snake.length,
            final(self).food == old(self).food,
            final(self).field_size == old(self).field_size,
            old(self).wf() ==> final(self).wf(),
    {
        self.snake.set_direction(requested);
    }

    /// Moves the snake one step. The food and the field stay as they are,
    /// whether or not the snake reaches the food.
    pub fn advance(&mut self)
        requires
            old(self).snake.can_advance(),
        ensures
            final(self).snake@ == old(self).snake@.advanced(),
            final(self).food == old(self).food,
            final(self).field_size == old(self).field_size,
            old(self).wf() ==> final(self).wf(),
    {
        self.snake.advance();
    }

    /// The game as text.
    pub fn render(&self) -> (text: String)
        requires
            self.field_size > 0,
        ensures
            text@ == render_text(self.snake@.body, self.food@, self.field_size as int),
    {
        render(&self.snake, &self.food, self.field_size)
    }

    /// Tells whether the step that follows `requests` stays within the
    /// coordinates that a cell can hold, which is what `tick` asks for.
    pub fn fits_tick(&self, requests: &Vec<Direction>) -> (fits: bool)
        requires
            self.snake@.body.len() >= 1,
        ensures
            fits == self.can_tick(requests@),
    {
        self.snake.fits_step(
            settle_requests(self.snake.baseline, self.snake.direction, requests),
        )
    }

    /// One tick: every request is handed to the snake, in order, and judged
    /// against the direction of its last step, so the last legal one wins;
    /// then the snake moves one step, and the settled game is rendered.
    pub fn tick(&mut self, requests: &Vec<Direction>) -> (text: String)
        requires
            old(self).wf(),
            old(self).can_tick(requests@),
        ensures
            final(self).wf(),
            final(self).snake@ == old(self).snake@.facing(
                old(self).settled(requests@),
            ).advanced(),
            final(self).food == old(self).food,
            final(self).field_size == old(self).field_size,
            text@ == render_text(
                final(self).snake@.body,
                final(self).food@,
                final(self).field_size as int,
            ),
    {
        let mut i: usize = 0;
        assert(requests@.take(0) =~= Seq::<Direction>::empty());
        while i < requests.len()
            invariant
                i <= requests@.len(),
                self.wf(),
                self.snake.body == old(self).snake.body,
                self.snake.length == old(self).snake.length,
                self.snake.baseline == old(self).snake.baseline,
                self.food == old(self).food,
                self.field_size == old(self).field_size,
                self.snake.direction == old(self).settled(requests@.take(i as int)),
            decreases requests@.len() - i,
        {
            self.snake.set_direction(requests[i]);
            assert(requests@.take(i + 1).drop_last() =~= requests@.take(i as int));
            i += 1;
        }
        assert(requests@.take(i as int) =~= requests@);
        self.snake.advance();
        self.render()
    }
}

} // verus!
