//! A grid-based snake simulation.
//!
//! The simulation is a small state machine: a snake occupying cells of a
//! square field centred at the origin, one food item, a facing direction that
//! the host steers, and a renderer that projects the state onto a text grid.
//! The host owns the clock and the display; it feeds directional events in
//! and shows the text that comes out.

pub mod cell;
pub mod direction;
pub mod snake;
pub mod food;
pub mod render;
pub mod state;

pub use cell::Cell;
pub use direction::{is_legal_turn, settle_requests, Direction};
pub use food::{accept_draw, off_centre_cell, spawn_food, Food, REDRAW_LIMIT};
pub use render::{render, BLANK_GLYPH, FOOD_GLYPH, SNAKE_GLYPH};
pub use snake::Snake;
pub use state::SimulationState;
