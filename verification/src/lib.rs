//! A snake game engine on a square board whose edges wrap around.
//!
//! The engine is a state machine: [`state::State`] is advanced by
//! [`state::State::move_snake`] and steered by [`state::State::change_direction`]
//! or [`state::State::on_key_press`]. Every executable function is specified
//! against the mathematical model [`model::Game`].

pub mod board;
pub mod food;
pub mod laws;
pub mod model;
pub mod state;
