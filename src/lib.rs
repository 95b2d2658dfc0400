//! Tick-driven game-state engine of a grid-based snake game.
//!
//! The engine owns the snake's body, its heading, the buffered direction
//! commands, the single food item and the rules that move the game between
//! running and over. Rendering, windowing and the keyboard live elsewhere.

pub mod direction;
pub mod position;
pub mod input;
pub mod snake;
pub mod food;
pub mod game;
