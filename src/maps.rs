//! The game's levels, written as text.
pub mod level_1;
pub mod tutorial;
