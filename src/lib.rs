//! Core of a small 2D arcade game: textual tile maps, their compilation into
//! placements and spawn plans, an entity store, and the collision-driven
//! damage and trigger rules, with the tutorial's scripted sequence.
pub mod bullet;
pub mod error_handler;
pub mod game;
pub mod health;
pub mod map_builder;
pub mod maps;
pub mod physics;
pub mod ship;
pub mod world;
