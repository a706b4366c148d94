//! Errors that reach the game loop, and how seriously each is taken.
use crate::map_builder::MapDraftError;
use vstd::prelude::*;

verus! {

#[derive(Clone, Copy, Debug, PartialEq, Eq, Structural)]
pub enum GameError {
    MapDraftError(MapDraftError),
}

#[derive(Clone, Copy, Debug, PartialEq, Eq, Structural)]
pub enum Severity {
    /// Logged as a warning; the game goes on.
    Warning,
    /// Logged as an error; the game goes on.
    Error,
    /// Logged as an error; the game ends.
    Critical,
}

impl GameError {
    /// A map that cannot be loaded leaves the game unplayable.
    pub fn severity(&self) -> (r: Severity)
        ensures
            r == Severity::Critical,
    {
        match self {
            GameError::MapDraftError(_) => Severity::Critical,
        }
    }
}

} // verus!
