//! The tutorial level, with the triggers of its scripted sequence.
use crate::map_builder::{grid_of_str, lemma_str_grid, placements, CompiledMap, MapDraft, MapDraftError, TileType};
use crate::ship::TutorialTrigger;
use vstd::prelude::*;

verus! {

/// Size of the tutorial's trigger sensors, in percent of one cell.
pub const TRIGGER_SIZE_PERCENT: u32 = 110;

/// The tutorial's text, 29 characters wide and 25 high, top row first.
pub const TUTORIAL_MAP: &'static str = "XXXXXXXXXXXXXXXXXXXXXXXXXXXX \
    X                          X \
    X 1                      2 X \
    X   XXXXXXXXXXXXXXXXXXXXX  X \
    X   X                  XX  X \
    X   X                  X   XX\
    X   X                  X   O3\
    X   X                  X   O \
    X   X                  X   XX\
    X   X                  XXXXX \
    X   X                        \
    X   X                        \
    X   X                        \
    X   X                        \
    X   X                        \
    X   X                        \
    X   X                        \
    X   X                        \
    X   X                        \
    X   X                        \
    X   X                        \
    X   X                        \
    X   X                        \
    X   X                        \
    XXXXX                        ";

/// Legend of the tutorial: `X` is a wall, `O` a rock, and `1`, `2`, `3` are
/// the one-shot triggers of the scripted sequence; anything else is empty.
pub open spec fn tutorial_legend(c: char) -> Option<TileType<TutorialTrigger>> {
    if c == 'X' {
        Some(TileType::Wall)
    } else if c == 'O' {
        Some(TileType::Rock)
    } else if c == '1' {
        Some(TileType::SingleTrigger(TutorialTrigger::SimplyForward, TRIGGER_SIZE_PERCENT))
    } else if c == '2' {
        Some(TileType::SingleTrigger(TutorialTrigger::TurnedRight, TRIGGER_SIZE_PERCENT))
    } else if c == '3' {
        Some(TileType::SingleTrigger(TutorialTrigger::DeepSpace, TRIGGER_SIZE_PERCENT))
    } else {
        None
    }
}

pub fn tutorial_tile_mapper(c: char) -> (r: Option<TileType<TutorialTrigger>>)
    ensures
        r == tutorial_legend(c),
{
    match c {
        'X' => Some(TileType::Wall),
        'O' => Some(TileType::Rock),
        '1' => Some(TileType::SingleTrigger(TutorialTrigger::SimplyForward, TRIGGER_SIZE_PERCENT)),
        '2' => Some(TileType::SingleTrigger(TutorialTrigger::TurnedRight, TRIGGER_SIZE_PERCENT)),
        '3' => Some(TileType::SingleTrigger(TutorialTrigger::DeepSpace, TRIGGER_SIZE_PERCENT)),
        _ => None,
    }
}

/// Builds the tutorial, centered on cell (2, 2). Its text is well formed, so
/// this always succeeds.
pub fn build_tutorial() -> (r: Result<CompiledMap<TutorialTrigger>, MapDraftError>)
    ensures
        r is Ok,
        r->Ok_0.tiles@ == placements(
            grid_of_str(TUTORIAL_MAP@, 29, 25, |c: char| tutorial_legend(c)),
            29,
            (2, 2),
        ),
        r->Ok_0.wf(),
{
    proof {
        reveal_strlit("XXXXXXXXXXXXXXXXXXXXXXXXXXXX \
            X                          X \
            X 1                      2 X \
            X   XXXXXXXXXXXXXXXXXXXXX  X \
            X   X                  XX  X \
            X   X                  X   XX\
            X   X                  X   O3\
            X   X                  X   O \
            X   X                  X   XX\
            X   X                  XXXXX \
            X   X                        \
            X   X                        \
            X   X                        \
            X   X                        \
            X   X                        \
            X   X                        \
            X   X                        \
            X   X                        \
            X   X                        \
            X   X                        \
            X   X                        \
            X   X                        \
            X   X                        \
            X   X                        \
            XXXXX                        ");
    }
    match MapDraft::from_str(TUTORIAL_MAP, 29, 25, tutorial_tile_mapper) {
        Ok(draft) => {
            proof {
                lemma_str_grid(&draft, TUTORIAL_MAP@, tutorial_tile_mapper, |c: char| tutorial_legend(c));
            }
            Ok(draft.to_map((2, 2)))
        },
        Err(e) => Err(e),
    }
}

} // verus!
