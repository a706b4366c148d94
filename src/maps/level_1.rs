//! The first level after the tutorial: a walled hall.
use crate::map_builder::{
    grid_of_rows, lemma_rows_grid, placements, rows_same_width, CompiledMap, MapDraft, MapDraftError,
    TileType,
};
use vstd::prelude::*;

verus! {

/// Trigger payload of a level without triggers.
#[derive(Clone, Copy, Debug, PartialEq, Eq, Structural)]
pub struct NoTrigger;

/// Legend of the first level: `X` is a wall, `O` a rock, anything else empty.
pub open spec fn level1_legend(c: char) -> Option<TileType<NoTrigger>> {
    if c == 'X' {
        Some(TileType::Wall)
    } else if c == 'O' {
        Some(TileType::Rock)
    } else {
        None
    }
}

pub fn level1_tile_mapper(c: char) -> (r: Option<TileType<NoTrigger>>)
    ensures
        r == level1_legend(c),
{
    match c {
        'X' => Some(TileType::Wall),
        'O' => Some(TileType::Rock),
        _ => None,
    }
}

/// The text of the first level, top row first.
pub open spec fn level_1_layout() -> Seq<Seq<char>> {
    seq![
        "XXXXXXXXXXXXXXXXXXXXXXXXXXXX "@,
        "X                          X "@,
        "X                          X "@,
        "X                          X "@,
        "X   X                      X "@,
        "X   X                       X"@,
        "X   X                       X"@,
        "X   X                       X"@,
        "X   X                       X"@,
        "X   X                       X"@,
        "X   X                       X"@,
        "X   X                       X"@,
        "X   X                       X"@,
        "X   X                       X"@,
        "X   X                       X"@,
        "X   X                       X"@,
        "X   X                       X"@,
        "X   X                       X"@,
        "X   X                       X"@,
        "X   X                       X"@,
        "X   X                       X"@,
        "X   X                       X"@,
        "X   X                       X"@,
        "X   X                       X"@,
        "XXXXXXXXXXXXXXXXXXXXXXXXXXXXX"@,
    ]
}

/// Builds the first level, centered on cell (15, 12). Its text is well formed,
/// so this always succeeds.
pub fn build_level_1() -> (r: Result<CompiledMap<NoTrigger>, MapDraftError>)
    ensures
        r is Ok,
        r->Ok_0.tiles@ == placements(grid_of_rows(level_1_layout(), |c: char| level1_legend(c)), 29, (15, 12)),
        r->Ok_0.wf(),
{
    let map: [&str; 25] = [
        "XXXXXXXXXXXXXXXXXXXXXXXXXXXX ",
        "X                          X ",
        "X                          X ",
        "X                          X ",
        "X   X                      X ",
        "X   X                       X",
        "X   X                       X",
        "X   X                       X",
        "X   X                       X",
        "X   X                       X",
        "X   X                       X",
        "X   X                       X",
        "X   X                       X",
        "X   X                       X",
        "X   X                       X",
        "X   X                       X",
        "X   X                       X",
        "X   X                       X",
        "X   X                       X",
        "X   X                       X",
        "X   X                       X",
        "X   X                       X",
        "X   X                       X",
        "X   X                       X",
        "XXXXXXXXXXXXXXXXXXXXXXXXXXXXX",
    ];
    let rows = map.as_slice();
    proof {
        reveal_strlit("XXXXXXXXXXXXXXXXXXXXXXXXXXXX ");
        reveal_strlit("X                          X ");
        reveal_strlit("X   X                      X ");
        reveal_strlit("X   X                       X");
        reveal_strlit("XXXXXXXXXXXXXXXXXXXXXXXXXXXXX");
        assert(rows@.map_values(|s: &str| s@) == level_1_layout());
        assert(rows_same_width(rows@));
    }
    match MapDraft::from_str_array(rows, level1_tile_mapper) {
        Ok(draft) => {
            proof {
                lemma_rows_grid(&draft, rows@, level1_tile_mapper, |c: char| level1_legend(c));
            }
            Ok(draft.to_map((15, 12)))
        },
        Err(e) => Err(e),
    }
}

} // verus!
