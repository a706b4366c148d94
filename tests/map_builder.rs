use some_bevy_game::map_builder::{
    chars_of, CompiledMap, MapDraft, MapDraftError, Tile, TileInfo, TileType, ROCK_HEALTH,
};
use some_bevy_game::maps::level_1::{build_level_1, level1_tile_mapper, NoTrigger};
use some_bevy_game::maps::tutorial::{build_tutorial, tutorial_tile_mapper, TRIGGER_SIZE_PERCENT};
use some_bevy_game::ship::TutorialTrigger;

fn legend(c: char) -> Option<TileType<NoTrigger>> {
    level1_tile_mapper(c)
}

#[test]
fn chars_of_keeps_every_character() {
    assert_eq!(chars_of("aé b"), vec!['a', 'é', ' ', 'b']);
    assert_eq!(chars_of(""), Vec::<char>::new());
}

#[test]
fn rows_of_equal_width_parse() {
    let draft = MapDraft::from_str_array(&["XO ", "X  "], legend).unwrap();
    assert_eq!(draft.width, 3);
    assert_eq!(draft.height, 2);
    assert_eq!(draft.tiles.len(), 6);
}

#[test]
fn rows_are_read_bottom_to_top() {
    let draft = MapDraft::from_str_array(&["XO", "X "], legend).unwrap();
    assert_eq!(draft.get_tile(0, 0), Some(TileType::Wall));
    assert_eq!(draft.get_tile(1, 0), None);
    assert_eq!(draft.get_tile(0, 1), Some(TileType::Wall));
    assert_eq!(draft.get_tile(1, 1), Some(TileType::Rock));
}

#[test]
fn rows_of_different_width_fail() {
    let r = MapDraft::from_str_array(&["XX", "X", "XX"], legend);
    assert!(matches!(r, Err(MapDraftError::InconsistentWidth)));
    let r = MapDraft::from_str_array(&["X", "XX"], legend);
    assert!(matches!(r, Err(MapDraftError::InconsistentWidth)));
}

#[test]
fn no_rows_give_an_empty_grid() {
    let draft = MapDraft::from_str_array(&[], legend).unwrap();
    assert_eq!(draft.width, 0);
    assert_eq!(draft.height, 0);
    assert!(draft.tiles.is_empty());
}

#[test]
fn flat_string_of_right_length_parses() {
    let draft = MapDraft::from_str("XO X", 2, 2, legend).unwrap();
    assert_eq!(draft.get_tile(0, 1), Some(TileType::Wall));
    assert_eq!(draft.get_tile(1, 1), Some(TileType::Rock));
    assert_eq!(draft.get_tile(0, 0), None);
    assert_eq!(draft.get_tile(1, 0), Some(TileType::Wall));
}

#[test]
fn flat_string_of_wrong_length_fails() {
    assert!(matches!(MapDraft::from_str("XO X ", 2, 2, legend), Err(MapDraftError::StrLengthMismatch)));
    assert!(matches!(MapDraft::from_str("XO", 2, 2, legend), Err(MapDraftError::StrLengthMismatch)));
    assert!(MapDraft::from_str("", 0, 5, legend).is_ok());
}

#[test]
fn index_round_trip_on_every_cell() {
    let draft: MapDraft<NoTrigger> = MapDraft::new(3, 4);
    for y in 0..4u32 {
        for x in 0..3u32 {
            let i = draft.pos_to_index(x, y);
            assert_eq!(i, (y * 3 + x) as usize);
            assert_eq!(draft.index_to_pos(i), (x, y));
        }
    }
}

#[test]
fn set_tile_changes_one_cell() {
    let mut draft: MapDraft<NoTrigger> = MapDraft::new(2, 2);
    draft.set_tile(1, 0, TileType::Rock);
    assert_eq!(draft.tiles, vec![None, Some(TileType::Rock), None, None]);
}

#[test]
fn compiling_twice_gives_same_placements_and_new_ids() {
    let draft = MapDraft::from_str_array(&["XO", "X "], legend).unwrap();
    let a = draft.to_map((1, 0));
    let b = draft.to_map((1, 0));
    assert_eq!(a.tiles, b.tiles);
    assert_ne!(a.id, b.id);
}

#[test]
fn small_grid_compiles_to_expected_placements() {
    let draft = MapDraft::from_str_array(&["XO", "X "], legend).unwrap();
    let map = draft.to_map((0, 0));
    assert_eq!(
        map.tiles,
        vec![
            Tile { x: 0, y: 0, tile_type: TileType::Wall },
            Tile { x: 0, y: 1, tile_type: TileType::Wall },
            Tile { x: 1, y: 1, tile_type: TileType::Rock },
        ]
    );
    let spawns = map.spawn_tiles();
    let positions: Vec<(i64, i64)> = spawns.iter().map(|s| (s.x, s.y)).collect();
    assert_eq!(positions, vec![(0, 0), (0, 50), (50, 50)]);
    assert_eq!(spawns[0].info, TileInfo::StaticImage);
    assert_eq!(spawns[1].info, TileInfo::StaticImage);
    assert_eq!(spawns[2].info, TileInfo::HealthImage(ROCK_HEALTH));
    assert!(spawns.iter().all(|s| s.map_id == map.id));
}

#[test]
fn center_offset_shifts_placements() {
    let draft = MapDraft::from_str_array(&["X "], legend).unwrap();
    let map = draft.to_map((3, -2));
    assert_eq!(map.tiles, vec![Tile { x: -3, y: 2, tile_type: TileType::Wall }]);
    assert_eq!((map.spawn_tiles()[0].x, map.spawn_tiles()[0].y), (-150, 100));
}

#[test]
fn trigger_tiles_plan_sensors() {
    let tile = Tile { x: 2, y: -1, tile_type: TileType::SingleTrigger(TutorialTrigger::DeepSpace, 110) };
    let map: CompiledMap<TutorialTrigger> = CompiledMap::new();
    let plan = tile.spawn_tile(map.id);
    assert_eq!((plan.x, plan.y), (100, -50));
    assert_eq!(plan.info, TileInfo::SingleTrigger(TutorialTrigger::DeepSpace, 110));
    let tile = Tile { x: 0, y: 0, tile_type: TileType::Trigger(TutorialTrigger::TurnedRight, 100) };
    assert_eq!(tile.spawn_tile(map.id).info, TileInfo::Trigger(TutorialTrigger::TurnedRight, 100));
}

#[test]
fn level_1_builds() {
    let map = build_level_1().unwrap();
    let walls = map.tiles.iter().filter(|t| t.tile_type == TileType::Wall).count();
    assert_eq!(walls, 123);
    assert!(map.tiles.contains(&Tile { x: -15, y: -12, tile_type: TileType::Wall }));
    assert!(map.tiles.contains(&Tile { x: -15, y: 12, tile_type: TileType::Wall }));
}

#[test]
fn tutorial_builds_with_its_triggers() {
    let map = build_tutorial().unwrap();
    let triggers: Vec<Tile<TutorialTrigger>> = map
        .tiles
        .iter()
        .copied()
        .filter(|t| matches!(t.tile_type, TileType::SingleTrigger(..)))
        .collect();
    assert_eq!(
        triggers,
        vec![
            Tile { x: 26, y: 16, tile_type: TileType::SingleTrigger(TutorialTrigger::DeepSpace, TRIGGER_SIZE_PERCENT) },
            Tile { x: 0, y: 20, tile_type: TileType::SingleTrigger(TutorialTrigger::SimplyForward, TRIGGER_SIZE_PERCENT) },
            Tile { x: 23, y: 20, tile_type: TileType::SingleTrigger(TutorialTrigger::TurnedRight, TRIGGER_SIZE_PERCENT) },
        ]
    );
    let rocks = map.tiles.iter().filter(|t| t.tile_type == TileType::Rock).count();
    assert_eq!(rocks, 2);
}

#[test]
fn legends_map_characters() {
    assert_eq!(level1_tile_mapper('X'), Some(TileType::Wall));
    assert_eq!(level1_tile_mapper('O'), Some(TileType::Rock));
    assert_eq!(level1_tile_mapper('1'), None);
    assert_eq!(
        tutorial_tile_mapper('2'),
        Some(TileType::SingleTrigger(TutorialTrigger::TurnedRight, 110))
    );
    assert_eq!(tutorial_tile_mapper(' '), None);
}
