//! Textual maps: parsing them into grids of tiles, compiling a grid into the
//! placed tiles of one map instance, and planning the entity of each tile.
use vstd::arithmetic::div_mod::{lemma_fundamental_div_mod, lemma_fundamental_div_mod_converse};
use vstd::prelude::*;

verus! {

/// Side length of one map cell in world units.
pub const TILE_SIZE: i64 = 50;

/// What a map cell holds. `T` is the payload a trigger carries; the size of a
/// trigger's sensor is given in percent of one cell.
#[derive(Clone, Copy, Debug, PartialEq, Eq)]
pub enum TileType<T> {
    Wall,
    Rock,
    Trigger(T, u32),
    SingleTrigger(T, u32),
}

/// The characters of `s`, in order.
pub fn chars_of(s: &str) -> (r: Vec<char>)
    ensures
        r@ == s@,
{
    let mut r: Vec<char> = Vec::new();
    for c in it: s.chars()
        invariant
            r@ == it.seq().take(it.index() as int),
    {
        r.push(c);
    }
    r
}

/// Health a destructible rock starts with.
pub const ROCK_HEALTH: i64 = 10;

/// The identifier of a map instance, held as it is.
#[verifier::external_type_specification]
#[verifier::external_body]
pub struct ExUuid(uuid::Uuid);

/// Relies on uuid::Uuid::new_v4: a freshly drawn random identifier. Nothing is
/// promised of its value.
pub assume_specification[ uuid::Uuid::new_v4 ]() -> uuid::Uuid;

/// One placed tile, in cell coordinates relative to the map's center.
#[derive(Clone, Copy, Debug, PartialEq, Eq)]
pub struct Tile<T> {
    pub x: i64,
    pub y: i64,
    pub tile_type: TileType<T>,
}

/// What the entity spawned for a tile is made of.
#[derive(Clone, Copy, Debug, PartialEq, Eq)]
pub enum TileInfo<T> {
    /// A fixed box of one cell with the wall image, marked as a static wall.
    StaticImage,
    /// A fixed box of one cell with the rock image and a health range from 0
    /// up to the given maximum.
    HealthImage(i64),
    /// A sensor scaled by the given percentage that carries the payload and
    /// fires on every contact.
    Trigger(T, u32),
    /// Like `Trigger`, but consumed by its first contact.
    SingleTrigger(T, u32),
}

/// Everything needed to spawn the entity of one tile: its offset in world
/// units from the point the map is spawned at, the map it belongs to, and its
/// composition.
#[derive(Debug)]
pub struct TileSpawn<T> {
    pub x: i64,
    pub y: i64,
    pub map_id: uuid::Uuid,
    pub info: TileInfo<T>,
}

/// The composition of the entity spawned for a tile of type `t`.
pub open spec fn tile_info_of<T>(t: TileType<T>) -> TileInfo<T> {
    match t {
        TileType::Wall => TileInfo::StaticImage,
        TileType::Rock => TileInfo::HealthImage(ROCK_HEALTH),
        TileType::Trigger(p, m) => TileInfo::Trigger(p, m),
        TileType::SingleTrigger(p, m) => TileInfo::SingleTrigger(p, m),
    }
}

/// The spawn plan of `tile` in the map `id`.
pub open spec fn spawn_of<T>(tile: Tile<T>, id: uuid::Uuid) -> TileSpawn<T> {
    TileSpawn {
        x: (tile.x * TILE_SIZE) as i64,
        y: (tile.y * TILE_SIZE) as i64,
        map_id: id,
        info: tile_info_of(tile.tile_type),
    }
}

/// Coordinates a tile may have: a grid coordinate minus a center offset.
pub open spec fn tile_in_range<T>(tile: Tile<T>) -> bool {
    &&& -(i32::MAX as int) - 1 - u32::MAX <= tile.x <= u32::MAX + i32::MAX + 1
    &&& -(i32::MAX as int) - 1 - u32::MAX <= tile.y <= u32::MAX + i32::MAX + 1
}

impl<T: Copy> Tile<T> {
    /// Plans the entity of this tile for the map `id`.
    pub fn spawn_tile(&self, id: uuid::Uuid) -> (r: TileSpawn<T>)
        requires
            tile_in_range(*self),
        ensures
            r == spawn_of(*self, id),
    {
        let info = match self.tile_type {
            TileType::Wall => TileInfo::StaticImage,
            TileType::Rock => TileInfo::HealthImage(ROCK_HEALTH),
            TileType::Trigger(trigger, size_multiplier) => TileInfo::Trigger(trigger, size_multiplier),
            TileType::SingleTrigger(trigger, size_multiplier) => TileInfo::SingleTrigger(
                trigger,
                size_multiplier,
            ),
        };
        TileSpawn { x: self.x * TILE_SIZE, y: self.y * TILE_SIZE, map_id: id, info }
    }
}

/// The placements of the non-empty cells among `cells`, a row-major grid of
/// width `w`, in index order, shifted by `center`.
pub open spec fn placements<T>(cells: Seq<Option<TileType<T>>>, w: int, center: (i32, i32)) -> Seq<Tile<T>>
    decreases cells.len(),
{
    if cells.len() == 0 {
        Seq::empty()
    } else {
        let i = cells.len() - 1;
        let rest = placements(cells.drop_last(), w, center);
        match cells.last() {
            Some(t) => rest.push(
                Tile { x: (i % w - center.0) as i64, y: (i / w - center.1) as i64, tile_type: t },
            ),
            None => rest,
        }
    }
}

/// A compiled map: the placed tiles of one map instance and its identifier,
/// which every entity spawned from it carries.
pub struct CompiledMap<T> {
    pub tiles: Vec<Tile<T>>,
    pub id: uuid::Uuid,
}

impl<T> CompiledMap<T> {
    /// Every tile lies in the range that a compiled grid produces.
    pub open spec fn wf(&self) -> bool {
        forall|i: int| 0 <= i < self.tiles@.len() ==> tile_in_range(#[trigger] self.tiles@[i])
    }
}

impl<T: Copy> CompiledMap<T> {
    /// An empty map with a fresh identifier.
    pub fn new() -> (r: Self)
        ensures
            r.tiles@.len() == 0,
    {
        CompiledMap { tiles: Vec::new(), id: uuid::Uuid::new_v4() }
    }


    /// Plans the entities of all tiles, in order; each carries this map's id.
    pub fn spawn_tiles(&self) -> (r: Vec<TileSpawn<T>>)
        requires
            self.wf(),
        ensures
            r@ == self.tiles@.map_values(|t: Tile<T>| spawn_of(t, self.id)),
    {
        let mut r: Vec<TileSpawn<T>> = Vec::new();
        let mut i: usize = 0;
        while i < self.tiles.len()
            invariant
                self.wf(),
                i <= self.tiles@.len(),
                r@ == self.tiles@.take(i as int).map_values(|t: Tile<T>| spawn_of(t, self.id)),
            decreases self.tiles@.len() - i,
        {
            r.push(self.tiles[i].spawn_tile(self.id));
            proof {
                assert(self.tiles@.take(i + 1) == self.tiles@.take(i as int).push(self.tiles@[i as int]));
            }
            i = i + 1;
        }
        proof {
            assert(self.tiles@.take(i as int) == self.tiles@);
        }
        r
    }
}

/// Why a textual map could not be turned into a grid.
#[derive(Clone, Copy, Debug, PartialEq, Eq, Structural)]
pub enum MapDraftError {
    /// Not every row of a row-based map has the same number of characters.
    InconsistentWidth,
    /// A flat map string does not hold exactly `width * height` characters.
    StrLengthMismatch,
}

/// Flat index of cell `(x, y)` in a row-major grid of width `w`.
pub open spec fn grid_index(w: int, x: int, y: int) -> int {
    y * w + x
}

/// Flat index into the text of a `w` by `h` map of the character that describes
/// cell `(x, y)`: the text is written top row first, while `y` grows upward.
pub open spec fn text_index(w: int, h: int, x: int, y: int) -> int {
    grid_index(w, x, h - 1 - y)
}

/// Inside a `w` by `h` grid, the flat index of a cell determines the cell.
pub proof fn lemma_grid_index(w: int, h: int, x: int, y: int)
    requires
        0 <= x < w,
        0 <= y < h,
    ensures
        0 <= grid_index(w, x, y) < w * h,
        grid_index(w, x, y) / w == y,
        grid_index(w, x, y) % w == x,
{
    lemma_fundamental_div_mod_converse(y * w + x, w, y, x);
    assert(0 <= y * w + x < w * h) by (nonlinear_arith)
        requires
            0 <= x < w,
            0 <= y < h,
    {}
}

/// Every flat index inside a `w` by `h` grid names exactly one cell.
pub proof fn lemma_grid_pos(w: int, h: int, i: int)
    requires
        0 <= w,
        0 <= h,
        0 <= i < w * h,
    ensures
        w > 0,
        h > 0,
        0 <= i % w < w,
        0 <= i / w < h,
        grid_index(w, i % w, i / w) == i,
{
    assert(w > 0) by (nonlinear_arith)
        requires
            0 <= i < w * h,
            0 <= h,
    {}
    assert(h > 0) by (nonlinear_arith)
        requires
            0 <= i < w * h,
            0 <= w,
    {}
    lemma_fundamental_div_mod(i, w);
    let q = i / w;
    let r = i % w;
    assert(0 <= r < w);
    assert(0 <= q < h) by (nonlinear_arith)
        requires
            i == w * q + r,
            0 <= r < w,
            0 <= i < w * h,
    {}
    assert(w * q == q * w) by (nonlinear_arith);
}

/// Converting an in-bounds cell to its flat index (`pos_to_index`) and back
/// (`index_to_pos`) yields the cell again.
pub proof fn index_round_trip<T>(d: &MapDraft<T>, x: u32, y: u32)
    requires
        d.in_bounds(x as int, y as int),
    ensures
        grid_index(d.width as int, x as int, y as int) % d.width as int == x,
        grid_index(d.width as int, x as int, y as int) / d.width as int == y,
{
    lemma_grid_index(d.width as int, d.height as int, x as int, y as int);
}

/// Compiling the same grid twice around the same center yields the same
/// placements, in the same order; only the map ids are drawn anew.
pub proof fn to_map_repeatable<T>(d: &MapDraft<T>, center: (i32, i32), a: &CompiledMap<T>, b: &CompiledMap<T>)
    requires
        a.tiles@ == d.compiled(center),
        b.tiles@ == d.compiled(center),
    ensures
        a.tiles@ == b.tiles@,
{
}

/// The cells of a map written as `rows` (top row first) under a legend that
/// gives each character's content.
pub open spec fn grid_of_rows<T>(rows: Seq<Seq<char>>, legend: spec_fn(char) -> Option<TileType<T>>) -> Seq<
    Option<TileType<T>>,
> {
    let h = rows.len();
    let w = if h == 0 {
        0
    } else {
        rows[0].len() as int
    };
    Seq::new((w * h) as nat, |i: int| legend(rows[h - 1 - i / w][i % w]))
}

/// The cells of a `w` wide and `h` high map written as one string `text`,
/// top row first, under a legend that gives each character's content.
pub open spec fn grid_of_str<T>(text: Seq<char>, w: int, h: int, legend: spec_fn(char) -> Option<TileType<T>>) -> Seq<
    Option<TileType<T>>,
> {
    Seq::new((w * h) as nat, |i: int| legend(text[text_index(w, h, i % w, i / w)]))
}

/// A grid that `from_str_array` parsed from `rows`, with a mapper that answers
/// as `legend` does, holds exactly the cells that `grid_of_rows` describes.
pub proof fn lemma_rows_grid<T, F: Fn(char) -> Option<TileType<T>>>(
    d: &MapDraft<T>,
    rows: Seq<&str>,
    f: F,
    legend: spec_fn(char) -> Option<TileType<T>>,
)
    requires
        d.wf(),
        d.width == rows_width(rows),
        d.height == rows.len(),
        forall|x: int, y: int|
            d.in_bounds(x, y) ==> f.ensures((rows[d.height - 1 - y]@[x],), #[trigger] d.cell(x, y)),
        forall|c: char, t: Option<TileType<T>>| f.ensures((c,), t) ==> t == legend(c),
    ensures
        d.tiles@ == grid_of_rows(rows.map_values(|s: &str| s@), legend),
{
    let w = d.width as int;
    let h = d.height as int;
    let g = grid_of_rows(rows.map_values(|s: &str| s@), legend);
    assert forall|i: int| 0 <= i < d.tiles@.len() implies d.tiles@[i] == g[i] by {
        lemma_grid_pos(w, h, i);
        assert(d.cell(i % w, i / w) == d.tiles@[i]);
    }
    assert(d.tiles@ =~= g);
}

/// A grid that `from_str` parsed from `text`, with a mapper that answers as
/// `legend` does, holds exactly the cells that `grid_of_str` describes.
pub proof fn lemma_str_grid<T, F: Fn(char) -> Option<TileType<T>>>(
    d: &MapDraft<T>,
    text: Seq<char>,
    f: F,
    legend: spec_fn(char) -> Option<TileType<T>>,
)
    requires
        d.wf(),
        forall|x: int, y: int|
            d.in_bounds(x, y) ==> f.ensures(
                (text[text_index(d.width as int, d.height as int, x, y)],),
                #[trigger] d.cell(x, y),
            ),
        forall|c: char, t: Option<TileType<T>>| f.ensures((c,), t) ==> t == legend(c),
    ensures
        d.tiles@ == grid_of_str(text, d.width as int, d.height as int, legend),
{
    let w = d.width as int;
    let h = d.height as int;
    let g = grid_of_str(text, w, h, legend);
    assert forall|i: int| 0 <= i < d.tiles@.len() implies d.tiles@[i] == g[i] by {
        lemma_grid_pos(w, h, i);
        assert(d.cell(i % w, i / w) == d.tiles@[i]);
    }
    assert(d.tiles@ =~= g);
}

/// A rectangular grid of optional tiles, stored row by row with `y` growing
/// upward; it is what a textual map is parsed into.
pub struct MapDraft<T> {
    pub width: u32,
    pub height: u32,
    pub tiles: Vec<Option<TileType<T>>>,
}

impl<T> MapDraft<T> {
    /// The grid holds exactly one entry per cell.
    pub open spec fn wf(&self) -> bool {
        &&& self.tiles@.len() == self.width as int * self.height as int
        &&& self.tiles@.len() <= usize::MAX
    }

    pub open spec fn in_bounds(&self, x: int, y: int) -> bool {
        0 <= x < self.width && 0 <= y < self.height
    }

    /// The content of cell `(x, y)`.
    pub open spec fn cell(&self, x: int, y: int) -> Option<TileType<T>> {
        self.tiles@[grid_index(self.width as int, x, y)]
    }

    /// The placements that compiling this grid around `center` yields.
    pub open spec fn compiled(&self, center: (i32, i32)) -> Seq<Tile<T>> {
        placements(self.tiles@, self.width as int, center)
    }
}

impl<T: Copy> MapDraft<T> {

    /// Compiles the grid: one tile for each non-empty cell, in index order, at
    /// its coordinate minus `center`, under a freshly drawn map id.
    pub fn to_map(&self, center: (i32, i32)) -> (r: CompiledMap<T>)
        requires
            self.wf(),
        ensures
            r.tiles@ == self.compiled(center),
            r.wf(),
    {
        let mut map: CompiledMap<T> = CompiledMap::new();
        let mut index: usize = 0;
        while index < self.tiles.len()
            invariant
                self.wf(),
                index <= self.tiles@.len(),
                map.tiles@ == placements(self.tiles@.take(index as int), self.width as int, center),
                map.wf(),
            decreases self.tiles@.len() - index,
        {
            proof {
                assert(self.tiles@.take(index + 1).drop_last() == self.tiles@.take(index as int));
            }
            if let Some(tile) = self.tiles[index] {
                let (x, y) = self.index_to_pos(index);
                map.tiles.push(Tile { x: x as i64 - center.0 as i64, y: y as i64 - center.1 as i64, tile_type: tile });
            }
            index = index + 1;
        }
        proof {
            assert(self.tiles@.take(index as int) == self.tiles@);
        }
        map
    }


    /// An empty grid of the given size.
    pub fn new(width: u32, height: u32) -> (r: Self)
        requires
            width as int * height as int <= usize::MAX,
        ensures
            r.wf(),
            r.width == width,
            r.height == height,
            forall|i: int| 0 <= i < r.tiles@.len() ==> r.tiles@[i] is None,
    {
        let n: usize = (width as usize) * (height as usize);
        let mut tiles: Vec<Option<TileType<T>>> = Vec::new();
        while tiles.len() < n
            invariant
                tiles@.len() <= n,
                forall|i: int| 0 <= i < tiles@.len() ==> tiles@[i] is None,
            decreases n - tiles@.len(),
        {
            tiles.push(None);
        }
        MapDraft { width, height, tiles }
    }

    /// Flat index of cell `(x, y)`.
    pub fn pos_to_index(&self, x: u32, y: u32) -> (r: usize)
        requires
            self.wf(),
            self.in_bounds(x as int, y as int),
        ensures
            r == grid_index(self.width as int, x as int, y as int),
            r < self.tiles@.len(),
    {
        proof {
            lemma_grid_index(self.width as int, self.height as int, x as int, y as int);
            assert(y as int * self.width as int <= grid_index(self.width as int, x as int, y as int));
        }
        (y as usize) * (self.width as usize) + (x as usize)
    }

    /// Cell named by a flat index.
    pub fn index_to_pos(&self, index: usize) -> (r: (u32, u32))
        requires
            self.wf(),
            index < self.tiles@.len(),
        ensures
            r.0 == index as int % self.width as int,
            r.1 == index as int / self.width as int,
            self.in_bounds(r.0 as int, r.1 as int),
            grid_index(self.width as int, r.0 as int, r.1 as int) == index,
    {
        proof {
            lemma_grid_pos(self.width as int, self.height as int, index as int);
        }
        let w = self.width as usize;
        ((index % w) as u32, (index / w) as u32)
    }

    /// Content of cell `(x, y)`.
    pub fn get_tile(&self, x: u32, y: u32) -> (r: Option<TileType<T>>)
        requires
            self.wf(),
            self.in_bounds(x as int, y as int),
        ensures
            r == self.cell(x as int, y as int),
    {
        let index = self.pos_to_index(x, y);
        self.tiles[index]
    }

    /// Puts `tile_type` into cell `(x, y)`; every other cell keeps its content.
    pub fn set_tile(&mut self, x: u32, y: u32, tile_type: TileType<T>)
        requires
            old(self).wf(),
            old(self).in_bounds(x as int, y as int),
        ensures
            final(self).wf(),
            final(self).width == old(self).width,
            final(self).height == old(self).height,
            final(self).tiles@ == old(self).tiles@.update(
                grid_index(old(self).width as int, x as int, y as int),
                Some(tile_type),
            ),
    {
        let index = self.pos_to_index(x, y);
        self.tiles.set(index, Some(tile_type));
    }
}

/// Every row has as many characters as the first one.
pub open spec fn rows_same_width(rows: Seq<&str>) -> bool {
    forall|k: int| 0 <= k < rows.len() ==> (#[trigger] rows[k])@.len() == rows[0]@.len()
}

/// Width of a map written as rows: the length of its first row, 0 without rows.
pub open spec fn rows_width(rows: Seq<&str>) -> int {
    if rows.len() == 0 {
        0
    } else {
        rows[0]@.len() as int
    }
}

impl<T: Copy> MapDraft<T> {
    /// Parses a map written as rows of equal length, top row first: the last
    /// row becomes `y == 0`, and `tile_mapper` says what each character holds.
    pub fn from_str_array<F: Fn(char) -> Option<TileType<T>>>(
        array: &[&str],
        tile_mapper: F,
    ) -> (r: Result<MapDraft<T>, MapDraftError>)
        requires
            forall|c: char| tile_mapper.requires((c,)),
            array@.len() <= u32::MAX,
            rows_width(array@) <= u32::MAX,
            array@.len() * rows_width(array@) <= usize::MAX,
        ensures
            r is Ok <==> rows_same_width(array@),
            r is Err ==> r->Err_0 == MapDraftError::InconsistentWidth,
            r is Ok ==> ({
                let d = r->Ok_0;
                &&& d.wf()
                &&& d.width == rows_width(array@)
                &&& d.height == array@.len()
                &&& forall|x: int, y: int|
                    d.in_bounds(x, y) ==> tile_mapper.ensures(
                        (array@[d.height - 1 - y]@[x],),
                        #[trigger] d.cell(x, y),
                    )
            }),
    {
        let n_rows = array.len();
        if n_rows == 0 {
            return Ok(MapDraft::new(0, 0));
        }
        let first = chars_of(array[0]);
        let n_cols = first.len();
        let mut k: usize = 0;
        while k < n_rows
            invariant
                n_rows == array@.len(),
                n_cols == array@[0]@.len(),
                k <= n_rows,
                forall|j: int| 0 <= j < k ==> (#[trigger] array@[j])@.len() == n_cols,
            decreases n_rows - k,
        {
            let row = chars_of(array[k]);
            if row.len() != n_cols {
                return Err(MapDraftError::InconsistentWidth);
            }
            k = k + 1;
        }
        let width = n_cols as u32;
        let height = n_rows as u32;
        assert(width as int * height as int == array@.len() * rows_width(array@)) by (nonlinear_arith)
            requires
                width as int == rows_width(array@),
                height as int == array@.len(),
        {}
        let ghost w = width as int;
        let ghost h = height as int;
        let mut draft: MapDraft<T> = MapDraft::new(width, height);
        proof {
            assert forall|x: int, y: int| draft.in_bounds(x, y) implies #[trigger] draft.cell(x, y) is None by {
                lemma_grid_index(w, h, x, y);
            }
        }
        let mut y: u32 = 0;
        while y < height
            invariant
                w == width as int,
                h == height as int,
                h == array@.len(),
                n_rows == array@.len(),
                rows_same_width(array@),
                w == array@[0]@.len(),
                draft.wf(),
                draft.width == width,
                draft.height == height,
                y <= height,
                forall|c: char| tile_mapper.requires((c,)),
                forall|x2: int, y2: int|
                    draft.in_bounds(x2, y2) ==> if y2 < y {
                        tile_mapper.ensures((array@[h - 1 - y2]@[x2],), #[trigger] draft.cell(x2, y2))
                    } else {
                        draft.cell(x2, y2) is None
                    },
            decreases height - y,
        {
            let row = chars_of(array[n_rows - 1 - (y as usize)]);
            assert(row@.len() == w);
            let mut x: u32 = 0;
            while x < width
                invariant
                    w == width as int,
                    h == height as int,
                    h == array@.len(),
                    0 <= y < height,
                    row@ == array@[h - 1 - y]@,
                    row@.len() == w,
                    draft.wf(),
                    draft.width == width,
                    draft.height == height,
                    x <= width,
                    forall|c: char| tile_mapper.requires((c,)),
                    forall|x2: int, y2: int|
                        draft.in_bounds(x2, y2) ==> if y2 < y || (y2 == y && x2 < x) {
                            tile_mapper.ensures((array@[h - 1 - y2]@[x2],), #[trigger] draft.cell(x2, y2))
                        } else {
                            draft.cell(x2, y2) is None
                        },
                decreases width - x,
            {
                let ghost before = draft;
                let t = tile_mapper(row[x as usize]);
                if let Some(tile) = t {
                    draft.set_tile(x, y, tile);
                }
                proof {
                    lemma_grid_index(w, h, x as int, y as int);
                    assert forall|x2: int, y2: int| draft.in_bounds(x2, y2) implies if y2 < y || (y2 == y && x2 < x + 1) {
                        tile_mapper.ensures((array@[h - 1 - y2]@[x2],), #[trigger] draft.cell(x2, y2))
                    } else {
                        draft.cell(x2, y2) is None
                    } by {
                        lemma_grid_index(w, h, x2, y2);
                        if x2 == x && y2 == y {
                            assert(before.cell(x2, y2) is None);
                            assert(draft.cell(x2, y2) == t);
                        } else {
                            assert(draft.cell(x2, y2) == before.cell(x2, y2));
                        }
                    }
                }
                x = x + 1;
            }
            y = y + 1;
        }
        Ok(draft)
    }

    /// Parses a map written as one string of `width * height` characters, top
    /// row first. The character at position `i` describes cell
    /// `(i % width, height - 1 - i / width)`; `tile_mapper` says what it holds.
    pub fn from_str<F: Fn(char) -> Option<TileType<T>>>(
        map_str: &str,
        width: u32,
        height: u32,
        tile_mapper: F,
    ) -> (r: Result<MapDraft<T>, MapDraftError>)
        requires
            forall|c: char| tile_mapper.requires((c,)),
        ensures
            r is Ok <==> map_str@.len() == width as int * height as int,
            r is Err ==> r->Err_0 == MapDraftError::StrLengthMismatch,
            r is Ok ==> ({
                let d = r->Ok_0;
                &&& d.wf()
                &&& d.width == width
                &&& d.height == height
                &&& forall|x: int, y: int|
                    d.in_bounds(x, y) ==> tile_mapper.ensures(
                        (map_str@[text_index(width as int, height as int, x, y)],),
                        #[trigger] d.cell(x, y),
                    )
            }),
    {
        let chars = chars_of(map_str);
        let n = chars.len();
        proof {
            assert(width as int * height as int <= u64::MAX) by (nonlinear_arith)
                requires
                    0 <= width <= u32::MAX,
                    0 <= height <= u32::MAX,
            {}
        }
        if n as u64 != (width as u64) * (height as u64) {
            return Err(MapDraftError::StrLengthMismatch);
        }
        let ghost w = width as int;
        let ghost h = height as int;
        let mut draft: MapDraft<T> = MapDraft::new(width, height);
        proof {
            assert forall|x: int, y: int| draft.in_bounds(x, y) implies #[trigger] draft.cell(x, y) is None by {
                lemma_grid_index(w, h, x, y);
            }
        }
        let mut i: usize = 0;
        while i < n
            invariant
                w == width as int,
                h == height as int,
                draft.wf(),
                draft.width == width,
                draft.height == height,
                chars@ == map_str@,
                n == chars@.len(),
                n == w * h,
                i <= n,
                forall|c: char| tile_mapper.requires((c,)),
                forall|x: int, y: int|
                    draft.in_bounds(x, y) ==> if text_index(w, h, x, y) < i {
                        tile_mapper.ensures((chars@[text_index(w, h, x, y)],), #[trigger] draft.cell(x, y))
                    } else {
                        draft.cell(x, y) is None
                    },
            decreases n - i,
        {
            proof {
                lemma_grid_pos(w, h, i as int);
            }
            let c = chars[i];
            let x = (i % (width as usize)) as u32;
            let y = height - 1 - ((i / (width as usize)) as u32);
            let ghost before = draft;
            let t = tile_mapper(c);
            if let Some(tile) = t {
                draft.set_tile(x, y, tile);
            }
            proof {
                lemma_grid_index(w, h, x as int, y as int);
                assert forall|x2: int, y2: int| draft.in_bounds(x2, y2) implies if text_index(w, h, x2, y2) < i + 1 {
                    tile_mapper.ensures((chars@[text_index(w, h, x2, y2)],), #[trigger] draft.cell(x2, y2))
                } else {
                    draft.cell(x2, y2) is None
                } by {
                    lemma_grid_index(w, h, x2, y2);
                    lemma_grid_index(w, h, x2, h - 1 - y2);
                    if x2 == x && y2 == y {
                        assert(text_index(w, h, x2, y2) == i);
                        assert(before.cell(x2, y2) is None);
                        assert(draft.cell(x2, y2) == t);
                    } else {
                        assert(draft.cell(x2, y2) == before.cell(x2, y2));
                        assert(text_index(w, h, x2, y2) != i);
                    }
                }
            }
            i = i + 1;
        }
        proof {
            assert forall|x: int, y: int| draft.in_bounds(x, y) implies tile_mapper.ensures(
                (map_str@[text_index(w, h, x, y)],),
                #[trigger] draft.cell(x, y),
            ) by {
                lemma_grid_index(w, h, x, h - 1 - y);
            }
        }
        Ok(draft)
    }
}

} // verus!
