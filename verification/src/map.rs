use rustc_hash::{FxHashMap, FxHashSet};

use vstd::prelude::*;

use crate::cells::{fx_get, fx_insert};
use crate::state::{dense_ids, tile_in, GameState};
use crate::text::{trim, trim_seq};
use crate::tiles::{tile_type_of_char, Tile, TileState, TileType};

verus! {

/// The grid of the current level: its size, and which tile and which
/// enemies stand in each cell (by their ids in the game state).
pub struct GameMap {
    pub w: usize,
    pub h: usize,
    /// Store only position to ids.
    /// Then can query enemy/tile in gamestate
    pub tiles: FxHashMap<(usize, usize), usize>,
    /// Multiple enemies can be on a single tile
    pub enemies: FxHashMap<(usize, usize), Vec<usize>>,
    /// Seen tiles
    pub visible: FxHashSet<(usize, usize)>,
}

impl Default for GameMap {
    fn default() -> (r: GameMap)
        ensures
            r.w == 0,
            r.h == 0,
            r.tiles@ == Map::<(usize, usize), usize>::empty(),
            r.enemies@ == Map::<(usize, usize), Vec<usize>>::empty(),
            r.visible@ == Set::<(usize, usize)>::empty(),
    {
        GameMap {
            w: 0,
            h: 0,
            tiles: FxHashMap::default(),
            enemies: FxHashMap::default(),
            visible: FxHashSet::default(),
        }
    }
}

impl GameMap {
    /// Reads a map from the lines of a map file. Each line, without leading
    /// and trailing white space, is a row; each character that names a tile
    /// type puts a tile of that type in its cell, registered in `state`
    /// under the next tile id. The map is as wide as the last row is long
    /// (in bytes) and as high as there are lines.
    pub fn new<E>(lines: &Vec<String>, state: &mut GameState<E>) -> (map: GameMap)
        ensures
            map.h == lines.len(),
            map.w == (if lines.len() == 0 {
                0
            } else {
                row_bytes(map_rows(lines@).last())
            }),
            (map.tiles@, final(state).id_tile_map@) == spawn_all(
                Map::empty(),
                old(state).id_tile_map@,
                map_tiles(map_rows(lines@)),
            ),
            map.enemies@ == Map::<(usize, usize), Vec<usize>>::empty(),
            map.visible@ == Set::<(usize, usize)>::empty(),
            final(state).map == old(state).map,
            final(state).id_enemy_map == old(state).id_enemy_map,
            // each cell holds the tile that the text puts there
            dense_ids(old(state).id_tile_map@) ==> {
                &&& dense_ids(final(state).id_tile_map@)
                &&& forall|c: (usize, usize)| #[trigger]
                    map.tiles@.contains_key(c) ==> map.tiles@[c] < final(state).id_tile_map@.len()
                &&& forall|x: usize, y: usize| #[trigger]
                    tile_in(map.tiles@, final(state).id_tile_map@, x, y) == text_tile(
                        map_rows(lines@),
                        x,
                        y,
                    )
            },
    {
        let ghost rows = map_rows(lines@);
        let ghost ids0 = state.id_tile_map@;
        let mut map = GameMap::default();
        let mut map_w: usize = 0;
        let mut map_h: usize = 0;
        let mut h: usize = 0;
        assert(rows.take(0) =~= Seq::<Seq<char>>::empty());
        while h < lines.len()
            invariant
                rows == map_rows(lines@),
                ids0 == old(state).id_tile_map@,
                h <= lines.len(),
                map_h == h,
                map_w == (if h == 0 {
                    0
                } else {
                    row_bytes(rows[h - 1])
                }),
                (map.tiles@, state.id_tile_map@) == spawn_all(
                    Map::empty(),
                    ids0,
                    map_tiles(rows.take(h as int)),
                ),
                map.enemies@ == Map::<(usize, usize), Vec<usize>>::empty(),
                map.visible@ == Set::<(usize, usize)>::empty(),
                state.map == old(state).map,
                state.id_enemy_map == old(state).id_enemy_map,
                dense_ids(ids0) ==> {
                    &&& dense_ids(state.id_tile_map@)
                    &&& forall|c: (usize, usize)| #[trigger]
                        map.tiles@.contains_key(c) ==> map.tiles@[c] < state.id_tile_map@.len()
                    &&& forall|x: usize, y: usize| #[trigger]
                        tile_in(map.tiles@, state.id_tile_map@, x, y) == read_tile(rows, h, 0, x, y)
                },
            decreases lines.len() - h,
        {
            let line = trim(lines[h].as_str());
            let w = line.as_bytes().len();
            let cs = crate::text::chars_of(line);
            let n = cs.len();
            let ghost row = rows[h as int];
            let ghost before = map_tiles(rows.take(h as int));
            assert(cs@ == row);
            assert(row.take(0) =~= Seq::<char>::empty());
            assert(before + row_tiles(row.take(0), h) =~= before);
            let mut x: usize = 0;
            while x < n
                invariant
                    rows == map_rows(lines@),
                    ids0 == old(state).id_tile_map@,
                    h < lines.len(),
                    row == rows[h as int],
                    cs@ == row,
                    n == cs.len(),
                    x <= n,
                    before == map_tiles(rows.take(h as int)),
                    (map.tiles@, state.id_tile_map@) == spawn_all(
                        Map::empty(),
                        ids0,
                        before + row_tiles(row.take(x as int), h),
                    ),
                    map.enemies@ == Map::<(usize, usize), Vec<usize>>::empty(),
                    map.visible@ == Set::<(usize, usize)>::empty(),
                    state.map == old(state).map,
                    state.id_enemy_map == old(state).id_enemy_map,
                    dense_ids(ids0) ==> {
                        &&& dense_ids(state.id_tile_map@)
                        &&& forall|c: (usize, usize)| #[trigger]
                            map.tiles@.contains_key(c) ==> map.tiles@[c]
                                < state.id_tile_map@.len()
                        &&& forall|xx: usize, yy: usize| #[trigger]
                            tile_in(map.tiles@, state.id_tile_map@, xx, yy) == read_tile(
                                rows,
                                h,
                                x,
                                xx,
                                yy,
                            )
                    },
                decreases n - x,
            {
                let c = cs[x];
                let ghost pre_tiles = map.tiles@;
                let ghost pre_ids = state.id_tile_map@;
                let ghost prefix = before + row_tiles(row.take(x as int), h);
                assert(row.take(x + 1).drop_last() =~= row.take(x as int));
                assert(row.take(x + 1).last() == c);
                match TileType::try_from(c) {
                    Ok(tile_typ) => {
                        let tile = Tile { x, y: h, state: TileState::Base, typ: tile_typ };
                        let eid = state.id_tile_map.len();
                        fx_insert(&mut map.tiles, (x, h), eid);
                        state.id_tile_map.insert(eid, tile);
                        assert(before + row_tiles(row.take(x + 1), h) =~= prefix.push(tile));
                        assert(prefix.push(tile).drop_last() =~= prefix);
                        proof {
                            if dense_ids(ids0) {
                                assert(!pre_ids.contains_key(eid));
                                assert forall|i: usize| #[trigger]
                                    state.id_tile_map@.contains_key(i) <==> i
                                        < state.id_tile_map@.len() by {}
                                assert forall|xx: usize, yy: usize| #[trigger]
                                    tile_in(map.tiles@, state.id_tile_map@, xx, yy) == read_tile(
                                        rows,
                                        h,
                                        (x + 1) as usize,
                                        xx,
                                        yy,
                                    ) by {
                                    assert(tile_in(pre_tiles, pre_ids, xx, yy) == read_tile(
                                        rows,
                                        h,
                                        x,
                                        xx,
                                        yy,
                                    ));
                                    if (xx, yy) != (x, h) && pre_tiles.contains_key((xx, yy)) {
                                        assert(pre_tiles[(xx, yy)] != eid);
                                    }
                                }
                            }
                        }
                    },
                    Err(_) => {
                        assert(before + row_tiles(row.take(x + 1), h) =~= prefix);
                        proof {
                            if dense_ids(ids0) {
                                assert forall|xx: usize, yy: usize| #[trigger]
                                    tile_in(map.tiles@, state.id_tile_map@, xx, yy) == read_tile(
                                        rows,
                                        h,
                                        (x + 1) as usize,
                                        xx,
                                        yy,
                                    ) by {
                                    assert(tile_in(pre_tiles, pre_ids, xx, yy) == read_tile(
                                        rows,
                                        h,
                                        x,
                                        xx,
                                        yy,
                                    ));
                                }
                            }
                        }
                    },
                }
                x = x + 1;
            }
            assert(row.take(n as int) =~= row);
            assert(rows.take(h + 1).drop_last() =~= rows.take(h as int));
            assert(rows.take(h + 1).last() == row);
            proof {
                if dense_ids(ids0) {
                    assert forall|xx: usize, yy: usize| #[trigger]
                        tile_in(map.tiles@, state.id_tile_map@, xx, yy) == read_tile(
                            rows,
                            (h + 1) as usize,
                            0,
                            xx,
                            yy,
                        ) by {
                        assert(tile_in(map.tiles@, state.id_tile_map@, xx, yy) == read_tile(
                            rows,
                            h,
                            n,
                            xx,
                            yy,
                        ));
                    }
                }
            }
            map_w = w;
            map_h = h + 1;
            h = h + 1;
        }
        assert(rows.take(lines.len() as int) =~= rows);
        proof {
            if dense_ids(ids0) {
                assert forall|xx: usize, yy: usize| #[trigger]
                    tile_in(map.tiles@, state.id_tile_map@, xx, yy) == text_tile(rows, xx, yy) by {
                    assert(tile_in(map.tiles@, state.id_tile_map@, xx, yy) == read_tile(
                        rows,
                        h,
                        0,
                        xx,
                        yy,
                    ));
                }
            }
        }
        map.w = map_w;
        map.h = map_h;
        map
    }

    /// The id of the tile in cell (x, y), if there is one.
    pub fn get_tile_id(&self, x: usize, y: usize) -> (r: Option<&usize>)
        ensures
            r == (if self.tiles@.contains_key((x, y)) {
                Some(&self.tiles@[(x, y)])
            } else {
                None
            }),
    {
        fx_get(&self.tiles, &(x, y))
    }

    /// Every cell of the grid, row by row, with the id of its tile if it has one.
    pub fn get_tile_ids(&self) -> (r: Vec<(usize, usize, Option<&usize>)>)
        requires
            self.w * self.h <= usize::MAX,
        ensures
            r.len() == self.w * self.h,
            forall|x: usize, y: usize|
                #![trigger cell_index(self.w, x, y)]
                x < self.w && y < self.h ==> r@[cell_index(self.w, x, y)] == (
                    x,
                    y,
                    if self.tiles@.contains_key((x, y)) {
                        Some(&self.tiles@[(x, y)])
                    } else {
                        None
                    },
                ),
    {
        let mut out: Vec<(usize, usize, Option<&usize>)> = Vec::new();
        let mut y: usize = 0;
        while y < self.h
            invariant
                y <= self.h,
                self.w * self.h <= usize::MAX,
                out.len() == y * self.w,
                forall|xx: usize, yy: usize|
                    #![trigger cell_index(self.w, xx, yy)]
                    xx < self.w && yy < y ==> out@[cell_index(self.w, xx, yy)] == (
                        xx,
                        yy,
                        if self.tiles@.contains_key((xx, yy)) {
                            Some(&self.tiles@[(xx, yy)])
                        } else {
                            None
                        },
                    ),
            decreases self.h - y,
        {
            let mut x: usize = 0;
            proof {
                lemma_row_fits(self.w, self.h, y);
            }
            while x < self.w
                invariant
                    y < self.h,
                    x <= self.w,
                    (y + 1) * self.w <= usize::MAX,
                    out.len() == y * self.w + x,
                    forall|xx: usize, yy: usize|
                        #![trigger cell_index(self.w, xx, yy)]
                        (xx < self.w && yy < y) || (xx < x && yy == y) ==> out@[cell_index(
                            self.w,
                            xx,
                            yy,
                        )] == (
                            xx,
                            yy,
                            if self.tiles@.contains_key((xx, yy)) {
                                Some(&self.tiles@[(xx, yy)])
                            } else {
                                None
                            },
                        ),
                decreases self.w - x,
            {
                proof {
                    assert forall|xx: usize, yy: usize| (xx < self.w && yy < y) || (xx < x && yy == y)
                        implies #[trigger] cell_index(self.w, xx, yy) < y * self.w + x by {
                        lemma_cell_index_bound(self.w, xx, yy, x, y);
                    }
                }
                let id = self.get_tile_id(x, y);
                out.push((x, y, id));
                x = x + 1;
            }
            proof {
                assert((y + 1) * self.w == y * self.w + self.w) by (nonlinear_arith);
            }
            y = y + 1;
        }
        proof {
            assert(self.h * self.w == self.w * self.h) by (nonlinear_arith);
        }
        out
    }
}

/// The rows of a map file: its lines without leading and trailing white space.
pub open spec fn map_rows(lines: Seq<String>) -> Seq<Seq<char>> {
    lines.map_values(|l: String| trim_seq(l@))
}

/// The tile that the map text puts in cell (x, y): the character at
/// position x of row y, if it names a tile type.
pub open spec fn text_tile(rows: Seq<Seq<char>>, x: usize, y: usize) -> Option<Tile> {
    if y < rows.len() && x < rows[y as int].len() {
        match tile_type_of_char(rows[y as int][x as int]) {
            Some(t) => Some(Tile { x, y, state: TileState::Base, typ: t }),
            None => None,
        }
    } else {
        None
    }
}

/// The tiles of one row, from left to right.
pub open spec fn row_tiles(row: Seq<char>, y: usize) -> Seq<Tile>
    decreases row.len(),
{
    if row.len() == 0 {
        Seq::empty()
    } else {
        row_tiles(row.drop_last(), y) + match tile_type_of_char(row.last()) {
            Some(t) => seq![Tile { x: (row.len() - 1) as usize, y, state: TileState::Base, typ: t }],
            None => Seq::empty(),
        }
    }
}

/// The tiles of a map text, row by row, each row from left to right.
pub open spec fn map_tiles(rows: Seq<Seq<char>>) -> Seq<Tile>
    decreases rows.len(),
{
    if rows.len() == 0 {
        Seq::empty()
    } else {
        map_tiles(rows.drop_last()) + row_tiles(rows.last(), (rows.len() - 1) as usize)
    }
}

/// Registering each of `ts` in turn: each gets the next id of `ids` and is
/// placed in its cell of `cells`.
pub open spec fn spawn_all(
    cells: Map<(usize, usize), usize>,
    ids: Map<usize, Tile>,
    ts: Seq<Tile>,
) -> (Map<(usize, usize), usize>, Map<usize, Tile>)
    decreases ts.len(),
{
    if ts.len() == 0 {
        (cells, ids)
    } else {
        let (c, i) = spawn_all(cells, ids, ts.drop_last());
        let t = ts.last();
        (c.insert((t.x, t.y), i.len() as usize), i.insert(i.len() as usize, t))
    }
}

/// The byte length of the UTF-8 encoding of a row.
pub open spec fn row_bytes(row: Seq<char>) -> nat {
    vstd::utf8::encode_utf8(row).len()
}

/// The tile that the map text puts in cell (x, y), counting only the cells
/// read so far: rows above `h`, and the first `xc` cells of row `h`.
pub open spec fn read_tile(rows: Seq<Seq<char>>, h: usize, xc: usize, x: usize, y: usize) -> Option<Tile> {
    if y < h || (y == h && x < xc) {
        text_tile(rows, x, y)
    } else {
        None
    }
}

/// The position of cell (x, y) in a row-by-row listing of a grid `w` cells wide.
pub open spec fn cell_index(w: usize, x: usize, y: usize) -> int {
    y * w + x
}

pub(crate) proof fn lemma_row_fits(w: usize, h: usize, y: usize)
    requires
        y < h,
        w * h <= usize::MAX,
    ensures
        (y + 1) * w <= usize::MAX,
{
    assert((y + 1) * w <= h * w) by (nonlinear_arith)
        requires
            y + 1 <= h,
    ;
}

pub(crate) proof fn lemma_cell_index_bound(w: usize, xx: usize, yy: usize, x: usize, y: usize)
    requires
        (xx < w && yy < y) || (xx < x && yy == y),
    ensures
        yy * w + xx < y * w + x,
{
    if yy < y {
        assert(yy * w + w <= y * w) by (nonlinear_arith)
            requires
                yy < y,
        ;
    }
}

} // verus!
