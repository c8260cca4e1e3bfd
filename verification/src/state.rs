use std::collections::BTreeMap;

use vstd::prelude::*;

use crate::cells::{fx_insert, fx_remove};
use crate::map::{
    cell_index, lemma_cell_index_bound, lemma_row_fits, map_rows, map_tiles, row_bytes, spawn_all,
    text_tile, GameMap,
};
use crate::tiles::Tile;

verus! {

/// The entities of the current level: the grid map, and the tiles and
/// enemies it refers to by id. `E` is what the game keeps of an enemy.
pub struct GameState<E> {
    /// Current map
    pub map: GameMap,
    /// Tiles
    pub id_tile_map: BTreeMap<usize, Tile>,
    /// Enemies
    pub id_enemy_map: BTreeMap<usize, E>,
}

/// The tile that cell (x, y) names through `cells`, looked up in `ids`.
pub open spec fn tile_in(
    cells: Map<(usize, usize), usize>,
    ids: Map<usize, Tile>,
    x: usize,
    y: usize,
) -> Option<Tile> {
    if cells.contains_key((x, y)) && ids.contains_key(cells[(x, y)]) {
        Some(ids[cells[(x, y)]])
    } else {
        None
    }
}

/// The overview rectangles of the first `k` cells' tiles (cells counted
/// row by row in a grid `w` wide, each shown as a `rw` by `rh` rectangle).
pub open spec fn tile_rects(
    cells: Map<(usize, usize), usize>,
    ids: Map<usize, Tile>,
    w: int,
    rw: int,
    rh: int,
    k: nat,
) -> Seq<(usize, usize, usize, usize, Tile)>
    decreases k,
{
    if k == 0 {
        Seq::empty()
    } else {
        let i = k - 1;
        let x = i % w;
        let y = i / w;
        tile_rects(cells, ids, w, rw, rh, (k - 1) as nat) + match tile_in(
            cells,
            ids,
            x as usize,
            y as usize,
        ) {
            Some(t) => seq![((x * rw) as usize, (y * rh) as usize, rw as usize, rh as usize, t)],
            None => Seq::empty(),
        }
    }
}

/// The enemy ids noted in each cell, as sequences.
pub open spec fn enemy_lists(m: Map<(usize, usize), Vec<usize>>) -> Map<(usize, usize), Seq<usize>> {
    m.map_values(|v: Vec<usize>| v@)
}

/// Ids `0..n` in use, and nothing else: the keys of a registry built by
/// giving each new entry the next id.
pub open spec fn dense_ids<V>(ids: Map<usize, V>) -> bool {
    forall|i: usize| #[trigger] ids.contains_key(i) <==> i < ids.len()
}

impl<E> Default for GameState<E> {
    fn default() -> (r: GameState<E>)
        ensures
            r.map.w == 0,
            r.map.h == 0,
            r.map.tiles@ == Map::<(usize, usize), usize>::empty(),
            r.map.enemies@ == Map::<(usize, usize), Vec<usize>>::empty(),
            r.map.visible@ == Set::<(usize, usize)>::empty(),
            r.id_tile_map@ == Map::<usize, Tile>::empty(),
            r.id_enemy_map@ == Map::<usize, E>::empty(),
    {
        GameState { map: GameMap::default(), id_tile_map: BTreeMap::new(), id_enemy_map: BTreeMap::new() }
    }
}

impl<E> GameState<E> {
    /// A game state holding the level that the lines of a map file describe,
    /// with its tiles registered and no enemies yet.
    pub fn new(map_lines: &Vec<String>) -> (r: GameState<E>)
        ensures
            r.wf(),
            r.map.h == map_lines.len(),
            r.map.w == (if map_lines.len() == 0 {
                0
            } else {
                row_bytes(map_rows(map_lines@).last())
            }),
            (r.map.tiles@, r.id_tile_map@) == spawn_all(
                Map::empty(),
                Map::empty(),
                map_tiles(map_rows(map_lines@)),
            ),
            r.id_enemy_map@ == Map::<usize, E>::empty(),
            r.map.enemies@ == Map::<(usize, usize), Vec<usize>>::empty(),
            r.map.visible@ == Set::<(usize, usize)>::empty(),
            // each cell holds the tile that the map text puts there
            forall|x: usize, y: usize| #[trigger]
                r.tile_at(x, y) == text_tile(map_rows(map_lines@), x, y),
    {
        let mut game_state: GameState<E> = GameState::default();
        assert(dense_ids(game_state.id_tile_map@));
        let map = GameMap::new(map_lines, &mut game_state);
        game_state.map = map;
        game_state
    }

    /// The tile in cell (x, y), if any.
    pub open spec fn tile_at(&self, x: usize, y: usize) -> Option<Tile> {
        tile_in(self.map.tiles@, self.id_tile_map@, x, y)
    }

    /// The map refers only to tile ids below the number of registered tiles.
    pub open spec fn tile_refs_below_count(&self) -> bool {
        forall|c: (usize, usize)| #[trigger]
            self.map.tiles@.contains_key(c) ==> self.map.tiles@[c] < self.id_tile_map@.len()
    }

    /// The registry is consistent: tile and enemy ids are `0..n`, and the
    /// map only refers to ids that are in use.
    pub open spec fn wf(&self) -> bool {
        &&& dense_ids(self.id_tile_map@)
        &&& dense_ids(self.id_enemy_map@)
        &&& self.tile_refs_below_count()
        &&& forall|c: (usize, usize), k: int| #[trigger]
            self.map.enemies@.contains_key(c) && 0 <= k < self.map.enemies@[c].len()
                ==> #[trigger] self.map.enemies@[c]@[k] < self.id_enemy_map@.len()
    }

    /// The tile in cell (x, y), if any.
    pub fn get_tile(&self, x: usize, y: usize) -> (r: Option<&Tile>)
        ensures
            r == (match self.tile_at(x, y) {
                Some(t) => Some(&t),
                None => None,
            }),
    {
        match self.map.get_tile_id(x, y) {
            Some(id) => self.id_tile_map.get(id),
            None => None,
        }
    }

    /// Every cell of the grid, row by row, with its tile if it has one.
    pub fn get_tiles(&self) -> (r: Vec<(usize, usize, Option<&Tile>)>)
        requires
            self.map.w * self.map.h <= usize::MAX,
        ensures
            r.len() == self.map.w * self.map.h,
            forall|x: usize, y: usize|
                #![trigger cell_index(self.map.w, x, y)]
                x < self.map.w && y < self.map.h ==> r@[cell_index(self.map.w, x, y)] == (
                    x,
                    y,
                    match self.tile_at(x, y) {
                        Some(t) => Some(&t),
                        None => None,
                    },
                ),
    {
        let w = self.map.w;
        let h = self.map.h;
        let mut out: Vec<(usize, usize, Option<&Tile>)> = Vec::new();
        let mut y: usize = 0;
        while y < h
            invariant
                w == self.map.w,
                h == self.map.h,
                y <= h,
                w * h <= usize::MAX,
                out.len() == y * w,
                forall|xx: usize, yy: usize|
                    #![trigger cell_index(w, xx, yy)]
                    xx < w && yy < y ==> out@[cell_index(w, xx, yy)] == (
                        xx,
                        yy,
                        match self.tile_at(xx, yy) {
                            Some(t) => Some(&t),
                            None => None,
                        },
                    ),
            decreases h - y,
        {
            let mut x: usize = 0;
            proof {
                lemma_row_fits(w, h, y);
            }
            while x < w
                invariant
                    w == self.map.w,
                    y < h,
                    x <= w,
                    (y + 1) * w <= usize::MAX,
                    out.len() == y * w + x,
                    forall|xx: usize, yy: usize|
                        #![trigger cell_index(w, xx, yy)]
                        (xx < w && yy < y) || (xx < x && yy == y) ==> out@[cell_index(
                            w,
                            xx,
                            yy,
                        )] == (
                            xx,
                            yy,
                            match self.tile_at(xx, yy) {
                                Some(t) => Some(&t),
                                None => None,
                            },
                        ),
                decreases w - x,
            {
                proof {
                    assert forall|xx: usize, yy: usize| (xx < w && yy < y) || (xx < x && yy == y)
                        implies #[trigger] cell_index(w, xx, yy) < y * w + x by {
                        lemma_cell_index_bound(w, xx, yy, x, y);
                    }
                }
                let t = self.get_tile(x, y);
                out.push((x, y, t));
                x = x + 1;
            }
            proof {
                assert((y + 1) * w == y * w + w) by (nonlinear_arith);
            }
            y = y + 1;
        }
        proof {
            assert(h * w == w * h) by (nonlinear_arith);
        }
        out
    }

    /// The tiles of the grid, row by row, each with the rectangle that shows
    /// it on an overview image of `area_w` by `area_h` pixels: the image is
    /// cut into equal cells, `area_w / w` wide and `area_h / h` high.
    pub fn map_tile_rects(&self, area_w: usize, area_h: usize) -> (r: Vec<
        (usize, usize, usize, usize, Tile),
    >)
        requires
            self.map.w > 0,
            self.map.h > 0,
            self.map.w * self.map.h <= usize::MAX,
        ensures
            r@ == tile_rects(
                self.map.tiles@,
                self.id_tile_map@,
                self.map.w as int,
                area_w as int / self.map.w as int,
                area_h as int / self.map.h as int,
                (self.map.w * self.map.h) as nat,
            ),
            forall|k: int|
                0 <= k < r.len() ==> #[trigger] r@[k].0 + r@[k].2 <= area_w && r@[k].1 + r@[k].3
                    <= area_h,
    {
        let w = self.map.w;
        let h = self.map.h;
        let rect_w = area_w / w;
        let rect_h = area_h / h;
        let ghost cells = self.map.tiles@;
        let ghost ids = self.id_tile_map@;
        let mut out: Vec<(usize, usize, usize, usize, Tile)> = Vec::new();
        let mut y: usize = 0;
        while y < h
            invariant
                w == self.map.w,
                h == self.map.h,
                cells == self.map.tiles@,
                ids == self.id_tile_map@,
                w > 0,
                rect_w == area_w / w,
                rect_h == area_h / h,
                y <= h,
                w * h <= usize::MAX,
                out@ == tile_rects(cells, ids, w as int, rect_w as int, rect_h as int, (y * w) as nat),
                forall|k: int|
                    0 <= k < out.len() ==> #[trigger] out@[k].0 + out@[k].2 <= area_w && out@[k].1
                        + out@[k].3 <= area_h,
            decreases h - y,
        {
            let mut x: usize = 0;
            proof {
                lemma_row_fits(w, h, y);
                assert(y * rect_h + rect_h <= area_h) by (nonlinear_arith)
                    requires
                        y < h,
                        rect_h == area_h / h,
                        h > 0,
                ;
            }
            let ry = y * rect_h;
            while x < w
                invariant
                    w == self.map.w,
                    cells == self.map.tiles@,
                    ids == self.id_tile_map@,
                    w > 0,
                    rect_w == area_w / w,
                    y < h,
                    x <= w,
                    ry == y * rect_h,
                    ry + rect_h <= area_h,
                    (y + 1) * w <= usize::MAX,
                    out@ == tile_rects(
                        cells,
                        ids,
                        w as int,
                        rect_w as int,
                        rect_h as int,
                        (y * w + x) as nat,
                    ),
                    forall|k: int|
                        0 <= k < out.len() ==> #[trigger] out@[k].0 + out@[k].2 <= area_w
                            && out@[k].1 + out@[k].3 <= area_h,
                decreases w - x,
            {
                let ghost i: int = y * w + x;
                proof {
                    assert(i % w as int == x && i / w as int == y) by {
                        vstd::arithmetic::div_mod::lemma_fundamental_div_mod_converse(
                            i,
                            w as int,
                            y as int,
                            x as int,
                        );
                    }
                    assert(x * rect_w + rect_w <= area_w) by (nonlinear_arith)
                        requires
                            x < w,
                            rect_w == area_w / w,
                            w > 0,
                    ;
                }
                if let Some(tile) = self.get_tile(x, y) {
                    let ghost before = out@;
                    out.push((x * rect_w, ry, rect_w, rect_h, *tile));
                    assert forall|k: int| 0 <= k < out.len() implies #[trigger] out@[k].0
                        + out@[k].2 <= area_w && out@[k].1 + out@[k].3 <= area_h by {
                        if k < before.len() {
                            assert(out@[k] == before[k]);
                        }
                    }
                }
                x = x + 1;
            }
            proof {
                assert(y * w + w == (y + 1) * w) by (nonlinear_arith);
            }
            y = y + 1;
        }
        proof {
            assert(h * w == w * h) by (nonlinear_arith);
        }
        out
    }

    /// Registers a tile under the next tile id and places it in its cell.
    pub fn spawn_tile(&mut self, tile: Tile)
        ensures
            final(self).id_tile_map@ == old(self).id_tile_map@.insert(
                old(self).id_tile_map@.len() as usize,
                tile,
            ),
            final(self).map.tiles@ == old(self).map.tiles@.insert(
                (tile.x, tile.y),
                old(self).id_tile_map@.len() as usize,
            ),
            final(self).map.w == old(self).map.w,
            final(self).map.h == old(self).map.h,
            final(self).map.enemies@ == old(self).map.enemies@,
            final(self).map.visible@ == old(self).map.visible@,
            final(self).id_enemy_map@ == old(self).id_enemy_map@,
            // what is placed can be read back from its cell
            final(self).tile_at(tile.x, tile.y) == Some(tile),
            old(self).wf() ==> final(self).wf(),
            // every other cell keeps its tile, as long as the map refers only
            // to ids below the tile count (so the new id is fresh to it)
            old(self).tile_refs_below_count() ==> forall|x: usize, y: usize|
                (x, y) != (tile.x, tile.y) ==> #[trigger] final(self).tile_at(x, y) == old(
                    self,
                ).tile_at(x, y),
    {
        let tid = self.id_tile_map.len();
        fx_insert(&mut self.map.tiles, (tile.x, tile.y), tid);
        self.id_tile_map.insert(tid, tile);
        proof {
            let o = old(self);
            if o.wf() {
                assert forall|i: usize| #[trigger]
                    self.id_tile_map@.contains_key(i) <==> i < self.id_tile_map@.len() by {
                    assert(!o.id_tile_map@.contains_key(tid));
                }
                assert forall|c: (usize, usize)| #[trigger]
                    self.map.tiles@.contains_key(c) implies self.map.tiles@[c]
                    < self.id_tile_map@.len() by {
                    assert(!o.id_tile_map@.contains_key(tid));
                }
            }
            if o.tile_refs_below_count() {
                assert forall|x: usize, y: usize| (x, y) != (tile.x, tile.y) implies #[trigger]
                    self.tile_at(x, y) == o.tile_at(x, y) by {
                    if o.map.tiles@.contains_key((x, y)) {
                        assert(o.map.tiles@[(x, y)] != tid);
                    }
                }
            }
        }
    }

    /// Registers an enemy under the next enemy id, and adds that id at the
    /// end of the list of enemies in cell (x, y) of the map (starting the
    /// list when the cell has none): several enemies can share a cell.
    pub fn spawn_enemy(&mut self, enemy: E, x: usize, y: usize)
        ensures
            final(self).id_enemy_map@ == old(self).id_enemy_map@.insert(
                old(self).id_enemy_map@.len() as usize,
                enemy,
            ),
            enemy_lists(final(self).map.enemies@) == enemy_lists(old(self).map.enemies@).insert(
                (x, y),
                (if old(self).map.enemies@.contains_key((x, y)) {
                    old(self).map.enemies@[(x, y)]@
                } else {
                    Seq::<usize>::empty()
                }).push(old(self).id_enemy_map@.len() as usize),
            ),
            final(self).map.w == old(self).map.w,
            final(self).map.h == old(self).map.h,
            final(self).map.tiles@ == old(self).map.tiles@,
            final(self).map.visible@ == old(self).map.visible@,
            final(self).id_tile_map@ == old(self).id_tile_map@,
            // each enemy placed in a cell is listed in it
            enemy_lists(final(self).map.enemies@)[(x, y)].contains(
                old(self).id_enemy_map@.len() as usize,
            ),
            old(self).wf() ==> final(self).wf(),
    {
        let eid = self.id_enemy_map.len();
        match fx_remove(&mut self.map.enemies, &(x, y)) {
            Some(mut ids) => {
                ids.push(eid);
                fx_insert(&mut self.map.enemies, (x, y), ids);
            },
            None => {
                let mut ids: Vec<usize> = Vec::new();
                ids.push(eid);
                fx_insert(&mut self.map.enemies, (x, y), ids);
            },
        }
        self.id_enemy_map.insert(eid, enemy);
        proof {
            let l = (if old(self).map.enemies@.contains_key((x, y)) {
                old(self).map.enemies@[(x, y)]@
            } else {
                Seq::<usize>::empty()
            }).push(eid);
            assert(l[l.len() - 1] == eid);
            let o = old(self);
            if o.wf() {
                assert forall|i: usize| #[trigger]
                    self.id_enemy_map@.contains_key(i) <==> i < self.id_enemy_map@.len() by {
                    assert(!o.id_enemy_map@.contains_key(eid));
                }
                assert(!o.id_enemy_map@.contains_key(eid));
                assert(self.id_enemy_map@.len() == o.id_enemy_map@.len() + 1);
                assert forall|c: (usize, usize), k: int|
                    #[trigger] self.map.enemies@.contains_key(c) && 0 <= k
                        < self.map.enemies@[c].len() implies #[trigger] self.map.enemies@[c]@[k]
                    < self.id_enemy_map@.len() by {
                    if c == (x, y) && o.map.enemies@.contains_key(c) {
                        if k < o.map.enemies@[c].len() {
                            assert(self.map.enemies@[c]@[k] == o.map.enemies@[c]@[k]);
                        }
                    }
                }
            }
        }
    }
}

} // verus!
