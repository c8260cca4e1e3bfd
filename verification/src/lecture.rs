//! The map of the first version of the game, which also keeps the map text.
use vstd::prelude::*;

use crate::map::{map_rows, map_tiles, row_bytes, row_tiles, spawn_all};
use crate::state::GameState;
use crate::text::{chars_of, trim};
use crate::tiles::{Tile, TileState, TileType};

verus! {

/// Why a map file was refused.
#[derive(Debug, Clone, Copy, PartialEq, Eq, Structural)]
pub enum MapError {
    /// The rows do not all have the same length.
    NotRectangular,
}

/// A map that keeps its text, row after row, with its width and height.
pub struct GameMap {
    pub src: String,
    pub w: usize,
    pub h: usize,
}

/// The rows written one after the other.
pub open spec fn concat_rows(rows: Seq<Seq<char>>) -> Seq<char>
    decreases rows.len(),
{
    if rows.len() == 0 {
        Seq::empty()
    } else {
        concat_rows(rows.drop_last()) + rows.last()
    }
}

/// Whether all rows have the same length in bytes.
pub open spec fn uniform_rows(rows: Seq<Seq<char>>) -> bool {
    forall|i: int, j: int|
        0 <= i < rows.len() && 0 <= j < rows.len() ==> #[trigger] row_bytes(rows[i])
            == #[trigger] row_bytes(rows[j])
}

impl GameMap {
    /// Reads a map from the lines of a map file, registering its tiles in
    /// `state` as they are met (row by row, left to right). The map's text
    /// is the lines without leading and trailing white space, one after the
    /// other; the map is refused when its rows are not all of the same length
    /// (in bytes). The check comes once all rows are read, so the tiles stay
    /// registered either way.
    pub fn new<E>(lines: &Vec<String>, state: &mut GameState<E>) -> (r: Result<GameMap, MapError>)
        ensures
            (final(state).map.tiles@, final(state).id_tile_map@) == spawn_all(
                old(state).map.tiles@,
                old(state).id_tile_map@,
                map_tiles(map_rows(lines@)),
            ),
            final(state).map.w == old(state).map.w,
            final(state).map.h == old(state).map.h,
            final(state).map.enemies@ == old(state).map.enemies@,
            final(state).map.visible@ == old(state).map.visible@,
            final(state).id_enemy_map@ == old(state).id_enemy_map@,
            ({
                let rows = map_rows(lines@);
                let w: nat = if lines.len() == 0 {
                    0
                } else {
                    row_bytes(rows.last())
                };
                match r {
                    Ok(m) => {
                        &&& uniform_rows(rows)
                        &&& m.src@ == concat_rows(rows)
                        &&& m.w == w
                        &&& m.h == lines.len()
                    },
                    Err(e) => {
                        &&& !uniform_rows(rows)
                        &&& e == MapError::NotRectangular
                    },
                }
            }),
    {
        let ghost rows = map_rows(lines@);
        let ghost cells0 = state.map.tiles@;
        let ghost ids0 = state.id_tile_map@;
        let mut src = String::new();
        let mut map_w: usize = 0;
        let mut map_h: usize = 0;
        let mut uniform = true;
        let mut h: usize = 0;
        assert(rows.take(0) =~= Seq::<Seq<char>>::empty());
        while h < lines.len()
            invariant
                rows == map_rows(lines@),
                cells0 == old(state).map.tiles@,
                ids0 == old(state).id_tile_map@,
                h <= lines.len(),
                map_h == h,
                map_w == (if h == 0 {
                    0
                } else {
                    row_bytes(rows[h - 1])
                }),
                src@ == concat_rows(rows.take(h as int)),
                uniform == uniform_rows(rows.take(h as int)),
                (state.map.tiles@, state.id_tile_map@) == spawn_all(
                    cells0,
                    ids0,
                    map_tiles(rows.take(h as int)),
                ),
                state.map.w == old(state).map.w,
                state.map.h == old(state).map.h,
                state.map.enemies@ == old(state).map.enemies@,
                state.map.visible@ == old(state).map.visible@,
                state.id_enemy_map@ == old(state).id_enemy_map@,
            decreases lines.len() - h,
        {
            let line = trim(lines[h].as_str());
            let w = line.as_bytes().len();
            let cs = chars_of(line);
            let n = cs.len();
            let ghost row = rows[h as int];
            let ghost before = map_tiles(rows.take(h as int));
            assert(row.take(0) =~= Seq::<char>::empty());
            assert(before + row_tiles(row.take(0), h) =~= before);
            let mut x: usize = 0;
            while x < n
                invariant
                    cells0 == old(state).map.tiles@,
                    ids0 == old(state).id_tile_map@,
                    h < lines.len(),
                    cs@ == row,
                    n == cs.len(),
                    x <= n,
                    (state.map.tiles@, state.id_tile_map@) == spawn_all(
                        cells0,
                        ids0,
                        before + row_tiles(row.take(x as int), h),
                    ),
                    state.map.w == old(state).map.w,
                    state.map.h == old(state).map.h,
                    state.map.enemies@ == old(state).map.enemies@,
                    state.map.visible@ == old(state).map.visible@,
                    state.id_enemy_map@ == old(state).id_enemy_map@,
                decreases n - x,
            {
                let c = cs[x];
                let ghost prefix = before + row_tiles(row.take(x as int), h);
                assert(row.take(x + 1).drop_last() =~= row.take(x as int));
                assert(row.take(x + 1).last() == c);
                match TileType::try_from(c) {
                    Ok(tile_typ) => {
                        let tile = Tile { x, y: h, state: TileState::Base, typ: tile_typ };
                        state.spawn_tile(tile);
                        assert(before + row_tiles(row.take(x + 1), h) =~= prefix.push(tile));
                        assert(prefix.push(tile).drop_last() =~= prefix);
                    },
                    Err(_) => {
                        assert(before + row_tiles(row.take(x + 1), h) =~= prefix);
                    },
                }
                x = x + 1;
            }
            assert(row.take(n as int) =~= row);
            assert(rows.take(h + 1).drop_last() =~= rows.take(h as int));
            assert(rows.take(h + 1).last() == row);
            src.append(line);
            proof {
                let t = rows.take(h + 1);
                if h > 0 {
                    assert(t[h - 1] == rows[h - 1]);
                    assert(t[h as int] == row);
                    if uniform && w == map_w {
                        assert forall|i: int, j: int| 0 <= i < t.len() && 0 <= j < t.len()
                            implies #[trigger] row_bytes(t[i]) == #[trigger] row_bytes(t[j]) by {
                            if i < h {
                                assert(t[i] == rows.take(h as int)[i]);
                                assert(row_bytes(rows.take(h as int)[i]) == row_bytes(
                                    rows.take(h as int)[h - 1],
                                ));
                            }
                            if j < h {
                                assert(t[j] == rows.take(h as int)[j]);
                                assert(row_bytes(rows.take(h as int)[j]) == row_bytes(
                                    rows.take(h as int)[h - 1],
                                ));
                            }
                        }
                    } else if !uniform {
                        let (i, j) = choose|i: int, j: int|
                            0 <= i < h && 0 <= j < h && #[trigger] row_bytes(
                                rows.take(h as int)[i],
                            ) != #[trigger] row_bytes(rows.take(h as int)[j]);
                        assert(t[i] == rows.take(h as int)[i]);
                        assert(t[j] == rows.take(h as int)[j]);
                        assert(row_bytes(t[i]) != row_bytes(t[j]));
                    } else {
                        assert(row_bytes(t[h - 1]) != row_bytes(t[h as int]));
                    }
                } else {
                    assert(t.len() == 1);
                }
            }
            if h > 0 && w != map_w {
                uniform = false;
            }
            map_w = w;
            map_h = h + 1;
            h = h + 1;
        }
        assert(rows.take(lines.len() as int) =~= rows);
        // Only check at end, once every row has been read.
        if !uniform {
            return Err(MapError::NotRectangular);
        }
        Ok(GameMap { src, w: map_w, h: map_h })
    }

    /// Whether (x, y) lies strictly inside the map: not on its first row or
    /// column, and before its width and height (read as `i32`).
    pub fn is_in_bounds(&self, x: i32, y: i32) -> (r: bool)
        ensures
            r == (x > 0 && x < self.w as i32 && y > 0 && y < self.h as i32),
    {
        x > 0 && x < self.w as i32 && y > 0 && y < self.h as i32
    }

    /// Whether the byte of the map text at cell (x, y) is a space.
    pub fn is_empty(&self, x: usize, y: usize) -> (r: bool)
        requires
            y * self.w + x < row_bytes(self.src@),
        ensures
            r == (vstd::utf8::encode_utf8(self.src@)[y * self.w + x] == 32),
    {
        let bytes = self.src.as_str().as_bytes();
        let n = bytes.len();
        assert(0 <= y * self.w <= y * self.w + x < n) by (nonlinear_arith)
            requires
                y * self.w + x < n,
        ;
        bytes[y * self.w + x] == 32
    }
}

} // verus!
