use vstd::prelude::*;

verus! {

/// Terrain kinds of a world tile.
#[derive(Clone, Copy, Debug, PartialEq, Eq, Structural)]
pub enum Terrain {
    Water,
    Sand,
    Grass,
    Forest,
    Mountain,
    Snow,
    Cliff,
    Marsh,
    Desert,
    Tundra,
    Scrubland,
    Stump,
    Bare,
    Sapling,
    Quarry,
    QuarryDeep,
    ScarredGround,
    BuildingFloor,
    BuildingWall,
    Road,
    Ford,
    Bridge,
    Ice,
    FloodWater,
    Burning,
    Scorched,
}

/// A rectangular world of terrain tiles, stored row by row.
pub struct TileMap {
    pub width: usize,
    pub height: usize,
    /// Terrain of each tile, row by row (`y * width + x`).
    pub tiles: Vec<Terrain>,
}

/// Row-major index of tile `(x, y)` in a grid `w` tiles wide.
pub open spec fn tile_index(x: int, y: int, w: int) -> int {
    y * w + x
}

pub proof fn lemma_tile_index_bounds(x: int, y: int, w: int, h: int)
    requires
        0 <= x < w,
        0 <= y < h,
    ensures
        0 <= tile_index(x, y, w) < w * h,
{
    assert(0 <= y * w) by (nonlinear_arith)
        requires
            0 <= y,
            0 <= w,
    ;
    assert(y * w + x < w * h) by (nonlinear_arith)
        requires
            0 <= x < w,
            0 <= y < h,
    ;
}

pub proof fn lemma_tile_index_injective(x1: int, y1: int, x2: int, y2: int, w: int)
    requires
        0 <= x1 < w,
        0 <= x2 < w,
        0 <= y1,
        0 <= y2,
        tile_index(x1, y1, w) == tile_index(x2, y2, w),
    ensures
        x1 == x2,
        y1 == y2,
{
    if y1 < y2 {
        assert(y1 * w + w <= y2 * w) by (nonlinear_arith)
            requires
                y1 < y2,
                0 <= w,
        ;
    } else if y2 < y1 {
        assert(y2 * w + w <= y1 * w) by (nonlinear_arith)
            requires
                y2 < y1,
                0 <= w,
        ;
    }
}

impl TileMap {
    /// One stored tile per grid position.
    pub open spec fn wf(&self) -> bool {
        &&& self.width * self.height <= usize::MAX
        &&& self.tiles@.len() == self.width * self.height
    }

    /// The terrain at `(x, y)`, or `None` outside the map.
    pub open spec fn at(&self, x: int, y: int) -> Option<Terrain> {
        if 0 <= x < self.width && 0 <= y < self.height {
            Some(self.tiles@[tile_index(x, y, self.width as int)])
        } else {
            None
        }
    }

    /// A map of the given size filled with one terrain.
    pub fn new(width: usize, height: usize, fill: Terrain) -> (m: Self)
        requires
            width * height <= usize::MAX,
        ensures
            m.wf(),
            m.width == width,
            m.height == height,
            forall|x: int, y: int|
                #[trigger] m.at(x, y) == if 0 <= x < width && 0 <= y < height {
                    Some(fill)
                } else {
                    None
                },
    {
        let n = width * height;
        let mut tiles: Vec<Terrain> = Vec::new();
        let mut i: usize = 0;
        while i < n
            invariant
                i <= n,
                tiles@.len() == i,
                forall|j: int| 0 <= j < i ==> tiles@[j] == fill,
            decreases n - i,
        {
            tiles.push(fill);
            i = i + 1;
        }
        let m = TileMap { width, height, tiles };
        proof {
            assert forall|x: int, y: int|
                #[trigger] m.at(x, y) == if 0 <= x < width && 0 <= y < height {
                    Some(fill)
                } else {
                    None
                } by {
                if 0 <= x < width && 0 <= y < height {
                    lemma_tile_index_bounds(x, y, width as int, height as int);
                }
            }
        }
        m
    }

    /// The terrain at `(x, y)`, or `None` outside the map.
    pub fn get(&self, x: usize, y: usize) -> (r: Option<&Terrain>)
        requires
            self.wf(),
        ensures
            match r {
                Some(t) => self.at(x as int, y as int) == Some(*t),
                None => self.at(x as int, y as int) is None,
            },
    {
        if x < self.width && y < self.height {
            proof {
                lemma_tile_index_bounds(x as int, y as int, self.width as int, self.height as int);
            }
            Some(&self.tiles[y * self.width + x])
        } else {
            None
        }
    }

    /// Replace the terrain at `(x, y)`; positions outside the map are ignored.
    pub fn set(&mut self, x: usize, y: usize, t: Terrain)
        requires
            old(self).wf(),
        ensures
            final(self).wf(),
            final(self).width == old(self).width,
            final(self).height == old(self).height,
            forall|px: int, py: int|
                #[trigger] final(self).at(px, py) == if px == x && py == y && old(self).at(
                    px,
                    py,
                ) is Some {
                    Some(t)
                } else {
                    old(self).at(px, py)
                },
    {
        if x < self.width && y < self.height {
            proof {
                lemma_tile_index_bounds(x as int, y as int, self.width as int, self.height as int);
            }
            let idx = y * self.width + x;
            self.tiles.set(idx, t);
            proof {
                assert forall|px: int, py: int|
                    #[trigger] self.at(px, py) == if px == x && py == y && old(self).at(
                        px,
                        py,
                    ) is Some {
                        Some(t)
                    } else {
                        old(self).at(px, py)
                    } by {
                    let w = self.width as int;
                    if 0 <= px < w && 0 <= py < self.height {
                        lemma_tile_index_bounds(px, py, w, self.height as int);
                        if tile_index(px, py, w) == idx as int {
                            lemma_tile_index_injective(px, py, x as int, y as int, w);
                        }
                    }
                }
            }
        }
    }
}

} // verus!
