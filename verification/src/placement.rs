use vstd::prelude::*;

use crate::tilemap::{Terrain, TileMap};
use crate::visuals::BuildingType;

verus! {

/// Ground a building of type `bt` may stand on: bridges go on water, every
/// other building on grass, sand or forest.
pub open spec fn buildable(bt: BuildingType, t: Terrain) -> bool {
    if bt == BuildingType::Bridge {
        t == Terrain::Water
    } else {
        t == Terrain::Grass || t == Terrain::Sand || t == Terrain::Forest
    }
}

/// Every tile of the `w` x `h` footprint at `(bx, by)` lies on the map on
/// ground that building type `bt` may stand on.
pub open spec fn footprint_ok(map: TileMap, bx: i32, by: i32, w: i32, h: i32, bt: BuildingType) -> bool {
    forall|x: int, y: int|
        bx <= x < bx + w && by <= y < by + h ==> (#[trigger] map.at(x, y) matches Some(t) && buildable(bt, t))
}

/// Two rectangles `(x, y, w, h)` share a tile.
pub open spec fn rects_overlap(a: (i32, i32, i32, i32), b: (i32, i32, i32, i32)) -> bool {
    a.0 < b.0 + b.2 && a.0 + a.2 > b.0 && a.1 < b.1 + b.3 && a.1 + a.3 > b.1
}

/// The terrain a building site reserves its footprint with.
pub open spec fn placeholder(bt: BuildingType) -> Terrain {
    if bt == BuildingType::Bridge {
        Terrain::Bridge
    } else {
        Terrain::BuildingFloor
    }
}

/// Whether building type `bt`, of size `w` x `h`, fits on the map at
/// `(bx, by)` on suitable ground (existing buildings and their sites have
/// already turned their tiles into building terrain).
pub fn footprint_fits(map: &TileMap, bx: i32, by: i32, w: i32, h: i32, bt: BuildingType) -> (ok: bool)
    requires
        map.wf(),
    ensures
        ok == footprint_ok(*map, bx, by, w, h, bt),
{
    let bridge = bt == BuildingType::Bridge;
    let mut dy: i32 = 0;
    while dy < h
        invariant
            map.wf(),
            0 <= dy,
            dy <= h || dy == 0,
            bridge == (bt == BuildingType::Bridge),
            forall|x: int, y: int|
                bx <= x < bx + w && by <= y < by + dy ==> (#[trigger] map.at(x, y) matches Some(t) && buildable(
                    bt,
                    t,
                )),
        decreases h - dy,
    {
        let mut dx: i32 = 0;
        while dx < w
            invariant
                map.wf(),
                0 <= dy < h,
                0 <= dx,
                dx <= w || dx == 0,
                bridge == (bt == BuildingType::Bridge),
                forall|x: int, y: int|
                    bx <= x < bx + w && by <= y < by + dy ==> (#[trigger] map.at(x, y) matches Some(t)
                        && buildable(bt, t)),
                forall|x: int| bx <= x < bx + dx ==> (#[trigger] map.at(x, by + dy) matches Some(t) && buildable(bt, t)),
            decreases w - dx,
        {
            let tx: i64 = bx as i64 + dx as i64;
            let ty: i64 = by as i64 + dy as i64;
            if tx < 0 || ty < 0 {
                assert(map.at(bx + dx, by + dy) is None);
                return false;
            }
            let fits = match map.get(tx as usize, ty as usize) {
                Some(t) => if bridge {
                    // Bridges can only be placed on water tiles
                    *t == Terrain::Water
                } else {
                    *t == Terrain::Grass || *t == Terrain::Sand || *t == Terrain::Forest
                },
                None => false,
            };
            if !fits {
                assert(!(map.at(bx + dx, by + dy) matches Some(t) && buildable(bt, t)));
                return false;
            }
            dx = dx + 1;
        }
        dy = dy + 1;
    }
    true
}

/// Whether the `w` x `h` footprint at `(bx, by)` overlaps one of the build
/// sites, given as `(x, y, width, height)`.
pub fn overlaps_build_site(bx: i32, by: i32, w: i32, h: i32, sites: &Vec<(i32, i32, i32, i32)>) -> (r: bool)
    ensures
        r == exists|k: int| 0 <= k < sites@.len() && rects_overlap((bx, by, w, h), #[trigger] sites@[k]),
{
    let mut k: usize = 0;
    while k < sites.len()
        invariant
            k <= sites@.len(),
            forall|j: int| 0 <= j < k ==> !rects_overlap((bx, by, w, h), #[trigger] sites@[j]),
        decreases sites@.len() - k,
    {
        let (sx, sy, sw, sh) = sites[k];
        let a0: i64 = bx as i64;
        let a1: i64 = by as i64;
        if a0 < sx as i64 + sw as i64 && a0 + w as i64 > sx as i64 && a1 < sy as i64 + sh as i64 && a1 + h as i64
            > sy as i64 {
            assert(rects_overlap((bx, by, w, h), sites@[k as int]));
            return true;
        }
        k = k + 1;
    }
    false
}

/// Reserve the footprint of a new building site: its tiles on the map turn
/// into bridge deck for a bridge and building floor otherwise.
pub fn reserve_footprint(map: &mut TileMap, bx: i32, by: i32, w: i32, h: i32, bt: BuildingType)
    requires
        old(map).wf(),
    ensures
        final(map).wf(),
        final(map).width == old(map).width,
        final(map).height == old(map).height,
        forall|px: int, py: int|
            #[trigger] final(map).at(px, py) == if old(map).at(px, py) is Some && bx <= px < bx + w && by <= py
                < by + h {
                Some(placeholder(bt))
            } else {
                old(map).at(px, py)
            },
{
    let ghost m0 = *map;
    let t = if bt == BuildingType::Bridge {
        Terrain::Bridge
    } else {
        Terrain::BuildingFloor
    };
    let mut dy: i32 = 0;
    while dy < h
        invariant
            map.wf(),
            map.width == m0.width,
            map.height == m0.height,
            t == placeholder(bt),
            0 <= dy,
            dy <= h || dy == 0,
            forall|px: int, py: int|
                #[trigger] map.at(px, py) == if m0.at(px, py) is Some && bx <= px < bx + w && by <= py < by + dy {
                    Some(t)
                } else {
                    m0.at(px, py)
                },
        decreases h - dy,
    {
        let mut dx: i32 = 0;
        while dx < w
            invariant
                map.wf(),
                map.width == m0.width,
                map.height == m0.height,
                t == placeholder(bt),
                0 <= dy < h,
                0 <= dx,
                dx <= w || dx == 0,
                forall|px: int, py: int|
                    #[trigger] map.at(px, py) == if m0.at(px, py) is Some && ((bx <= px < bx + w && by <= py < by
                        + dy) || (bx <= px < bx + dx && py == by + dy)) {
                        Some(t)
                    } else {
                        m0.at(px, py)
                    },
            decreases w - dx,
        {
            let tx: i64 = bx as i64 + dx as i64;
            let ty: i64 = by as i64 + dy as i64;
            if tx >= 0 && ty >= 0 {
                map.set(tx as usize, ty as usize, t);
            } else {
                assert(m0.at(bx + dx, by + dy) is None);
            }
            dx = dx + 1;
        }
        proof {
            assert forall|px: int, py: int|
                #[trigger] map.at(px, py) == if m0.at(px, py) is Some && bx <= px < bx + w && by <= py < by + dy
                    + 1 {
                    Some(t)
                } else {
                    m0.at(px, py)
                } by {
                if w > 0 {
                    assert(dx == w);
                }
            }
        }
        dy = dy + 1;
    }
}

/// Once a site has reserved its footprint, no building can be placed on a
/// footprint that shares a tile with it: building sites never overlap.
pub proof fn law_reserved_footprint_blocks(
    before: TileMap,
    after: TileMap,
    site: (i32, i32, i32, i32),
    bt: BuildingType,
    other: (i32, i32, i32, i32),
    other_bt: BuildingType,
)
    requires
        footprint_ok(before, site.0, site.1, site.2, site.3, bt),
        forall|px: int, py: int|
            #[trigger] after.at(px, py) == if before.at(px, py) is Some && site.0 <= px < site.0 + site.2
                && site.1 <= py < site.1 + site.3 {
                Some(placeholder(bt))
            } else {
                before.at(px, py)
            },
        rects_overlap(site, other),
        site.2 > 0,
        site.3 > 0,
        other.2 > 0,
        other.3 > 0,
    ensures
        !footprint_ok(after, other.0, other.1, other.2, other.3, other_bt),
{
    let px: int = if site.0 > other.0 { site.0 as int } else { other.0 as int };
    let py: int = if site.1 > other.1 { site.1 as int } else { other.1 as int };
    assert(before.at(px, py) is Some);
    assert(after.at(px, py) == Some(placeholder(bt)));
}

/// The terrain at `(px, py)` after the footprint `tiles` (offsets from
/// `(bx, by)`, each with its terrain) is stamped onto `m` in order: that of
/// the last tile stamped there, where it lies on the map.
pub open spec fn stamped_at(m: TileMap, bx: int, by: int, tiles: Seq<(i32, i32, Terrain)>, px: int, py: int) -> Option<Terrain>
    decreases tiles.len(),
{
    if tiles.len() == 0 {
        m.at(px, py)
    } else {
        let t = tiles.last();
        if bx + t.0 == px && by + t.1 == py && m.at(px, py) is Some {
            Some(t.2)
        } else {
            stamped_at(m, bx, by, tiles.drop_last(), px, py)
        }
    }
}

/// Stamp a building's footprint onto the map: each of `tiles`, an offset
/// from `(bx, by)` with its terrain, in order; tiles off the map are skipped.
pub fn stamp_footprint(map: &mut TileMap, bx: i32, by: i32, tiles: &Vec<(i32, i32, Terrain)>)
    requires
        old(map).wf(),
        forall|i: int|
            0 <= i < tiles@.len() ==> i32::MIN <= bx + (#[trigger] tiles@[i]).0 <= i32::MAX && i32::MIN <= by
                + tiles@[i].1 <= i32::MAX,
    ensures
        final(map).wf(),
        final(map).width == old(map).width,
        final(map).height == old(map).height,
        forall|px: int, py: int| #[trigger] final(map).at(px, py) == stamped_at(*old(map), bx as int, by as int, tiles@, px, py),
{
    let ghost m0 = *map;
    let mut i: usize = 0;
    while i < tiles.len()
        invariant
            map.wf(),
            map.width == m0.width,
            map.height == m0.height,
            i <= tiles@.len(),
            forall|k: int|
                0 <= k < tiles@.len() ==> i32::MIN <= bx + (#[trigger] tiles@[k]).0 <= i32::MAX && i32::MIN <= by
                    + tiles@[k].1 <= i32::MAX,
            forall|px: int, py: int| #[trigger] map.at(px, py) == stamped_at(m0, bx as int, by as int, tiles@.take(i as int), px, py),
        decreases tiles@.len() - i,
    {
        let (dx, dy, t) = tiles[i];
        let tx = bx + dx;
        let ty = by + dy;
        if tx >= 0 && ty >= 0 && (tx as usize) < map.width && (ty as usize) < map.height {
            map.set(tx as usize, ty as usize, t);
        }
        proof {
            let cur = tiles@.take(i + 1);
            assert(cur.drop_last() =~= tiles@.take(i as int));
            assert(cur.last() == (dx, dy, t));
        }
        i = i + 1;
    }
    proof {
        assert(tiles@.take(i as int) =~= tiles@);
    }
}

/// Every building but a bridge fits on a footprint lying wholly on grass,
/// sand or forest; a bridge fits on one lying wholly on water.
pub proof fn law_footprint_on_open_ground_fits(map: TileMap, bx: i32, by: i32, w: i32, h: i32, bt: BuildingType)
    requires
        bt != BuildingType::Bridge ==> forall|x: int, y: int|
            bx <= x < bx + w && by <= y < by + h ==> (#[trigger] map.at(x, y) == Some(Terrain::Grass) || map.at(x, y)
                == Some(Terrain::Sand) || map.at(x, y) == Some(Terrain::Forest)),
        bt == BuildingType::Bridge ==> forall|x: int, y: int|
            bx <= x < bx + w && by <= y < by + h ==> #[trigger] map.at(x, y) == Some(Terrain::Water),
    ensures
        footprint_ok(map, bx, by, w, h, bt),
{
}

/// A footprint with a tile off the map fits nothing; one with a tile of any
/// ground other than grass, sand or forest fits no building but a bridge, and
/// a bridge fits nowhere but on water.
pub proof fn law_footprint_on_other_ground_fails(
    map: TileMap,
    bx: i32,
    by: i32,
    w: i32,
    h: i32,
    bt: BuildingType,
    x: int,
    y: int,
)
    requires
        bx <= x < bx + w,
        by <= y < by + h,
    ensures
        map.at(x, y) is None ==> !footprint_ok(map, bx, by, w, h, bt),
        bt != BuildingType::Bridge && !(map.at(x, y) == Some(Terrain::Grass) || map.at(x, y) == Some(Terrain::Sand)
            || map.at(x, y) == Some(Terrain::Forest)) ==> !footprint_ok(map, bx, by, w, h, bt),
        bt == BuildingType::Bridge && map.at(x, y) != Some(Terrain::Water) ==> !footprint_ok(map, bx, by, w, h, bt),
{
    if footprint_ok(map, bx, by, w, h, bt) {
        assert(map.at(x, y) matches Some(t) && buildable(bt, t));
    }
}

} // verus!
