use vstd::prelude::*;

use crate::tilemap::{Terrain, TileMap, tile_index, lemma_tile_index_bounds, lemma_tile_index_injective};
use crate::components::{
    hot, connected, component, ipair, ipairs, bfs_order, closed_grid, flood_fill, count_true, lemma_same_component,
    lemma_connected_symmetric, lemma_connected_transitive, lemma_closed_absorbs, linked, lemma_linked_hot,
};

verus! {

/// What kind of chokepoint a cluster of narrow tiles forms.
#[derive(Clone, Copy, Debug, PartialEq, Eq, Structural)]
pub enum ChokepointKind {
    /// Narrow pass between mountains/cliffs.
    MountainPass,
    /// Ford or narrow crossing over a river.
    RiverCrossing,
    /// Strip of land between water body and impassable terrain.
    CoastalNarrow,
}

/// Barrier terrain for chokepoint detection. Mountain is walkable but counts
/// as a barrier, because mountain passes are chokepoints.
pub open spec fn barrier(t: Terrain) -> bool {
    t is Water || t is Cliff || t is BuildingWall || t is Mountain
}

/// Returns true if the terrain type counts as a barrier for chokepoint detection.
pub fn is_barrier(terrain: Terrain) -> (r: bool)
    ensures
        r == barrier(terrain),
{
    match terrain {
        Terrain::Water | Terrain::Cliff | Terrain::BuildingWall | Terrain::Mountain => true,
        _ => false,
    }
}

/// Grid coordinates stay far enough from `i32::MAX` for the signed
/// neighbourhood arithmetic (at most 10 steps past the edge).
pub open spec fn fits_i32(width: int, height: int) -> bool {
    width + 10 <= i32::MAX && height + 10 <= i32::MAX
}

/// A ray stops at `(x, y)`: off the map or on a barrier tile.
pub open spec fn stops_ray(map: TileMap, x: int, y: int) -> bool {
    match map.at(x, y) {
        Some(t) => barrier(t),
        None => true,
    }
}

/// Length of the ray from `(x, y)` in direction `(dx, dy)` when it has already
/// walked `d - 1` open tiles; rays are cut off at 9.
pub open spec fn ray_from(map: TileMap, x: int, y: int, dx: int, dy: int, d: int) -> int
    decreases 9 - d,
{
    if stops_ray(map, x + dx * d, y + dy * d) || d >= 9 {
        d
    } else {
        ray_from(map, x, y, dx, dy, d + 1)
    }
}

/// Distance walked from `(x, y)` along `(dx, dy)` until the first barrier or
/// map edge, at most 9.
pub open spec fn ray_len(map: TileMap, x: int, y: int, dx: int, dy: int) -> int {
    ray_from(map, x, y, dx, dy, 1)
}

pub open spec fn min2(a: int, b: int) -> int {
    if a <= b {
        a
    } else {
        b
    }
}

/// Narrowest corridor through `(x, y)` over the four axes (E-W, N-S and the
/// two diagonals): opposite ray lengths plus the tile itself.
pub open spec fn min_width(map: TileMap, x: int, y: int) -> int {
    let width_ew = ray_len(map, x, y, 1, 0) + ray_len(map, x, y, -1, 0) - 1;
    let width_ns = ray_len(map, x, y, 0, -1) + ray_len(map, x, y, 0, 1) - 1;
    let width_nesw = ray_len(map, x, y, 1, -1) + ray_len(map, x, y, -1, 1) - 1;
    let width_nwse = ray_len(map, x, y, -1, -1) + ray_len(map, x, y, 1, 1) - 1;
    min2(min2(min2(width_ew, width_ns), width_nesw), width_nwse)
}

proof fn lemma_ray_from_bounds(map: TileMap, x: int, y: int, dx: int, dy: int, d: int)
    requires
        1 <= d <= 9,
    ensures
        d <= ray_from(map, x, y, dx, dy, d) <= 9,
    decreases 9 - d,
{
    if !(stops_ray(map, x + dx * d, y + dy * d) || d >= 9) {
        lemma_ray_from_bounds(map, x, y, dx, dy, d + 1);
    }
}

/// Cast a ray from (x, y) in direction (dx, dy) until hitting a barrier or map edge.
/// Returns the distance (number of tiles walked before hitting barrier).
/// Early-terminates at distance 9 (no narrower corridor can come from a longer ray).
fn ray_distance(map: &TileMap, x: usize, y: usize, dx: i32, dy: i32) -> (d: u16)
    requires
        map.wf(),
        fits_i32(map.width as int, map.height as int),
        x < map.width,
        y < map.height,
        i32::MIN <= dx * 9 <= i32::MAX,
        i32::MIN <= dy * 9 <= i32::MAX,
        i32::MIN <= x + dx * 9 <= i32::MAX,
        i32::MIN <= y + dy * 9 <= i32::MAX,
    ensures
        d == ray_len(*map, x as int, y as int, dx as int, dy as int),
        1 <= d <= 9,
{
    let w = map.width;
    let h = map.height;
    let mut dist: u16 = 0;
    loop
        invariant
            map.wf(),
            w == map.width,
            h == map.height,
            fits_i32(w as int, h as int),
            x < w,
            y < h,
            i32::MIN <= dx * 9 <= i32::MAX,
            i32::MIN <= dy * 9 <= i32::MAX,
            i32::MIN <= x + dx * 9 <= i32::MAX,
            i32::MIN <= y + dy * 9 <= i32::MAX,
            dist <= 8,
            ray_len(*map, x as int, y as int, dx as int, dy as int) == ray_from(
                *map,
                x as int,
                y as int,
                dx as int,
                dy as int,
                dist + 1,
            ),
        decreases 9 - dist,
    {
        dist += 1;
        assert(i32::MIN <= dx * dist <= i32::MAX && i32::MIN <= x + dx * dist <= i32::MAX) by (nonlinear_arith)
            requires
                1 <= dist <= 9,
                0 <= x <= i32::MAX,
                i32::MIN <= dx * 9 <= i32::MAX,
                i32::MIN <= x + dx * 9 <= i32::MAX,
        ;
        assert(i32::MIN <= dy * dist <= i32::MAX && i32::MIN <= y + dy * dist <= i32::MAX) by (nonlinear_arith)
            requires
                1 <= dist <= 9,
                0 <= y <= i32::MAX,
                i32::MIN <= dy * 9 <= i32::MAX,
                i32::MIN <= y + dy * 9 <= i32::MAX,
        ;
        let nx = x as i32 + dx * dist as i32;
        let ny = y as i32 + dy * dist as i32;
        if nx < 0 || ny < 0 || nx as usize >= w || ny as usize >= h {
            return dist;  // map edge counts as barrier
        }
        if let Some(t) = map.get(nx as usize, ny as usize) {
            if is_barrier(*t) {
                return dist;
            }
        } else {
            return dist;
        }
        if dist >= 9 {
            return dist;  // early termination: no corridor of width <= 8 beyond this
        }
    }
}

/// Compute the minimum corridor width at tile (x, y) by casting rays in 4 opposite
/// pairs (axis-aligned + diagonal) and taking the minimum width across all pairs.
fn compute_min_width(map: &TileMap, x: usize, y: usize) -> (r: u16)
    requires
        map.wf(),
        fits_i32(map.width as int, map.height as int),
        x < map.width,
        y < map.height,
    ensures
        r == min_width(*map, x as int, y as int),
        1 <= r <= 17,
{
    let d_e = ray_distance(map, x, y, 1, 0);
    let d_w = ray_distance(map, x, y, -1, 0);
    let d_s = ray_distance(map, x, y, 0, 1);
    let d_n = ray_distance(map, x, y, 0, -1);
    let d_ne = ray_distance(map, x, y, 1, -1);
    let d_sw = ray_distance(map, x, y, -1, 1);
    let d_nw = ray_distance(map, x, y, -1, -1);
    let d_se = ray_distance(map, x, y, 1, 1);

    // Corridor width = sum of opposite rays + 1 (the tile itself);
    // -1 because each ray starts at dist=1.
    let width_ew = d_e + d_w - 1;
    let width_ns = d_n + d_s - 1;
    let width_nesw = d_ne + d_sw - 1;
    let width_nwse = d_nw + d_se - 1;

    let mut m = if width_ew <= width_ns {
        width_ew
    } else {
        width_ns
    };
    if width_nesw < m {
        m = width_nesw;
    }
    if width_nwse < m {
        m = width_nwse;
    }
    m
}

/// Whether `(x, y)` lies on the grid and is flagged in the river mask.
pub open spec fn is_river(mask: Seq<bool>, w: int, h: int, x: int, y: int) -> bool {
    0 <= x < w && 0 <= y < h && mask[tile_index(x, y, w)]
}

/// Number of consecutive river tiles from step `step` on along `(dx, dy)`,
/// looking at most 10 steps from the start.
pub open spec fn river_run(
    mask: Seq<bool>,
    w: int,
    h: int,
    x: int,
    y: int,
    dx: int,
    dy: int,
    step: int,
) -> int
    decreases 11 - step,
{
    if step > 10 || !is_river(mask, w, h, x + dx * step, y + dy * step) {
        0
    } else {
        1 + river_run(mask, w, h, x, y, dx, dy, step + 1)
    }
}

/// Width of the river through `(x, y)` along the axis `(dx, dy)`: the tile
/// itself plus the consecutive river tiles on both sides (10 at most each).
pub open spec fn river_width(
    mask: Seq<bool>,
    w: int,
    h: int,
    x: int,
    y: int,
    dx: int,
    dy: int,
) -> int {
    1 + river_run(mask, w, h, x, y, dx, dy, 1) + river_run(mask, w, h, x, y, -dx, -dy, 1)
}

/// Count consecutive river tiles from `(x, y)` along `(dx, dy)`, steps `1..=10`.
fn river_steps(
    river_mask: &[bool],
    x: usize,
    y: usize,
    dx: i32,
    dy: i32,
    width: usize,
    height: usize,
) -> (r: u16)
    requires
        river_mask@.len() >= width * height,
        width * height <= usize::MAX,
        fits_i32(width as int, height as int),
        x < width,
        y < height,
        -1 <= dx <= 1,
        -1 <= dy <= 1,
    ensures
        r == river_run(river_mask@, width as int, height as int, x as int, y as int, dx as int, dy as int, 1),
        r <= 10,
{
    let ghost mask = river_mask@;
    let ghost wi = width as int;
    let ghost hi = height as int;
    let mut count: u16 = 0;
    let mut step: i32 = 1;
    let mut done = false;
    while step <= 10 && !done
        invariant
            river_mask@ == mask,
            mask.len() >= width * height,
            width * height <= usize::MAX,
            wi == width,
            hi == height,
            fits_i32(wi, hi),
            x < width,
            y < height,
            -1 <= dx <= 1,
            -1 <= dy <= 1,
            1 <= step <= 11,
            count == step - 1,
            !done ==> river_run(mask, wi, hi, x as int, y as int, dx as int, dy as int, 1) == count
                + river_run(mask, wi, hi, x as int, y as int, dx as int, dy as int, step as int),
            done ==> river_run(mask, wi, hi, x as int, y as int, dx as int, dy as int, 1) == count,
        decreases 11 - step + (if done { 0int } else { 1int }),
    {
        assert(-10 <= dx * step <= 10) by (nonlinear_arith)
            requires
                -1 <= dx <= 1,
                1 <= step <= 10,
        ;
        assert(-10 <= dy * step <= 10) by (nonlinear_arith)
            requires
                -1 <= dy <= 1,
                1 <= step <= 10,
        ;
        let nx = x as i32 + dx * step;
        let ny = y as i32 + dy * step;
        if nx < 0 || ny < 0 || nx as usize >= width || ny as usize >= height {
            done = true;
        } else {
            proof {
                lemma_tile_index_bounds(nx as int, ny as int, wi, hi);
            }
            let nidx = ny as usize * width + nx as usize;
            if river_mask[nidx] {
                count += 1;
                step += 1;
            } else {
                done = true;
            }
        }
    }
    count
}

/// Measure the width of a river at (x, y) along direction (dx, dy).
/// Counts consecutive river_mask=true tiles in both directions from (x, y).
fn measure_river_width(
    map: &TileMap,
    river_mask: &[bool],
    x: usize,
    y: usize,
    dx: i32,
    dy: i32,
    width: usize,
    height: usize,
) -> (r: u16)
    requires
        river_mask@.len() >= width * height,
        width * height <= usize::MAX,
        fits_i32(width as int, height as int),
        x < width,
        y < height,
        -1 <= dx <= 1,
        -1 <= dy <= 1,
    ensures
        r == river_width(river_mask@, width as int, height as int, x as int, y as int, dx as int, dy as int),
        1 <= r <= 21,
{
    let _ = map;  // river_mask is the authority here
    let forward = river_steps(river_mask, x, y, dx, dy, width, height);
    let backward = river_steps(river_mask, x, y, -dx, -dy, width, height);
    1 + forward + backward
}

/// Combine two corridor values, where `0` means "no chokepoint": the narrower
/// nonzero corridor wins (the higher score `1/k`).
pub open spec fn kmin(a: int, b: int) -> int {
    if a == 0 {
        b
    } else if b == 0 {
        a
    } else {
        min2(a, b)
    }
}

/// River tile whose narrower axis is at most 3 tiles wide.
pub open spec fn narrow_river(mask: Seq<bool>, w: int, h: int, x: int, y: int) -> bool {
    &&& is_river(mask, w, h, x, y)
    &&& min2(river_width(mask, w, h, x, y, 1, 0), river_width(mask, w, h, x, y, 0, 1)) <= 3
}

/// Corridor value a narrow river tile gives its banks: river width + 1.
pub open spec fn crossing_value(mask: Seq<bool>, w: int, h: int, x: int, y: int) -> int {
    min2(river_width(mask, w, h, x, y, 1, 0), river_width(mask, w, h, x, y, 0, 1)) + 1
}

/// A walkable, non-barrier tile that can serve as a river bank.
pub open spec fn bank_tile(map: TileMap, x: int, y: int) -> bool {
    match map.at(x, y) {
        Some(t) => !barrier(t),
        None => false,
    }
}

/// Contribution of river tile `(rx, ry)` to bank `(bx, by)`, counting only
/// river tiles whose row-major index is below `limit`.
pub open spec fn bank_from(
    map: TileMap,
    mask: Seq<bool>,
    bx: int,
    by: int,
    rx: int,
    ry: int,
    limit: int,
) -> int {
    let w = map.width as int;
    let h = map.height as int;
    if tile_index(rx, ry, w) < limit && narrow_river(mask, w, h, rx, ry) && bank_tile(map, bx, by) {
        crossing_value(mask, w, h, rx, ry)
    } else {
        0
    }
}

/// River-crossing corridor value of bank `(x, y)` from the narrow river
/// tiles among its four neighbours with index below `limit`.
pub open spec fn bank_value_below(map: TileMap, mask: Seq<bool>, x: int, y: int, limit: int) -> int {
    kmin(
        kmin(
            kmin(bank_from(map, mask, x, y, x + 1, y, limit), bank_from(map, mask, x, y, x - 1, y, limit)),
            bank_from(map, mask, x, y, x, y + 1, limit),
        ),
        bank_from(map, mask, x, y, x, y - 1, limit),
    )
}

/// River-crossing corridor value of tile `(x, y)` (0 if it is no bank of a
/// narrow river).
pub open spec fn bank_value(map: TileMap, mask: Seq<bool>, x: int, y: int) -> int {
    bank_value_below(map, mask, x, y, map.width * map.height)
}

/// Corridor value from ray casting: barrier tiles and corridors wider than 8 give 0.
pub open spec fn ray_corridor(map: TileMap, x: int, y: int) -> int {
    match map.at(x, y) {
        Some(t) => if barrier(t) {
            0
        } else if min_width(map, x, y) <= 8 {
            min_width(map, x, y)
        } else {
            0
        },
        None => 0,
    }
}

/// Corridor value of tile `(x, y)`: the tile's chokepoint score is `1/k` for
/// value `k`, and 0 for value 0. River banks count only when the mask covers
/// the whole map.
pub open spec fn corridor(map: TileMap, mask: Seq<bool>, x: int, y: int) -> int {
    if mask.len() == map.width * map.height {
        kmin(ray_corridor(map, x, y), bank_value(map, mask, x, y))
    } else {
        ray_corridor(map, x, y)
    }
}

/// Narrowest value among the entries of `es` for tile index `b` (0 if none).
pub open spec fn entry_min(es: Seq<(usize, u16)>, b: int) -> int
    decreases es.len(),
{
    if es.len() == 0 {
        0
    } else {
        let rest = entry_min(es.drop_last(), b);
        if es.last().0 == b {
            kmin(rest, es.last().1 as int)
        } else {
            rest
        }
    }
}

proof fn lemma_entry_min_push(es: Seq<(usize, u16)>, e: (usize, u16), b: int)
    ensures
        entry_min(es.push(e), b) == if e.0 == b {
            kmin(entry_min(es, b), e.1 as int)
        } else {
            entry_min(es, b)
        },
{
    assert(es.push(e).drop_last() =~= es);
}

/// Bank `(bx, by)` of river tile `(rx, ry)`: push an entry if it is a walkable bank.
fn push_bank(
    map: &TileMap,
    crossings: &mut Vec<(usize, u16)>,
    bx: i32,
    by: i32,
    value: u16,
)
    requires
        map.wf(),
        fits_i32(map.width as int, map.height as int),
        -1 <= bx,
        -1 <= by,
        1 <= value <= 4,
        forall|i: int| 0 <= i < old(crossings)@.len() ==> (#[trigger] old(crossings)@[i]).0 < map.width * map.height && 1 <= old(crossings)@[i].1 <= 4,
    ensures
        forall|i: int| 0 <= i < final(crossings)@.len() ==> (#[trigger] final(crossings)@[i]).0 < map.width * map.height && 1 <= final(crossings)@[i].1 <= 4,
        final(crossings)@ == if 0 <= bx && 0 <= by && bank_tile(*map, bx as int, by as int) {
            old(crossings)@.push((tile_index(bx as int, by as int, map.width as int) as usize, value))
        } else {
            old(crossings)@
        },
{
    let width = map.width;
    let height = map.height;
    if bx >= 0 && by >= 0 && (bx as usize) < width && (by as usize) < height {
        proof {
            lemma_tile_index_bounds(bx as int, by as int, width as int, height as int);
        }
        let bidx = by as usize * width + bx as usize;
        if let Some(t) = map.get(bx as usize, by as usize) {
            if !is_barrier(*t) {
                crossings.push((bidx, value));
            }
        }
    }
}

/// What river tile `(x, y)` adds to bank `(bx, by)` when it is scanned.
pub open spec fn step_contrib(map: TileMap, mask: Seq<bool>, bx: int, by: int, x: int, y: int) -> int {
    let w = map.width as int;
    let h = map.height as int;
    let adjacent = (bx == x - 1 && by == y) || (bx == x + 1 && by == y) || (bx == x && by == y - 1)
        || (bx == x && by == y + 1);
    if adjacent && narrow_river(mask, w, h, x, y) && bank_tile(map, bx, by) {
        crossing_value(mask, w, h, x, y)
    } else {
        0
    }
}

proof fn lemma_term_step(map: TileMap, mask: Seq<bool>, bx: int, by: int, rx: int, ry: int, x: int, y: int)
    requires
        0 <= x < map.width,
        0 <= y < map.height,
    ensures
        bank_from(map, mask, bx, by, rx, ry, tile_index(x, y, map.width as int) + 1) == if rx == x && ry == y {
            bank_from(map, mask, bx, by, rx, ry, map.width * map.height + tile_index(x, y, map.width as int) + 1)
        } else {
            bank_from(map, mask, bx, by, rx, ry, tile_index(x, y, map.width as int))
        },
        rx == x && ry == y ==> bank_from(map, mask, bx, by, rx, ry, tile_index(x, y, map.width as int)) == 0,
{
    let w = map.width as int;
    let h = map.height as int;
    let t = tile_index(x, y, w);
    if tile_index(rx, ry, w) == t && narrow_river(mask, w, h, rx, ry) {
        lemma_tile_index_injective(rx, ry, x, y, w);
    }
    lemma_tile_index_bounds(x, y, w, h);
}

proof fn lemma_bank_step(map: TileMap, mask: Seq<bool>, bx: int, by: int, x: int, y: int)
    requires
        0 <= x < map.width,
        0 <= y < map.height,
    ensures
        bank_value_below(map, mask, bx, by, tile_index(x, y, map.width as int) + 1) == kmin(
            bank_value_below(map, mask, bx, by, tile_index(x, y, map.width as int)),
            step_contrib(map, mask, bx, by, x, y),
        ),
{
    lemma_term_step(map, mask, bx, by, bx + 1, by, x, y);
    lemma_term_step(map, mask, bx, by, bx - 1, by, x, y);
    lemma_term_step(map, mask, bx, by, bx, by + 1, x, y);
    lemma_term_step(map, mask, bx, by, bx, by - 1, x, y);
    let w = map.width as int;
    let h = map.height as int;
    lemma_tile_index_bounds(x, y, w, h);
}

/// Scanning tile `(x, y)` keeps the entry list in step with the bank values.
proof fn lemma_scan_step(
    map: TileMap,
    mask: Seq<bool>,
    x: int,
    y: int,
    before: Seq<(usize, u16)>,
    after: Seq<(usize, u16)>,
)
    requires
        map.wf(),
        0 <= x < map.width,
        0 <= y < map.height,
        forall|bx: int, by: int|
            0 <= bx < map.width && 0 <= by < map.height ==> entry_min(after, #[trigger] tile_index(bx, by, map.width as int))
                == kmin(entry_min(before, tile_index(bx, by, map.width as int)), step_contrib(map, mask, bx, by, x, y)),
        forall|bx: int, by: int|
            0 <= bx < map.width && 0 <= by < map.height ==> entry_min(before, #[trigger] tile_index(bx, by, map.width as int))
                == bank_value_below(map, mask, bx, by, tile_index(x, y, map.width as int)),
    ensures
        forall|bx: int, by: int|
            0 <= bx < map.width && 0 <= by < map.height ==> entry_min(after, #[trigger] tile_index(bx, by, map.width as int))
                == bank_value_below(map, mask, bx, by, tile_index(x, y, map.width as int) + 1),
{
    assert forall|bx: int, by: int|
        0 <= bx < map.width && 0 <= by < map.height implies entry_min(after, #[trigger] tile_index(bx, by, map.width as int))
            == bank_value_below(map, mask, bx, by, tile_index(x, y, map.width as int) + 1) by {
        lemma_bank_step(map, mask, bx, by, x, y);
    }
}

/// Effect of one conditional push on the entry minima of in-bounds tiles.
proof fn lemma_push_effect(
    map: TileMap,
    es: Seq<(usize, u16)>,
    es2: Seq<(usize, u16)>,
    qx: int,
    qy: int,
    v: u16,
    pushed: bool,
)
    requires
        map.wf(),
        pushed ==> 0 <= qx < map.width && 0 <= qy < map.height,
        es2 == if pushed {
            es.push((tile_index(qx, qy, map.width as int) as usize, v))
        } else {
            es
        },
    ensures
        forall|bx: int, by: int|
            0 <= bx < map.width && 0 <= by < map.height ==> entry_min(es2, #[trigger] tile_index(bx, by, map.width as int))
                == if pushed && bx == qx && by == qy {
                kmin(entry_min(es, tile_index(bx, by, map.width as int)), v as int)
            } else {
                entry_min(es, tile_index(bx, by, map.width as int))
            },
{
    let w = map.width as int;
    let h = map.height as int;
    if pushed {
        lemma_tile_index_bounds(qx, qy, w, h);
        assert forall|bx: int, by: int|
            0 <= bx < map.width && 0 <= by < map.height implies entry_min(es2, #[trigger] tile_index(bx, by, w))
                == if bx == qx && by == qy {
                kmin(entry_min(es, tile_index(bx, by, w)), v as int)
            } else {
                entry_min(es, tile_index(bx, by, w))
            } by {
            lemma_entry_min_push(es, (tile_index(qx, qy, w) as usize, v), tile_index(bx, by, w));
            lemma_tile_index_bounds(bx, by, w, h);
            if tile_index(bx, by, w) == tile_index(qx, qy, w) {
                lemma_tile_index_injective(bx, by, qx, qy, w);
            }
        }
    }
}

/// Scan tile `(x, y)`: if it is a narrow river tile, record its walkable banks.
fn scan_river_tile(map: &TileMap, river_mask: &[bool], x: usize, y: usize, crossings: &mut Vec<(usize, u16)>)
    requires
        map.wf(),
        river_mask@.len() == map.width * map.height,
        fits_i32(map.width as int, map.height as int),
        x < map.width,
        y < map.height,
        forall|i: int| 0 <= i < old(crossings)@.len() ==> (#[trigger] old(crossings)@[i]).0 < map.width * map.height && 1 <= old(crossings)@[i].1 <= 4,
        forall|bx: int, by: int|
            0 <= bx < map.width && 0 <= by < map.height ==> entry_min(old(crossings)@, #[trigger] tile_index(bx, by, map.width as int))
                == bank_value_below(*map, river_mask@, bx, by, tile_index(x as int, y as int, map.width as int)),
    ensures
        forall|i: int| 0 <= i < final(crossings)@.len() ==> (#[trigger] final(crossings)@[i]).0 < map.width * map.height && 1 <= final(crossings)@[i].1 <= 4,
        forall|bx: int, by: int|
            0 <= bx < map.width && 0 <= by < map.height ==> entry_min(final(crossings)@, #[trigger] tile_index(bx, by, map.width as int))
                == bank_value_below(*map, river_mask@, bx, by, tile_index(x as int, y as int, map.width as int) + 1),
{
    let width = map.width;
    let height = map.height;
    let ghost mask = river_mask@;
    let ghost w = width as int;
    let ghost h = height as int;
    proof {
        lemma_tile_index_bounds(x as int, y as int, w, h);
    }
    let idx = y * width + x;
    let ghost t = idx as int;
    let ghost before = crossings@;
    if river_mask[idx] {
        // Measure river width in E-W and N-S directions
        let rw_ew = measure_river_width(map, river_mask, x, y, 1, 0, width, height);
        let rw_ns = measure_river_width(map, river_mask, x, y, 0, 1, width, height);
        let min_rw = if rw_ew <= rw_ns {
            rw_ew
        } else {
            rw_ns
        };
        if min_rw <= 3 {
            let value = min_rw + 1;
            let xi = x as i32;
            let yi = y as i32;
            // Mark adjacent walkable (non-barrier) bank tiles
            push_bank(map, crossings, xi - 1, yi, value);
            let ghost c1 = crossings@;
            push_bank(map, crossings, xi + 1, yi, value);
            let ghost c2 = crossings@;
            push_bank(map, crossings, xi, yi - 1, value);
            let ghost c3 = crossings@;
            push_bank(map, crossings, xi, yi + 1, value);
            proof {
                let m = *map;
                let (xx, yy) = (x as int, y as int);
                lemma_push_effect(m, before, c1, xx - 1, yy, value, xx - 1 >= 0 && bank_tile(m, xx - 1, yy));
                lemma_push_effect(m, c1, c2, xx + 1, yy, value, bank_tile(m, xx + 1, yy));
                lemma_push_effect(m, c2, c3, xx, yy - 1, value, yy - 1 >= 0 && bank_tile(m, xx, yy - 1));
                lemma_push_effect(m, c3, crossings@, xx, yy + 1, value, bank_tile(m, xx, yy + 1));
                lemma_scan_step(m, mask, xx, yy, before, crossings@);
            }
        } else {
            proof {
                lemma_scan_step(*map, mask, x as int, y as int, before, crossings@);
            }
        }
    } else {
        proof {
            lemma_scan_step(*map, mask, x as int, y as int, before, crossings@);
        }
    }
}

/// Detect river crossings: find narrow river segments and mark adjacent walkable
/// tiles. Each entry is a bank tile index and its corridor value (river width + 1).
fn detect_river_crossings(map: &TileMap, river_mask: &[bool], width: usize, height: usize) -> (r: Vec<(usize, u16)>)
    requires
        map.wf(),
        width == map.width,
        height == map.height,
        river_mask@.len() == width * height,
        fits_i32(width as int, height as int),
    ensures
        forall|i: int| 0 <= i < r@.len() ==> (#[trigger] r@[i]).0 < width * height && 1 <= r@[i].1 <= 4,
        forall|x: int, y: int|
            0 <= x < width && 0 <= y < height ==> entry_min(r@, #[trigger] tile_index(x, y, width as int))
                == bank_value(*map, river_mask@, x, y),
{
    let ghost mask = river_mask@;
    let ghost w = width as int;
    let ghost h = height as int;
    let mut crossings: Vec<(usize, u16)> = Vec::new();
    let mut y: usize = 0;
    while y < height
        invariant
            map.wf(),
            width == map.width,
            height == map.height,
            river_mask@ == mask,
            mask.len() == width * height,
            w == width,
            h == height,
            fits_i32(w, h),
            y <= height,
            forall|i: int| 0 <= i < crossings@.len() ==> (#[trigger] crossings@[i]).0 < width * height && 1 <= crossings@[i].1 <= 4,
            forall|bx: int, by: int|
                0 <= bx < width && 0 <= by < height ==> entry_min(crossings@, #[trigger] tile_index(bx, by, w))
                    == bank_value_below(*map, mask, bx, by, y * w),
        decreases height - y,
    {
        let mut x: usize = 0;
        while x < width
            invariant
                map.wf(),
                width == map.width,
                height == map.height,
                river_mask@ == mask,
                mask.len() == width * height,
                w == width,
                h == height,
                fits_i32(w, h),
                y < height,
                x <= width,
                forall|i: int| 0 <= i < crossings@.len() ==> (#[trigger] crossings@[i]).0 < width * height && 1 <= crossings@[i].1 <= 4,
                forall|bx: int, by: int|
                    0 <= bx < width && 0 <= by < height ==> entry_min(crossings@, #[trigger] tile_index(bx, by, w))
                        == bank_value_below(*map, mask, bx, by, y * w + x),
            decreases width - x,
        {
            scan_river_tile(map, river_mask, x, y, &mut crossings);
            x = x + 1;
        }
        proof {
            assert((y + 1) * w == y * w + w) by (nonlinear_arith);
        }
        y = y + 1;
    }
    proof {
        assert forall|x: int, y: int|
            0 <= x < width && 0 <= y < height implies entry_min(crossings@, #[trigger] tile_index(x, y, w))
                == bank_value(*map, mask, x, y) by {
            assert(height * w == w * h) by (nonlinear_arith)
                requires h == height;
        }
    }
    crossings
}

proof fn lemma_entry_min_take(es: Seq<(usize, u16)>, j: int, b: int)
    requires
        0 <= j < es.len(),
    ensures
        entry_min(es.take(j + 1), b) == if es[j].0 == b {
            kmin(entry_min(es.take(j), b), es[j].1 as int)
        } else {
            entry_min(es.take(j), b)
        },
{
    assert(es.take(j + 1) =~= es.take(j).push(es[j]));
    lemma_entry_min_push(es.take(j), es[j], b);
}

/// Pass 1: corridor value of every tile from perpendicular ray casting.
fn ray_pass(map: &TileMap) -> (scores: Vec<u16>)
    requires
        map.wf(),
        fits_i32(map.width as int, map.height as int),
    ensures
        scores@.len() == map.width * map.height,
        forall|x: int, y: int|
            0 <= x < map.width && 0 <= y < map.height ==> #[trigger] scores@[tile_index(x, y, map.width as int)]
                == ray_corridor(*map, x, y),
        forall|i: int| 0 <= i < scores@.len() ==> #[trigger] scores@[i] <= 8,
{
    let width = map.width;
    let height = map.height;
    let ghost w = width as int;
    let ghost h = height as int;
    let n = width * height;
    let mut scores: Vec<u16> = vec![0u16; n];
    proof {
        assert forall|bx: int, by: int|
            0 <= bx < width && 0 <= by < height implies #[trigger] scores@[tile_index(bx, by, w)] == 0 by {
            lemma_tile_index_bounds(bx, by, w, h);
        }
        assert forall|i: int| 0 <= i < scores@.len() implies #[trigger] scores@[i] <= 8 by {
            assert(scores@[i] == 0);
        }
    }
    // Pass 1: perpendicular ray-cast for every walkable, non-barrier tile
    let mut y: usize = 0;
    while y < height
        invariant
            map.wf(),
            width == map.width,
            height == map.height,
            w == width,
            h == height,
            n == width * height,
            fits_i32(w, h),
            y <= height,
            scores@.len() == n,
            forall|i: int| 0 <= i < scores@.len() ==> #[trigger] scores@[i] <= 8,
            forall|bx: int, by: int|
                0 <= bx < width && 0 <= by < height ==> #[trigger] scores@[tile_index(bx, by, w)] == if by < y {
                    ray_corridor(*map, bx, by)
                } else {
                    0
                },
        decreases height - y,
    {
        let mut x: usize = 0;
        while x < width
            invariant
                map.wf(),
                width == map.width,
                height == map.height,
                w == width,
                h == height,
                n == width * height,
                fits_i32(w, h),
                y < height,
                x <= width,
                scores@.len() == n,
                forall|i: int| 0 <= i < scores@.len() ==> #[trigger] scores@[i] <= 8,
                forall|bx: int, by: int|
                    0 <= bx < width && 0 <= by < height ==> #[trigger] scores@[tile_index(bx, by, w)] == if by < y
                        || (by == y && bx < x) {
                        ray_corridor(*map, bx, by)
                    } else {
                        0
                    },
            decreases width - x,
        {
            proof {
                lemma_tile_index_bounds(x as int, y as int, w, h);
            }
            let idx = y * width + x;
            let mut barrier_tile = false;
            if let Some(t) = map.get(x, y) {
                if is_barrier(*t) {
                    barrier_tile = true;  // barrier tiles score 0
                }
            }
            if !barrier_tile {
                let min_w = compute_min_width(map, x, y);
                let value = if min_w <= 8 {
                    min_w
                } else {
                    0
                };
                scores.set(idx, value);
            }
            proof {
                assert forall|bx: int, by: int|
                    0 <= bx < width && 0 <= by < height implies #[trigger] scores@[tile_index(bx, by, w)]
                        == if by < y || (by == y && bx < x + 1) {
                        ray_corridor(*map, bx, by)
                    } else {
                        0
                    } by {
                    lemma_tile_index_bounds(bx, by, w, h);
                    if tile_index(bx, by, w) == idx as int {
                        lemma_tile_index_injective(bx, by, x as int, y as int, w);
                    }
                }
            }
            x = x + 1;
        }
        y = y + 1;
    }
    proof {
        assert(height * w == w * h) by (nonlinear_arith)
            requires
                h == height,
        ;
    }
    scores
}

/// Pass 2: narrow river crossings raise the scores of their banks, when the
/// mask covers the whole map.
#[verifier::rlimit(40)]
fn river_pass(map: &TileMap, river_mask: &[bool], scores: &mut Vec<u16>)
    requires
        map.wf(),
        fits_i32(map.width as int, map.height as int),
        old(scores)@.len() == map.width * map.height,
        forall|x: int, y: int|
            0 <= x < map.width && 0 <= y < map.height ==> #[trigger] old(scores)@[tile_index(x, y, map.width as int)]
                == ray_corridor(*map, x, y),
        forall|i: int| 0 <= i < old(scores)@.len() ==> #[trigger] old(scores)@[i] <= 8,
    ensures
        final(scores)@.len() == map.width * map.height,
        forall|x: int, y: int|
            0 <= x < map.width && 0 <= y < map.height ==> #[trigger] final(scores)@[tile_index(x, y, map.width as int)]
                == corridor(*map, river_mask@, x, y),
        forall|i: int| 0 <= i < final(scores)@.len() ==> #[trigger] final(scores)@[i] <= 8,
{
    let width = map.width;
    let height = map.height;
    let ghost w = width as int;
    let ghost h = height as int;
    let n = width * height;
    // Pass 2: river crossing detection
    // For narrow river segments (width <= 3), mark adjacent walkable bank tiles.
    if river_mask.len() == n {
        let crossings = detect_river_crossings(map, river_mask, width, height);
        let ghost es = crossings@;
        let mut j: usize = 0;
        while j < crossings.len()
            invariant
                map.wf(),
                width == map.width,
                height == map.height,
                w == width,
                h == height,
                n == width * height,
                crossings@ == es,
                forall|i: int| 0 <= i < es.len() ==> (#[trigger] es[i]).0 < n && 1 <= es[i].1 <= 4,
                j <= es.len(),
                scores@.len() == n,
                forall|i: int| 0 <= i < scores@.len() ==> #[trigger] scores@[i] <= 8,
                forall|bx: int, by: int|
                    0 <= bx < width && 0 <= by < height ==> #[trigger] scores@[tile_index(bx, by, w)] == kmin(
                        ray_corridor(*map, bx, by),
                        entry_min(es.take(j as int), tile_index(bx, by, w)),
                    ),
            decreases es.len() - j,
        {
            let (idx, value) = crossings[j];
            if idx < n && (scores[idx] == 0 || value < scores[idx]) {
                scores.set(idx, value);
            }
            proof {
                assert forall|bx: int, by: int|
                    0 <= bx < width && 0 <= by < height implies #[trigger] scores@[tile_index(bx, by, w)] == kmin(
                        ray_corridor(*map, bx, by),
                        entry_min(es.take(j + 1), tile_index(bx, by, w)),
                    ) by {
                    lemma_entry_min_take(es, j as int, tile_index(bx, by, w));
                    lemma_tile_index_bounds(bx, by, w, h);
                }
            }
            j = j + 1;
        }
        proof {
            assert(es.take(es.len() as int) =~= es);
        }
    }
}

/// Corridor value of every tile, row by row: pass 1 casts rays from every
/// non-barrier tile, pass 2 lets narrow river crossings raise bank scores.
fn corridor_grid(map: &TileMap, river_mask: &[bool]) -> (scores: Vec<u16>)
    requires
        map.wf(),
        fits_i32(map.width as int, map.height as int),
    ensures
        scores@.len() == map.width * map.height,
        forall|x: int, y: int|
            0 <= x < map.width && 0 <= y < map.height ==> #[trigger] scores@[tile_index(x, y, map.width as int)]
                == corridor(*map, river_mask@, x, y),
        forall|i: int| 0 <= i < scores@.len() ==> #[trigger] scores@[i] <= 8,
{
    let mut scores = ray_pass(map);
    river_pass(map, river_mask, &mut scores);
    scores
}

/// A discrete chokepoint: a cluster of narrow tiles forming a pass, ford, or narrow.
/// Its score is `1 / width`.
#[derive(Clone, Copy, Debug)]
pub struct ChokepointLocation {
    /// Center tile (narrowest tile of the cluster).
    pub x: usize,
    pub y: usize,
    /// Corridor width at the narrowest point (tiles).
    pub width: u16,
    /// Primary axis of the corridor (direction traffic flows through).
    pub axis: (i32, i32),
    /// What kind of chokepoint.
    pub kind: ChokepointKind,
}

/// Direction traffic flows through `(x, y)`: across the narrower of the E-W
/// and N-S extents.
pub open spec fn axis_of(map: TileMap, x: int, y: int) -> (i32, i32) {
    let width_ew = ray_len(map, x, y, 1, 0) + ray_len(map, x, y, -1, 0) - 1;
    let width_ns = ray_len(map, x, y, 0, -1) + ray_len(map, x, y, 0, 1) - 1;
    if width_ew <= width_ns {
        (0i32, 1i32)  // narrow E-W -> traffic flows N-S

    } else {
        (1i32, 0i32)  // narrow N-S -> traffic flows E-W

    }
}

/// One of the four orthogonal neighbours of `p` is a river tile.
pub open spec fn touches_river(map: TileMap, mask: Seq<bool>, p: (int, int)) -> bool {
    let w = map.width as int;
    let h = map.height as int;
    &&& mask.len() == w * h
    &&& (is_river(mask, w, h, p.0 - 1, p.1) || is_river(mask, w, h, p.0 + 1, p.1) || is_river(mask, w, h, p.0, p.1 - 1)
        || is_river(mask, w, h, p.0, p.1 + 1))
}

/// Tile `(x, y)` is open water.
pub open spec fn water_at(map: TileMap, x: int, y: int) -> bool {
    map.at(x, y) matches Some(t) && t is Water
}

/// Tile `(x, y)` is a mountain or a cliff.
pub open spec fn rock_at(map: TileMap, x: int, y: int) -> bool {
    map.at(x, y) matches Some(t) && (t is Mountain || t is Cliff)
}

/// One of the four orthogonal neighbours of `p` is open water.
pub open spec fn touches_water(map: TileMap, p: (int, int)) -> bool {
    water_at(map, p.0 - 1, p.1) || water_at(map, p.0 + 1, p.1) || water_at(map, p.0, p.1 - 1) || water_at(map, p.0, p.1 + 1)
}

/// One of the four orthogonal neighbours of `p` is a mountain or a cliff.
pub open spec fn touches_rock(map: TileMap, p: (int, int)) -> bool {
    rock_at(map, p.0 - 1, p.1) || rock_at(map, p.0 + 1, p.1) || rock_at(map, p.0, p.1 - 1) || rock_at(map, p.0, p.1 + 1)
}

/// Kind of a cluster from what borders it: a river anywhere makes a river
/// crossing; open water together with mountains or cliffs makes a coastal
/// narrow; anything else is a mountain pass.
pub open spec fn kind_of(map: TileMap, mask: Seq<bool>, cluster: Set<(int, int)>) -> ChokepointKind {
    if exists|t: (int, int)| cluster.contains(t) && #[trigger] touches_river(map, mask, t) {
        ChokepointKind::RiverCrossing
    } else if (exists|t: (int, int)| cluster.contains(t) && #[trigger] touches_water(map, t))
        && (exists|t: (int, int)| cluster.contains(t) && #[trigger] touches_rock(map, t)) {
        ChokepointKind::CoastalNarrow
    } else {
        ChokepointKind::MountainPass
    }
}

/// Classify a chokepoint cluster by examining the barrier types around it.
fn classify_chokepoint(
    component: &Vec<(usize, usize)>,
    map: &TileMap,
    river_mask: &[bool],
    width: usize,
    height: usize,
    _center_x: usize,
    _center_y: usize,
) -> (kind: ChokepointKind)
    requires
        map.wf(),
        width == map.width,
        height == map.height,
        fits_i32(width as int, height as int),
        forall|i: int| 0 <= i < component@.len() ==> (#[trigger] component@[i]).0 < width && component@[i].1 < height,
    ensures
        kind == kind_of(*map, river_mask@, component@.map_values(|p: (usize, usize)| ipair(p)).to_set()),
{
    let ghost m = *map;
    let ghost mask = river_mask@;
    let ghost f = |p: (usize, usize)| ipair(p);
    let n = width * height;
    let mut has_adjacent_river = false;
    let mut has_water_barrier = false;
    let mut has_mountain_barrier = false;
    let mut i: usize = 0;
    while i < component.len()
        invariant
            map.wf(),
            m == *map,
            mask == river_mask@,
            width == map.width,
            height == map.height,
            n == width * height,
            fits_i32(width as int, height as int),
            forall|j: int| 0 <= j < component@.len() ==> (#[trigger] component@[j]).0 < width && component@[j].1 < height,
            i <= component@.len(),
            has_adjacent_river == exists|j: int| 0 <= j < i && #[trigger] touches_river(m, mask, ipair(component@[j])),
            has_water_barrier == exists|j: int| 0 <= j < i && #[trigger] touches_water(m, ipair(component@[j])),
            has_mountain_barrier == exists|j: int| 0 <= j < i && #[trigger] touches_rock(m, ipair(component@[j])),
        decreases component@.len() - i,
    {
        let (cx, cy) = component[i];
        let ghost p = ipair(component@[i as int]);
        let ghost hr = has_adjacent_river;
        let ghost hw = has_water_barrier;
        let ghost hm = has_mountain_barrier;
        let (r0, w0, k0) = probe_neighbour(map, river_mask, cx, cy, -1, 0);
        let (r1, w1, k1) = probe_neighbour(map, river_mask, cx, cy, 1, 0);
        let (r2, w2, k2) = probe_neighbour(map, river_mask, cx, cy, 0, -1);
        let (r3, w3, k3) = probe_neighbour(map, river_mask, cx, cy, 0, 1);
        let river_here = r0 || r1 || r2 || r3;
        let water_here = w0 || w1 || w2 || w3;
        let rock_here = k0 || k1 || k2 || k3;
        has_adjacent_river = has_adjacent_river || river_here;
        has_water_barrier = has_water_barrier || water_here;
        has_mountain_barrier = has_mountain_barrier || rock_here;
        proof {
            assert(has_adjacent_river == exists|j: int| 0 <= j < i + 1 && #[trigger] touches_river(m, mask, ipair(component@[j]))) by {
                if river_here { assert(touches_river(m, mask, ipair(component@[i as int]))); }
            }
            assert(has_water_barrier == exists|j: int| 0 <= j < i + 1 && #[trigger] touches_water(m, ipair(component@[j]))) by {
                if water_here { assert(touches_water(m, ipair(component@[i as int]))); }
            }
            assert(has_mountain_barrier == exists|j: int| 0 <= j < i + 1 && #[trigger] touches_rock(m, ipair(component@[j]))) by {
                if rock_here { assert(touches_rock(m, ipair(component@[i as int]))); }
            }
        }
        i = i + 1;
    }
    proof {
        let cluster = component@.map_values(f).to_set();
        assert(has_adjacent_river == exists|t: (int, int)| cluster.contains(t) && #[trigger] touches_river(m, mask, t)) by {
            if has_adjacent_river {
                let j = choose|j: int| 0 <= j < component@.len() && #[trigger] touches_river(m, mask, ipair(component@[j]));
                assert(component@.map_values(f)[j] == ipair(component@[j]));
                assert(cluster.contains(ipair(component@[j])));
            }
            if exists|t: (int, int)| cluster.contains(t) && #[trigger] touches_river(m, mask, t) {
                let t = choose|t: (int, int)| cluster.contains(t) && #[trigger] touches_river(m, mask, t);
                let j = choose|j: int| 0 <= j < component@.map_values(f).len() && component@.map_values(f)[j] == t;
                assert(touches_river(m, mask, ipair(component@[j])));
            }
        }
        assert(has_water_barrier == exists|t: (int, int)| cluster.contains(t) && #[trigger] touches_water(m, t)) by {
            if has_water_barrier {
                let j = choose|j: int| 0 <= j < component@.len() && #[trigger] touches_water(m, ipair(component@[j]));
                assert(component@.map_values(f)[j] == ipair(component@[j]));
                assert(cluster.contains(ipair(component@[j])));
            }
            if exists|t: (int, int)| cluster.contains(t) && #[trigger] touches_water(m, t) {
                let t = choose|t: (int, int)| cluster.contains(t) && #[trigger] touches_water(m, t);
                let j = choose|j: int| 0 <= j < component@.map_values(f).len() && component@.map_values(f)[j] == t;
                assert(touches_water(m, ipair(component@[j])));
            }
        }
        assert(has_mountain_barrier == exists|t: (int, int)| cluster.contains(t) && #[trigger] touches_rock(m, t)) by {
            if has_mountain_barrier {
                let j = choose|j: int| 0 <= j < component@.len() && #[trigger] touches_rock(m, ipair(component@[j]));
                assert(component@.map_values(f)[j] == ipair(component@[j]));
                assert(cluster.contains(ipair(component@[j])));
            }
            if exists|t: (int, int)| cluster.contains(t) && #[trigger] touches_rock(m, t) {
                let t = choose|t: (int, int)| cluster.contains(t) && #[trigger] touches_rock(m, t);
                let j = choose|j: int| 0 <= j < component@.map_values(f).len() && component@.map_values(f)[j] == t;
                assert(touches_rock(m, ipair(component@[j])));
            }
        }
    }
    if has_adjacent_river {
        ChokepointKind::RiverCrossing
    } else if has_water_barrier && has_mountain_barrier {
        ChokepointKind::CoastalNarrow
    } else {
        ChokepointKind::MountainPass
    }
}

/// Look at the neighbour `(cx + dx, cy + dy)`: is it a river tile, open
/// water, or a mountain/cliff?
fn probe_neighbour(map: &TileMap, river_mask: &[bool], cx: usize, cy: usize, dx: i32, dy: i32) -> (r: (bool, bool, bool))
    requires
        map.wf(),
        fits_i32(map.width as int, map.height as int),
        cx < map.width,
        cy < map.height,
        -1 <= dx <= 1,
        -1 <= dy <= 1,
    ensures
        r.0 == (river_mask@.len() == map.width * map.height && is_river(
            river_mask@,
            map.width as int,
            map.height as int,
            cx + dx,
            cy + dy,
        )),
        r.1 == water_at(*map, cx + dx, cy + dy),
        r.2 == rock_at(*map, cx + dx, cy + dy),
{
    let width = map.width;
    let height = map.height;
    let n = width * height;
    let mut river = false;
    let mut water = false;
    let mut rock = false;
    let nx = cx as i32 + dx;
    let ny = cy as i32 + dy;
    if nx >= 0 && ny >= 0 && (nx as usize) < width && (ny as usize) < height {
        proof {
            lemma_tile_index_bounds(nx as int, ny as int, width as int, height as int);
        }
        let nidx = ny as usize * width + nx as usize;
        if nidx < n && river_mask.len() == n && river_mask[nidx] {
            river = true;
        }
        if let Some(t) = map.get(nx as usize, ny as usize) {
            match t {
                Terrain::Water => water = true,
                Terrain::Mountain | Terrain::Cliff => rock = true,
                _ => {},
            }
        }
    }
    (river, water, rock)
}

/// Center tile of a location.
pub open spec fn loc_center(loc: ChokepointLocation) -> (int, int) {
    (loc.x as int, loc.y as int)
}

/// `loc` describes the cluster of nonzero tiles of score grid `s` around its
/// center: the center is a narrowest tile of that cluster, the cluster has 2 to
/// 30 tiles, and the axis and kind are those of the center and the cluster.
pub open spec fn location_fits(map: TileMap, mask: Seq<bool>, s: Seq<u16>, loc: ChokepointLocation) -> bool {
    let w = map.width as int;
    let h = map.height as int;
    let c = loc_center(loc);
    let region = component(s, w, h, c);
    &&& hot(s, w, h, c)
    &&& loc.width == s[tile_index(c.0, c.1, w)]
    &&& forall|t: (int, int)| #[trigger] region.contains(t) ==> loc.width <= s[tile_index(t.0, t.1, w)]
    &&& 2 <= region.len() <= 30
    &&& loc.axis == axis_of(map, c.0, c.1)
    &&& loc.kind == kind_of(map, mask, region)
}

/// Corridor width of tile `p` in the grid `s` of width `w`.
pub open spec fn width_at(s: Seq<u16>, w: int, p: (int, int)) -> int {
    s[tile_index(p.0, p.1, w)] as int
}

/// Index in `ord` of its narrowest tile; among equally narrow tiles, the last.
pub open spec fn last_narrowest(s: Seq<u16>, w: int, ord: Seq<(int, int)>) -> int
    decreases ord.len(),
{
    if ord.len() <= 1 {
        0
    } else {
        let j = last_narrowest(s, w, ord.drop_last());
        if width_at(s, w, ord.last()) <= width_at(s, w, ord[j]) {
            ord.len() - 1
        } else {
            j
        }
    }
}

/// The center of the cluster that the scan enters at `seed`: the last of its
/// narrowest tiles in breadth-first order from `seed`.
#[verifier::opaque]
pub open spec fn cluster_center(s: Seq<u16>, w: int, h: int, seed: (int, int)) -> (int, int) {
    let ord = bfs_order(s, w, h, seed);
    ord[last_narrowest(s, w, ord)]
}

/// Index of the narrowest tile of a cluster (the highest-scoring one); among
/// equally narrow tiles, the last.
fn best_tile(scores: &[u16], width: usize, height: usize, component: &Vec<(usize, usize)>) -> (j: usize)
    requires
        scores@.len() == width * height,
        width * height <= usize::MAX,
        component@.len() >= 1,
        forall|i: int| 0 <= i < component@.len() ==> (#[trigger] component@[i]).0 < width && component@[i].1 < height,
    ensures
        j < component@.len(),
        forall|i: int|
            0 <= i < component@.len() ==> scores@[tile_index(component@[j as int].0 as int, component@[j as int].1 as int, width as int)]
                <= scores@[tile_index((#[trigger] component@[i]).0 as int, component@[i].1 as int, width as int)],
        forall|i: int|
            j < i < component@.len() ==> scores@[tile_index(component@[j as int].0 as int, component@[j as int].1 as int, width as int)]
                < scores@[tile_index((#[trigger] component@[i]).0 as int, component@[i].1 as int, width as int)],
        j == last_narrowest(scores@, width as int, ipairs(component@)),
{
    let ghost s = scores@;
    let ghost w = width as int;
    let mut best: usize = 0;
    let mut i: usize = 1;
    proof {
        lemma_tile_index_bounds(component@[0].0 as int, component@[0].1 as int, w, height as int);
    }
    let mut best_score = scores[component[0].1 * width + component[0].0];
    while i < component.len()
        invariant
            scores@ == s,
            s.len() == width * height,
            w == width,
            width * height <= usize::MAX,
            forall|k: int| 0 <= k < component@.len() ==> (#[trigger] component@[k]).0 < width && component@[k].1 < height,
            1 <= i <= component@.len(),
            best < i,
            best_score == s[tile_index(component@[best as int].0 as int, component@[best as int].1 as int, w)],
            forall|k: int| 0 <= k < i ==> best_score <= s[tile_index((#[trigger] component@[k]).0 as int, component@[k].1 as int, w)],
            forall|k: int| best < k < i ==> best_score < s[tile_index((#[trigger] component@[k]).0 as int, component@[k].1 as int, w)],
            best == last_narrowest(s, w, ipairs(component@).take(i as int)),
        decreases component@.len() - i,
    {
        let (cx, cy) = component[i];
        proof {
            lemma_tile_index_bounds(cx as int, cy as int, w, height as int);
            let ord = ipairs(component@);
            assert(ord.take(i + 1).drop_last() =~= ord.take(i as int));
            assert(ord.take(i + 1).last() == (cx as int, cy as int));
            assert(ord.take(i as int)[best as int] == ipair(component@[best as int]));
        }
        let sc = scores[cy * width + cx];
        if sc <= best_score {
            best = i;
            best_score = sc;
        }
        i = i + 1;
    }
    proof {
        assert(ipairs(component@).take(i as int) =~= ipairs(component@));
    }
    best
}

/// Build the location record of a cluster: its narrowest tile, corridor
/// width, traffic axis and kind.
fn make_location(
    scores: &[u16],
    map: &TileMap,
    river_mask: &[bool],
    width: usize,
    height: usize,
    component: &Vec<(usize, usize)>,
) -> (loc: ChokepointLocation)
    requires
        map.wf(),
        width == map.width,
        height == map.height,
        fits_i32(width as int, height as int),
        scores@.len() == width * height,
        component@.len() >= 1,
        forall|i: int| 0 <= i < component@.len() ==> (#[trigger] component@[i]).0 < width && component@[i].1 < height,
    ensures
        exists|j: int| 0 <= j < component@.len() && component@[j] == (loc.x, loc.y),
        loc.width == scores@[tile_index(loc.x as int, loc.y as int, width as int)],
        forall|i: int|
            0 <= i < component@.len() ==> loc.width <= scores@[tile_index((#[trigger] component@[i]).0 as int, component@[i].1 as int, width as int)],
        loc.axis == axis_of(*map, loc.x as int, loc.y as int),
        loc.kind == kind_of(*map, river_mask@, component@.map_values(|p: (usize, usize)| ipair(p)).to_set()),
        loc_center(loc) == ipairs(component@)[last_narrowest(scores@, width as int, ipairs(component@))],
{
    let j = best_tile(scores, width, height, component);
    let (best_x, best_y) = component[j];
    proof {
        lemma_tile_index_bounds(best_x as int, best_y as int, width as int, height as int);
    }
    let best_width = scores[best_y * width + best_x];
    // Determine the corridor axis (direction traffic flows through).
    // The axis is perpendicular to the barrier walls. If width_EW <= width_NS,
    // barriers are to east/west, so traffic flows north-south.
    let d_e = ray_distance(map, best_x, best_y, 1, 0);
    let d_w = ray_distance(map, best_x, best_y, -1, 0);
    let d_n = ray_distance(map, best_x, best_y, 0, -1);
    let d_s = ray_distance(map, best_x, best_y, 0, 1);
    let width_ew = d_e + d_w - 1;
    let width_ns = d_n + d_s - 1;
    let axis = if width_ew <= width_ns {
        (0, 1)  // narrow E-W -> traffic flows N-S

    } else {
        (1, 0)  // narrow N-S -> traffic flows E-W

    };
    let kind = classify_chokepoint(component, map, river_mask, width, height, best_x, best_y);
    ChokepointLocation { x: best_x, y: best_y, width: best_width, axis, kind }
}

/// Insert `loc` after every location at most as wide, keeping the list
/// ordered by width (narrowest, i.e. best, first) and stable.
fn insert_by_width(locations: &mut Vec<ChokepointLocation>, loc: ChokepointLocation) -> (pos: usize)
    requires
        forall|i: int, j: int| 0 <= i < j < old(locations)@.len() ==> old(locations)@[i].width <= old(locations)@[j].width,
    ensures
        pos <= old(locations)@.len(),
        final(locations)@ == old(locations)@.insert(pos as int, loc),
        forall|i: int| 0 <= i < pos ==> (#[trigger] old(locations)@[i]).width <= loc.width,
        forall|i: int| pos <= i < old(locations)@.len() ==> (#[trigger] old(locations)@[i]).width > loc.width,
        forall|i: int, j: int| 0 <= i < j < final(locations)@.len() ==> final(locations)@[i].width <= final(locations)@[j].width,
{
    let mut pos: usize = 0;
    while pos < locations.len() && locations[pos].width <= loc.width
        invariant
            pos <= locations@.len(),
            locations@ == old(locations)@,
            forall|i: int| 0 <= i < pos ==> (#[trigger] locations@[i]).width <= loc.width,
        decreases locations@.len() - pos,
    {
        pos = pos + 1;
    }
    proof {
        assert forall|i: int| pos <= i < old(locations)@.len() implies (#[trigger] old(locations)@[i]).width > loc.width by {
            assert(old(locations)@[pos as int].width > loc.width);
        }
    }
    locations.insert(pos, loc);
    pos
}

/// State of the clustering scan over score grid `s`: the flagged tiles form a
/// closed region, the locations found so far describe distinct flagged
/// clusters in width order, and every flagged cluster of the right size has one.
pub open spec fn cluster_inv(
    map: TileMap,
    mask: Seq<bool>,
    s: Seq<u16>,
    vis: Seq<bool>,
    locs: Seq<ChokepointLocation>,
) -> bool {
    let w = map.width as int;
    let h = map.height as int;
    &&& vis.len() == w * h
    &&& closed_grid(s, w, h, vis)
    &&& forall|i: int|
        0 <= i < locs.len() ==> {
            &&& location_fits(map, mask, s, #[trigger] locs[i])
            &&& vis[tile_index(locs[i].x as int, locs[i].y as int, w)]
        }
    &&& forall|i: int, j: int|
        0 <= i < locs.len() && 0 <= j < locs.len() && i != j ==> !connected(s, w, h, loc_center(#[trigger] locs[i]), loc_center(#[trigger] locs[j]))
    &&& forall|i: int, j: int| 0 <= i < j < locs.len() ==> locs[i].width <= locs[j].width
    &&& forall|tx: int, ty: int|
        0 <= tx < w && 0 <= ty < h && #[trigger] vis[tile_index(tx, ty, w)] && 2 <= component(s, w, h, (tx, ty)).len() <= 30
            ==> exists|i: int| 0 <= i < locs.len() && connected(s, w, h, loc_center(#[trigger] locs[i]), (tx, ty))
}

proof fn lemma_component_size(s: Seq<u16>, w: int, h: int, comp: Seq<(usize, usize)>, start: (int, int))
    requires
        comp.no_duplicates(),
        comp.map_values(|p: (usize, usize)| ipair(p)).to_set() == component(s, w, h, start),
    ensures
        component(s, w, h, start).len() == comp.len(),
        component(s, w, h, start).finite(),
{
    let f = |p: (usize, usize)| ipair(p);
    let m = comp.map_values(f);
    assert forall|i: int, j: int| 0 <= i < m.len() && 0 <= j < m.len() && i != j implies m[i] != m[j] by {
        assert(comp[i] != comp[j]);
    }
    assert(m.no_duplicates());
    m.unique_seq_to_set();
}

/// One flood-filled cluster (and, if its size fits, its location) keeps the scan state.
proof fn lemma_cluster_step(
    map: TileMap,
    mask: Seq<bool>,
    s: Seq<u16>,
    vis0: Seq<bool>,
    vis1: Seq<bool>,
    locs0: Seq<ChokepointLocation>,
    locs1: Seq<ChokepointLocation>,
    comp: Seq<(usize, usize)>,
    start: (int, int),
    pos: int,
    loc: ChokepointLocation,
)
    requires
        map.wf(),
        s.len() == map.width * map.height,
        cluster_inv(map, mask, s, vis0, locs0),
        vis1.len() == map.width * map.height,
        closed_grid(s, map.width as int, map.height as int, vis1),
        comp.len() >= 1,
        comp.no_duplicates(),
        forall|i: int|
            0 <= i < comp.len() ==> {
                &&& (#[trigger] comp[i]).0 < map.width
                &&& comp[i].1 < map.height
                &&& !vis0[tile_index(comp[i].0 as int, comp[i].1 as int, map.width as int)]
                &&& connected(s, map.width as int, map.height as int, start, ipair(comp[i]))
            },
        forall|tx: int, ty: int|
            0 <= tx < map.width && 0 <= ty < map.height ==> #[trigger] vis1[tile_index(tx, ty, map.width as int)]
                == (vis0[tile_index(tx, ty, map.width as int)] || comp.contains((tx as usize, ty as usize))),
        comp.map_values(|p: (usize, usize)| ipair(p)).to_set() == component(s, map.width as int, map.height as int, start),
        2 <= comp.len() <= 30 ==> {
            &&& 0 <= pos <= locs0.len()
            &&& locs1 == locs0.insert(pos, loc)
            &&& (exists|j: int| 0 <= j < comp.len() && comp[j] == (loc.x, loc.y))
            &&& loc.width == s[tile_index(loc.x as int, loc.y as int, map.width as int)]
            &&& (forall|i: int|
                0 <= i < comp.len() ==> loc.width <= s[tile_index((#[trigger] comp[i]).0 as int, comp[i].1 as int, map.width as int)])
            &&& loc.axis == axis_of(map, loc.x as int, loc.y as int)
            &&& loc.kind == kind_of(map, mask, comp.map_values(|p: (usize, usize)| ipair(p)).to_set())
            &&& (forall|i: int, j: int| 0 <= i < j < locs1.len() ==> locs1[i].width <= locs1[j].width)
        },
        !(2 <= comp.len() <= 30) ==> locs1 == locs0,
    ensures
        cluster_inv(map, mask, s, vis1, locs1),
{
    let w = map.width as int;
    let h = map.height as int;
    let f = |p: (usize, usize)| ipair(p);
    let region = component(s, w, h, start);
    lemma_component_size(s, w, h, comp, start);
    // every new tile lies in the start's region
    assert forall|i: int| 0 <= i < comp.len() implies component(s, w, h, ipair(#[trigger] comp[i])) == region by {
        lemma_same_component(s, w, h, start, ipair(comp[i]));
    }
    // old centers are flagged before; new tiles are not connected to them
    assert forall|i: int, k: int| 0 <= i < locs0.len() && 0 <= k < comp.len() implies !connected(
        s,
        w,
        h,
        loc_center(#[trigger] locs0[i]),
        ipair(#[trigger] comp[k]),
    ) by {
        if connected(s, w, h, loc_center(locs0[i]), ipair(comp[k])) {
            let kk = choose|kk: nat| crate::components::linked(s, w, h, loc_center(locs0[i]), ipair(comp[k]), kk);
            lemma_closed_absorbs(s, w, h, vis0, loc_center(locs0[i]), ipair(comp[k]), kk);
        }
    }
    if 2 <= comp.len() <= 30 {
        let j = choose|j: int| 0 <= j < comp.len() && comp[j] == (loc.x, loc.y);
        let c = loc_center(loc);
        assert(c == ipair(comp[j]));
        assert(component(s, w, h, c) == region);
        // the location fits its cluster
        assert forall|t: (int, int)| #[trigger] component(s, w, h, c).contains(t) implies loc.width <= s[tile_index(t.0, t.1, w)] by {
            let m = comp.map_values(f);
            assert(m.to_set().contains(t));
            let i = choose|i: int| 0 <= i < m.len() && m[i] == t;
            assert(m[i] == ipair(comp[i]));
        }
        crate::components::lemma_linked_hot(s, w, h, start, c, choose|kk: nat| crate::components::linked(s, w, h, start, c, kk));
        assert(location_fits(map, mask, s, loc));
        assert(vis1[tile_index(loc.x as int, loc.y as int, w)]) by {
            assert(comp.contains((loc.x, loc.y)));
        }
        // locations after insertion
        assert forall|i: int| 0 <= i < locs1.len() implies {
            &&& location_fits(map, mask, s, #[trigger] locs1[i])
            &&& vis1[tile_index(locs1[i].x as int, locs1[i].y as int, w)]
        } by {
            if i < pos {
                assert(locs1[i] == locs0[i]);
            } else if i > pos {
                assert(locs1[i] == locs0[i - 1]);
            }
        }
        assert forall|a: int, b: int|
            0 <= a < locs1.len() && 0 <= b < locs1.len() && a != b implies !connected(s, w, h, loc_center(#[trigger] locs1[a]), loc_center(#[trigger] locs1[b])) by {
            let oa = if a < pos { a } else { a - 1 };
            let ob = if b < pos { b } else { b - 1 };
            if a != pos && b != pos {
                assert(locs1[a] == locs0[oa]);
                assert(locs1[b] == locs0[ob]);
            } else if a == pos {
                assert(locs1[b] == locs0[ob]);
                if connected(s, w, h, c, loc_center(locs0[ob])) {
                    lemma_connected_symmetric(s, w, h, c, loc_center(locs0[ob]));
                    assert(!connected(s, w, h, loc_center(locs0[ob]), ipair(comp[j])));
                }
            } else {
                assert(locs1[a] == locs0[oa]);
                assert(!connected(s, w, h, loc_center(locs0[oa]), ipair(comp[j])));
            }
        }
        // coverage of the flagged clusters
        assert forall|tx: int, ty: int|
            0 <= tx < w && 0 <= ty < h && #[trigger] vis1[tile_index(tx, ty, w)] && 2 <= component(s, w, h, (tx, ty)).len() <= 30
                implies exists|i: int| 0 <= i < locs1.len() && connected(s, w, h, loc_center(#[trigger] locs1[i]), (tx, ty)) by {
            if vis0[tile_index(tx, ty, w)] {
                let i = choose|i: int| 0 <= i < locs0.len() && connected(s, w, h, loc_center(#[trigger] locs0[i]), (tx, ty));
                let i1 = if i < pos { i } else { i + 1 };
                assert(locs1[i1] == locs0[i]);
            } else {
                let k = choose|k: int| 0 <= k < comp.len() && comp[k] == (tx as usize, ty as usize);
                assert(ipair(comp[k]) == (tx, ty));
                lemma_connected_symmetric(s, w, h, start, c);
                lemma_connected_transitive(s, w, h, c, start, (tx, ty));
                assert(locs1[pos] == loc);
            }
        }
    } else {
        assert forall|tx: int, ty: int|
            0 <= tx < w && 0 <= ty < h && #[trigger] vis1[tile_index(tx, ty, w)] && 2 <= component(s, w, h, (tx, ty)).len() <= 30
                implies exists|i: int| 0 <= i < locs1.len() && connected(s, w, h, loc_center(#[trigger] locs1[i]), (tx, ty)) by {
            if !vis0[tile_index(tx, ty, w)] {
                let k = choose|k: int| 0 <= k < comp.len() && comp[k] == (tx as usize, ty as usize);
                assert(ipair(comp[k]) == (tx, ty));
            }
        }
        assert forall|i: int| 0 <= i < locs1.len() implies {
            &&& location_fits(map, mask, s, #[trigger] locs1[i])
            &&& vis1[tile_index(locs1[i].x as int, locs1[i].y as int, w)]
        } by {
            assert(vis0[tile_index(locs1[i].x as int, locs1[i].y as int, w)]);
        }
    }
}

/// Every tile of score grid `s` with row-major index below `limit` that has a
/// nonzero score is flagged in `vis`.
pub open spec fn scanned_below(s: Seq<u16>, w: int, h: int, vis: Seq<bool>, limit: int) -> bool {
    forall|tx: int, ty: int|
        0 <= tx < w && 0 <= ty < h && tile_index(tx, ty, w) < limit && hot(s, w, h, (tx, ty)) ==> #[trigger] vis[tile_index(
            tx,
            ty,
            w,
        )]
}

/// The chokepoint locations of score grid `s`: one per 4-connected cluster of
/// nonzero tiles with 2 to 30 tiles, each describing its own cluster, ordered
/// by corridor width (best first).
pub open spec fn locations_of(map: TileMap, mask: Seq<bool>, s: Seq<u16>, locs: Seq<ChokepointLocation>) -> bool {
    let w = map.width as int;
    let h = map.height as int;
    &&& forall|i: int| 0 <= i < locs.len() ==> location_fits(map, mask, s, #[trigger] locs[i])
    &&& forall|i: int, j: int|
        0 <= i < locs.len() && 0 <= j < locs.len() && i != j ==> !connected(s, w, h, loc_center(#[trigger] locs[i]), loc_center(#[trigger] locs[j]))
    &&& forall|i: int, j: int| 0 <= i < j < locs.len() ==> locs[i].width <= locs[j].width
    &&& forall|tx: int, ty: int|
        #[trigger] hot(s, w, h, (tx, ty)) && 2 <= component(s, w, h, (tx, ty)).len() <= 30 ==> exists|i: int|
            0 <= i < locs.len() && connected(s, w, h, loc_center(#[trigger] locs[i]), (tx, ty))
}

/// Equally wide locations come in scan order: a location before another of
/// the same width has a tile (in row-major order) before every tile of the
/// other's cluster.
pub open spec fn scan_ordered(s: Seq<u16>, w: int, h: int, locs: Seq<ChokepointLocation>) -> bool {
    forall|i: int, j: int|
        0 <= i < j < locs.len() && locs[i].width == locs[j].width ==> exists|t: (int, int)|
            #[trigger] component(s, w, h, loc_center(locs[i])).contains(t) && forall|u: (int, int)|
                #[trigger] component(s, w, h, loc_center(locs[j])).contains(u) ==> tile_index(t.0, t.1, w)
                    < tile_index(u.0, u.1, w)
}

/// `seed` is the first tile, in row-major order, of the cluster of `loc`.
pub open spec fn seed_of(s: Seq<u16>, w: int, h: int, loc: ChokepointLocation, seed: (int, int)) -> bool {
    &&& component(s, w, h, loc_center(loc)).contains(seed)
    &&& forall|u: (int, int)|
        #[trigger] component(s, w, h, loc_center(loc)).contains(u) ==> tile_index(seed.0, seed.1, w) <= tile_index(
            u.0,
            u.1,
            w,
        )
}

/// `loc` is centered on the last of its cluster's narrowest tiles in
/// breadth-first order from the cluster's first tile in scan order.
pub open spec fn centered(s: Seq<u16>, w: int, h: int, loc: ChokepointLocation) -> bool {
    exists|seed: (int, int)| #[trigger] seed_of(s, w, h, loc, seed) && loc_center(loc) == cluster_center(s, w, h, seed)
}

/// Every location is centered as `centered` says.
pub open spec fn centers_chosen(s: Seq<u16>, w: int, h: int, locs: Seq<ChokepointLocation>) -> bool {
    forall|i: int| 0 <= i < locs.len() ==> centered(s, w, h, #[trigger] locs[i])
}

/// The clusters found so far have their seeds before `limit`, and equally
/// wide locations are ordered by seed.
pub open spec fn seeds_inv(s: Seq<u16>, w: int, h: int, locs: Seq<ChokepointLocation>, seeds: Seq<(int, int)>, limit: int) -> bool {
    &&& seeds.len() == locs.len()
    &&& forall|i: int|
        0 <= i < locs.len() ==> #[trigger] seed_of(s, w, h, locs[i], seeds[i]) && tile_index(seeds[i].0, seeds[i].1, w) < limit
            && loc_center(locs[i]) == cluster_center(s, w, h, seeds[i])
    &&& forall|i: int, j: int|
        0 <= i < j < locs.len() && locs[i].width == locs[j].width ==> tile_index(#[trigger] seeds[i].0, seeds[i].1, w)
            < tile_index(#[trigger] seeds[j].0, seeds[j].1, w)
}

proof fn lemma_seeds_give_order(s: Seq<u16>, w: int, h: int, locs: Seq<ChokepointLocation>, seeds: Seq<(int, int)>, limit: int)
    requires
        seeds_inv(s, w, h, locs, seeds, limit),
    ensures
        scan_ordered(s, w, h, locs),
        centers_chosen(s, w, h, locs),
{
    assert forall|i: int| 0 <= i < locs.len() implies centered(s, w, h, #[trigger] locs[i]) by {
        assert(seed_of(s, w, h, locs[i], seeds[i]));
        assert(loc_center(locs[i]) == cluster_center(s, w, h, seeds[i]));
    }
    assert forall|i: int, j: int| 0 <= i < j < locs.len() && locs[i].width == locs[j].width implies exists|t: (int, int)|
        #[trigger] component(s, w, h, loc_center(locs[i])).contains(t) && forall|u: (int, int)|
            #[trigger] component(s, w, h, loc_center(locs[j])).contains(u) ==> tile_index(t.0, t.1, w)
                < tile_index(u.0, u.1, w) by {
        assert(seed_of(s, w, h, locs[i], seeds[i]));
        assert(seed_of(s, w, h, locs[j], seeds[j]));
        let t = seeds[i];
        assert(component(s, w, h, loc_center(locs[i])).contains(t));
    }
}

proof fn lemma_seeds_insert(
    s: Seq<u16>,
    w: int,
    h: int,
    locs0: Seq<ChokepointLocation>,
    seeds0: Seq<(int, int)>,
    idx: int,
    pos: int,
    loc: ChokepointLocation,
    seed: (int, int),
)
    requires
        seeds_inv(s, w, h, locs0, seeds0, idx),
        0 <= pos <= locs0.len(),
        forall|i: int| 0 <= i < pos ==> (#[trigger] locs0[i]).width <= loc.width,
        forall|i: int| pos <= i < locs0.len() ==> (#[trigger] locs0[i]).width > loc.width,
        seed_of(s, w, h, loc, seed),
        tile_index(seed.0, seed.1, w) == idx,
        loc_center(loc) == cluster_center(s, w, h, seed),
    ensures
        seeds_inv(s, w, h, locs0.insert(pos, loc), seeds0.insert(pos, seed), idx + 1),
{
    let locs1 = locs0.insert(pos, loc);
    let seeds1 = seeds0.insert(pos, seed);
    assert forall|i: int| 0 <= i < locs1.len() implies #[trigger] seed_of(s, w, h, locs1[i], seeds1[i]) && tile_index(
        seeds1[i].0,
        seeds1[i].1,
        w,
    ) < idx + 1 && loc_center(locs1[i]) == cluster_center(s, w, h, seeds1[i]) by {
        if i < pos {
            assert(seed_of(s, w, h, locs0[i], seeds0[i]));
        } else if i > pos {
            assert(seed_of(s, w, h, locs0[i - 1], seeds0[i - 1]));
        }
    }
    assert forall|i: int, j: int| 0 <= i < j < locs1.len() && locs1[i].width == locs1[j].width implies tile_index(
        #[trigger] seeds1[i].0,
        seeds1[i].1,
        w,
    ) < tile_index(#[trigger] seeds1[j].0, seeds1[j].1, w) by {
        if j < pos {
            assert(locs0[i].width == locs0[j].width);
        } else if j == pos {
            assert(seed_of(s, w, h, locs0[i], seeds0[i]));
        } else if i == pos {
            assert(locs0[j - 1].width > loc.width);
        } else if i < pos {
            assert(locs0[j - 1].width > loc.width);
            assert(locs0[i].width <= loc.width);
        } else {
            assert(locs0[i - 1].width == locs0[j - 1].width);
        }
    }
}

/// The tile where the scan starts a new cluster comes first in it: every
/// earlier hot tile was already flagged, and flags spread over clusters.
proof fn lemma_new_seed_first(s: Seq<u16>, w: int, h: int, vis: Seq<bool>, seed: (int, int), u: (int, int))
    requires
        closed_grid(s, w, h, vis),
        0 <= seed.0 < w,
        0 <= seed.1 < h,
        !vis[tile_index(seed.0, seed.1, w)],
        scanned_below(s, w, h, vis, tile_index(seed.0, seed.1, w)),
        connected(s, w, h, seed, u),
    ensures
        tile_index(seed.0, seed.1, w) <= tile_index(u.0, u.1, w),
{
    lemma_connected_symmetric(s, w, h, seed, u);
    let k = choose|k: nat| linked(s, w, h, u, seed, k);
    lemma_linked_hot(s, w, h, u, seed, k);
    if tile_index(u.0, u.1, w) < tile_index(seed.0, seed.1, w) {
        assert(vis[tile_index(u.0, u.1, w)]);
        lemma_closed_absorbs(s, w, h, vis, u, seed, k);
    }
}

/// Flood-fill connected high-score tiles into discrete chokepoint locations.
fn cluster_chokepoints(
    scores: &[u16],
    map: &TileMap,
    river_mask: &[bool],
    width: usize,
    height: usize,
) -> (locations: Vec<ChokepointLocation>)
    requires
        map.wf(),
        width == map.width,
        height == map.height,
        fits_i32(width as int, height as int),
        scores@.len() == width * height,
    ensures
        locations_of(*map, river_mask@, scores@, locations@),
        scan_ordered(scores@, width as int, height as int, locations@),
        centers_chosen(scores@, width as int, height as int, locations@),
{
    let ghost s = scores@;
    let ghost m = *map;
    let ghost mask = river_mask@;
    let ghost w = width as int;
    let ghost h = height as int;
    let n = width * height;
    let mut visited: Vec<bool> = vec![false; n];
    let mut locations: Vec<ChokepointLocation> = Vec::new();
    let ghost mut seeds: Seq<(int, int)> = Seq::empty();
    proof {
        assert forall|tx: int, ty: int| 0 <= tx < w && 0 <= ty < h implies !#[trigger] visited@[tile_index(tx, ty, w)] by {
            lemma_tile_index_bounds(tx, ty, w, h);
        }
    }
    let mut y: usize = 0;
    while y < height
        invariant
            map.wf(),
            m == *map,
            mask == river_mask@,
            scores@ == s,
            width == map.width,
            height == map.height,
            w == width,
            h == height,
            n == width * height,
            fits_i32(w, h),
            s.len() == n,
            y <= height,
            cluster_inv(m, mask, s, visited@, locations@),
            scanned_below(s, w, h, visited@, y * w),
            seeds_inv(s, w, h, locations@, seeds, y * w),
        decreases height - y,
    {
        let mut x: usize = 0;
        while x < width
            invariant
                map.wf(),
                m == *map,
                mask == river_mask@,
                scores@ == s,
                width == map.width,
                height == map.height,
                w == width,
                h == height,
                n == width * height,
                fits_i32(w, h),
                s.len() == n,
                y < height,
                x <= width,
                cluster_inv(m, mask, s, visited@, locations@),
                scanned_below(s, w, h, visited@, y * w + x),
                seeds_inv(s, w, h, locations@, seeds, y * w + x),
            decreases width - x,
        {
            proof {
                lemma_tile_index_bounds(x as int, y as int, w, h);
            }
            let idx = y * width + x;
            // Tiles below the score threshold (score 0) are skipped.
            if !visited[idx] && scores[idx] > 0 {
                let ghost vis0 = visited@;
                let ghost locs0 = locations@;
                // Flood-fill this connected component (4-connected)
                let component = flood_fill(scores, width, height, &mut visited, x, y);
                let mut pos: usize = 0;
                let mut loc = ChokepointLocation { x, y, width: 0, axis: (0, 0), kind: ChokepointKind::MountainPass };
                // Discard components smaller than 2 tiles (noise) or larger than 30 tiles (valley)
                let ghost locs_before = locations@;
                if component.len() >= 2 && component.len() <= 30 {
                    loc = make_location(scores, map, river_mask, width, height, &component);
                    pos = insert_by_width(&mut locations, loc);
                    proof {
                        let seed = (x as int, y as int);
                        let region = crate::components::component(s, w, h, seed);
                        assert(tile_index(x as int, y as int, w) == y * w + x);
                        assert(linked(s, w, h, seed, seed, 0));
                        assert(region.contains(seed));
                        let jc = choose|j: int| 0 <= j < component@.len() && component@[j] == (loc.x, loc.y);
                        assert(component@.map_values(|p: (usize, usize)| ipair(p))[jc] == loc_center(loc));
                        assert(region.contains(loc_center(loc)));
                        lemma_same_component(s, w, h, seed, loc_center(loc));
                        assert forall|u: (int, int)| #[trigger] crate::components::component(s, w, h, loc_center(loc)).contains(u) implies tile_index(
                            seed.0,
                            seed.1,
                            w,
                        ) <= tile_index(u.0, u.1, w) by {
                            lemma_new_seed_first(s, w, h, vis0, seed, u);
                        }
                        assert(loc_center(loc) == cluster_center(s, w, h, seed)) by {
                            reveal(cluster_center);
                        }
                        lemma_seeds_insert(s, w, h, locs_before, seeds, y * w + x, pos as int, loc, seed);
                        seeds = seeds.insert(pos as int, seed);
                    }
                }
                proof {
                    lemma_cluster_step(m, mask, s, vis0, visited@, locs0, locations@, component@, (x as int, y as int), pos as int, loc);
                    assert forall|tx: int, ty: int|
                        0 <= tx < w && 0 <= ty < h && tile_index(tx, ty, w) < y * w + x + 1 && hot(s, w, h, (tx, ty)) implies #[trigger] visited@[tile_index(tx, ty, w)] by {
                        if tile_index(tx, ty, w) == idx as int {
                            lemma_tile_index_injective(tx, ty, x as int, y as int, w);
                            assert(component@.contains((x, y)));
                        } else {
                            assert(vis0[tile_index(tx, ty, w)]);
                        }
                    }
                }
            } else {
                proof {
                    assert forall|tx: int, ty: int|
                        0 <= tx < w && 0 <= ty < h && tile_index(tx, ty, w) < y * w + x + 1 && hot(s, w, h, (tx, ty)) implies #[trigger] visited@[tile_index(tx, ty, w)] by {
                        if tile_index(tx, ty, w) == idx as int {
                            lemma_tile_index_injective(tx, ty, x as int, y as int, w);
                        }
                    }
                }
            }
            proof {
                assert(seeds_inv(s, w, h, locations@, seeds, y * w + x + 1));
            }
            x = x + 1;
        }
        proof {
            assert((y + 1) * w == y * w + w) by (nonlinear_arith);
        }
        y = y + 1;
    }
    proof {
        assert forall|tx: int, ty: int|
            #[trigger] hot(s, w, h, (tx, ty)) && 2 <= component(s, w, h, (tx, ty)).len() <= 30 implies exists|i: int|
                0 <= i < locations@.len() && connected(s, w, h, loc_center(#[trigger] locations@[i]), (tx, ty)) by {
            lemma_tile_index_bounds(tx, ty, w, h);
            assert(height * w == w * h) by (nonlinear_arith)
                requires h == height;
            assert(visited@[tile_index(tx, ty, w)]);
        }
        lemma_seeds_give_order(s, w, h, locations@, seeds, y * w);
    }
    locations
}

/// Per-tile chokepoint grid. A tile with corridor width `k > 0` scores `1/k`
/// (1.0 for a single-tile gap, 0.125 for width 8); width 0 means score 0
/// (open terrain or barrier). Higher scores indicate narrower corridors.
pub struct ChokepointMap {
    pub width: usize,
    pub height: usize,
    /// Per-tile corridor width, indexed by `y * width + x`.
    pub corridors: Vec<u16>,
    /// Discrete chokepoint clusters detected by flood-fill, best first.
    pub locations: Vec<ChokepointLocation>,
}

/// What `ChokepointMap::compute` gives for `map` and `mask`: the corridor
/// value of every tile, and the locations of the clusters, ordered and
/// centered as `locations_of`, `scan_ordered` and `centers_chosen` state.
#[verifier::opaque]
pub open spec fn computed(map: TileMap, mask: Seq<bool>, cm: ChokepointMap) -> bool {
    let w = map.width as int;
    let h = map.height as int;
    &&& cm.wf()
    &&& cm.width == map.width
    &&& cm.height == map.height
    &&& forall|x: int, y: int|
        0 <= x < w && 0 <= y < h ==> #[trigger] cm.corridors@[tile_index(x, y, w)] == corridor(map, mask, x, y)
    &&& locations_of(map, mask, cm.corridors@, cm.locations@)
    &&& scan_ordered(cm.corridors@, w, h, cm.locations@)
    &&& centers_chosen(cm.corridors@, w, h, cm.locations@)
}

impl ChokepointMap {
    /// One corridor width per tile.
    pub open spec fn wf(&self) -> bool {
        &&& self.width * self.height <= usize::MAX
        &&& self.corridors@.len() == self.width * self.height
    }

    /// Create an empty chokepoint map.
    pub fn empty(width: usize, height: usize) -> (cm: Self)
        requires
            width * height <= usize::MAX,
        ensures
            cm.wf(),
            cm.width == width,
            cm.height == height,
            cm.corridors@ == Seq::new((width * height) as nat, |i: int| 0u16),
            cm.locations@ == Seq::<ChokepointLocation>::empty(),
    {
        let n = width * height;
        let mut corridors: Vec<u16> = Vec::new();
        let mut i: usize = 0;
        while i < n
            invariant
                i <= n,
                corridors@ == Seq::new(i as nat, |j: int| 0u16),
            decreases n - i,
        {
            corridors.push(0);
            i = i + 1;
            proof {
                assert(corridors@ =~= Seq::new(i as nat, |j: int| 0u16));
            }
        }
        Self { width, height, corridors, locations: Vec::new() }
    }

    /// Compute chokepoint scores for the entire map: ray casting, river
    /// crossings (when `river_mask` covers the map), then clustering. The
    /// result is fixed by its scores and its ordered, centered locations;
    /// `chokepoint_laws::law_mask_of_wrong_size_is_ignored` compares two
    /// results.
    pub fn compute(map: &TileMap, river_mask: &[bool]) -> (cm: Self)
        requires
            map.wf(),
            fits_i32(map.width as int, map.height as int),
        ensures
            computed(*map, river_mask@, cm),
    {
        let width = map.width;
        let height = map.height;
        // Pass 1 and 2: ray casting and river crossings
        let corridors = corridor_grid(map, river_mask);
        // Pass 3: clustering
        let locations = cluster_chokepoints(corridors.as_slice(), map, river_mask, width, height);
        let cm = Self { width, height, corridors, locations };
        proof {
            reveal(computed);
        }
        cm
    }

    /// Corridor width at (x, y), which scores `1 / width`; 0 (score 0) out of bounds.
    pub fn corridor_width(&self, x: usize, y: usize) -> (r: u16)
        requires
            self.wf(),
        ensures
            r == if x < self.width && y < self.height {
                self.corridors@[tile_index(x as int, y as int, self.width as int)]
            } else {
                0
            },
    {
        if x < self.width && y < self.height {
            proof {
                lemma_tile_index_bounds(x as int, y as int, self.width as int, self.height as int);
            }
            self.corridors[y * self.width + x]
        } else {
            0
        }
    }
}

proof fn lemma_min_width_bounds(map: TileMap, x: int, y: int)
    ensures
        1 <= min_width(map, x, y) <= 17,
{
    lemma_ray_from_bounds(map, x, y, 1, 0, 1);
    lemma_ray_from_bounds(map, x, y, -1, 0, 1);
    lemma_ray_from_bounds(map, x, y, 0, 1, 1);
    lemma_ray_from_bounds(map, x, y, 0, -1, 1);
    lemma_ray_from_bounds(map, x, y, 1, -1, 1);
    lemma_ray_from_bounds(map, x, y, -1, 1, 1);
    lemma_ray_from_bounds(map, x, y, -1, -1, 1);
    lemma_ray_from_bounds(map, x, y, 1, 1, 1);
}

proof fn lemma_river_run_nonneg(mask: Seq<bool>, w: int, h: int, x: int, y: int, dx: int, dy: int, step: int)
    ensures
        river_run(mask, w, h, x, y, dx, dy, step) >= 0,
    decreases 11 - step,
{
    if !(step > 10 || !is_river(mask, w, h, x + dx * step, y + dy * step)) {
        lemma_river_run_nonneg(mask, w, h, x, y, dx, dy, step + 1);
    }
}

proof fn lemma_bank_from_bounds(map: TileMap, mask: Seq<bool>, bx: int, by: int, rx: int, ry: int, limit: int)
    ensures
        bank_from(map, mask, bx, by, rx, ry, limit) == 0 || 2 <= bank_from(map, mask, bx, by, rx, ry, limit) <= 4,
{
    let w = map.width as int;
    let h = map.height as int;
    lemma_river_run_nonneg(mask, w, h, rx, ry, 1, 0, 1);
    lemma_river_run_nonneg(mask, w, h, rx, ry, -1, 0, 1);
    lemma_river_run_nonneg(mask, w, h, rx, ry, 0, 1, 1);
    lemma_river_run_nonneg(mask, w, h, rx, ry, 0, -1, 1);
}

proof fn lemma_bank_value_bounds(map: TileMap, mask: Seq<bool>, x: int, y: int)
    ensures
        bank_value(map, mask, x, y) == 0 || 2 <= bank_value(map, mask, x, y) <= 4,
{
    let l = map.width * map.height;
    lemma_bank_from_bounds(map, mask, x, y, x + 1, y, l);
    lemma_bank_from_bounds(map, mask, x, y, x - 1, y, l);
    lemma_bank_from_bounds(map, mask, x, y, x, y + 1, l);
    lemma_bank_from_bounds(map, mask, x, y, x, y - 1, l);
}

/// Barrier tiles (water, cliff, building wall, mountain) score 0.
pub proof fn law_barrier_scores_zero(map: TileMap, mask: Seq<bool>, x: int, y: int)
    requires
        map.at(x, y) matches Some(t) && barrier(t),
    ensures
        corridor(map, mask, x, y) == 0,
{
}

/// Scores range from 0 to 1: every corridor width is 0 (score 0) or between
/// 1 (score 1.0) and 8 (score 0.125).
pub proof fn law_corridor_range(map: TileMap, mask: Seq<bool>, x: int, y: int)
    ensures
        0 <= corridor(map, mask, x, y) <= 8,
{
    lemma_min_width_bounds(map, x, y);
    lemma_bank_value_bounds(map, mask, x, y);
}

/// A single-tile gap scores 1.0 whatever rivers are near, and a river crossing
/// never lowers a tile's score.
pub proof fn law_river_only_raises_scores(map: TileMap, mask: Seq<bool>, x: int, y: int)
    ensures
        ray_corridor(map, x, y) == 1 ==> corridor(map, mask, x, y) == 1,
        ray_corridor(map, x, y) != 0 ==> 1 <= corridor(map, mask, x, y) <= ray_corridor(map, x, y),
{
    lemma_bank_value_bounds(map, mask, x, y);
    lemma_min_width_bounds(map, x, y);
}

} // verus!
