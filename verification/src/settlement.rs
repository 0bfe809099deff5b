use vstd::prelude::*;

use crate::tilemap::{Terrain, TileMap};

verus! {

// Sites are searched ring by ring around a center: ring `r` holds the
// offsets `(dx, dy)` with `max(|dx|, |dy|) == r`; within a ring, rows go from
// `dy = -r` down to `dy = r`, and each row from `dx = -r` to `dx = r`.

/// The ring of offset `(dx, dy)`.
pub open spec fn ring(dx: int, dy: int) -> int {
    let ax = if dx < 0 { -dx } else { dx };
    let ay = if dy < 0 { -dy } else { dy };
    if ax > ay { ax } else { ay }
}

/// Offset `a` comes before offset `b` in the search order.
pub open spec fn ring_before(a: (int, int), b: (int, int)) -> bool {
    ||| ring(a.0, a.1) < ring(b.0, b.1)
    ||| (ring(a.0, a.1) == ring(b.0, b.1) && (a.1 < b.1 || (a.1 == b.1 && a.0 < b.0)))
}

/// What a searched site must offer.
#[derive(Debug, Clone, Copy, PartialEq, Eq, Structural)]
pub enum SiteTest {
    /// A start site near a ford: open ground with forest near, a ford
    /// within 20 tiles and room for buildings.
    NearFord,
    /// A start site with forest near and room for buildings.
    NearForest,
    /// A start site with room for buildings.
    Open,
    /// A `w` x `h` building spot on grass or sand (and forest, when allowed)
    /// with no building in the one-tile border around it.
    Spot { w: u32, h: u32, allow_forest: bool },
}

pub open spec fn grass_or_sand(t: Option<Terrain>) -> bool {
    t == Some(Terrain::Grass) || t == Some(Terrain::Sand)
}

/// Building terrain: a finished building's floor or wall.
pub open spec fn built(t: Option<Terrain>) -> bool {
    t == Some(Terrain::BuildingFloor) || t == Some(Terrain::BuildingWall)
}

/// Some tile within `radius` (in both axes) of `(x, y)` is `t`.
pub open spec fn terrain_within(map: TileMap, x: int, y: int, radius: int, t: Terrain) -> bool {
    exists|fx: int, fy: int| -radius <= fx <= radius && -radius <= fy <= radius && #[trigger] map.at(x + fx, y + fy) == Some(t)
}

/// The terrain a zone check reads at `(x, y)`: tiles left of or above the
/// map edge read as the edge tile.
pub open spec fn zone_tile(map: TileMap, x: int, y: int) -> Option<Terrain> {
    map.at(if x < 0 { 0 } else { x }, if y < 0 { 0 } else { y })
}

/// The 3 x 3 zone at `(gx, gy)` is all grass or sand; tiles left of or
/// above the map edge count as the edge tile.
pub open spec fn zone_fits(map: TileMap, gx: int, gy: int) -> bool {
    forall|fx: int, fy: int|
        0 <= fx < 3 && 0 <= fy < 3 ==> grass_or_sand(#[trigger] zone_tile(map, gx + fx, gy + fy))
}

/// Fitting zones among the first `j` of the column at `gx` starting at `gy0`,
/// three tiles apart.
pub open spec fn zone_column(map: TileMap, gx: int, gy0: int, j: nat) -> nat
    decreases j,
{
    if j == 0 {
        0
    } else {
        zone_column(map, gx, gy0, (j - 1) as nat) + if zone_fits(map, gx, gy0 + 3 * (j - 1)) {
            1nat
        } else {
            0nat
        }
    }
}

/// Fitting zones among the first `i` columns of the 17 x 17 grid of zones
/// three tiles apart covering the square of radius 25 around `(x, y)`.
pub open spec fn zone_grid(map: TileMap, x: int, y: int, i: nat) -> nat
    decreases i,
{
    if i == 0 {
        0
    } else {
        zone_grid(map, x, y, (i - 1) as nat) + zone_column(map, x - 25 + 3 * (i - 1), y - 25, 17)
    }
}

/// Distinct 3 x 3 buildable zones within 25 tiles of `(x, y)`.
pub open spec fn buildable_zones(map: TileMap, x: int, y: int) -> nat {
    zone_grid(map, x, y, 17)
}

/// Every tile of the `w` x `h` footprint at `(x, y)` is grass or sand (or
/// forest, when allowed).
pub open spec fn footprint_natural(map: TileMap, x: int, y: int, w: int, h: int, allow_forest: bool) -> bool {
    forall|px: int, py: int|
        x <= px < x + w && y <= py < y + h ==> (grass_or_sand(#[trigger] map.at(px, py)) || (allow_forest && map.at(
            px,
            py,
        ) == Some(Terrain::Forest)))
}

/// No tile of the one-tile border around the `w` x `h` footprint at `(x, y)`
/// is building terrain.
pub open spec fn border_clear(map: TileMap, x: int, y: int, w: int, h: int) -> bool {
    forall|px: int, py: int|
        x - 1 <= px < x + w + 1 && y - 1 <= py < y + h + 1 && !(x <= px < x + w && y <= py < y + h) ==> !built(
            #[trigger] map.at(px, py),
        )
}

/// Site `(x, y)` passes test `t`.
#[verifier::opaque]
pub open spec fn site_ok(map: TileMap, t: SiteTest, x: int, y: int) -> bool {
    match t {
        SiteTest::Spot { w, h, allow_forest } => {
            &&& x >= 0 && y >= 0
            &&& footprint_natural(map, x, y, w as int, h as int, allow_forest)
            &&& border_clear(map, x, y, w as int, h as int)
        },
        _ => {
            &&& 2 <= x < map.width - 2 && 2 <= y < map.height - 2
            &&& grass_or_sand(map.at(x, y))
            &&& (t is NearFord ==> terrain_within(map, x, y, 20, Terrain::Ford))
            &&& (!(t is Open) ==> terrain_within(map, x, y, 3, Terrain::Forest))
            &&& buildable_zones(map, x, y) >= 8
        },
    }
}

/// The offset within `radius` rings around `(cx, cy)` whose site passes `t`.
pub open spec fn passing_offset(map: TileMap, t: SiteTest, cx: int, cy: int, radius: int, off: (int, int)) -> bool {
    ring(off.0, off.1) < radius && site_ok(map, t, cx + off.0, cy + off.1)
}

/// The first site in search order within `radius` rings of `(cx, cy)` that
/// passes `t`, if any.
#[verifier::opaque]
pub open spec fn first_site(map: TileMap, t: SiteTest, cx: int, cy: int, radius: int) -> Option<(int, int)> {
    if exists|off: (int, int)| #[trigger] passing_offset(map, t, cx, cy, radius, off) {
        let off = choose|off: (int, int)|
            #[trigger] passing_offset(map, t, cx, cy, radius, off) && forall|o: (int, int)|
                #[trigger] passing_offset(map, t, cx, cy, radius, o) ==> !ring_before(o, off);
        Some((cx + off.0, cy + off.1))
    } else {
        None
    }
}

/// The start site of a settlement: searching outward from the map center
/// (80 rings), first for a site near a ford, then near forest, then any open
/// site; the flag tells that only the last search succeeded, so that trees
/// must be planted. Each later search runs only while the site found so far
/// is the center itself.
pub open spec fn start_site(map: TileMap) -> (int, int, bool) {
    let c = ((map.width / 2) as int, (map.height / 2) as int);
    let s1 = match first_site(map, SiteTest::NearFord, c.0, c.1, 80) {
        Some(p) => p,
        None => c,
    };
    let s2 = if s1 == c {
        match first_site(map, SiteTest::NearForest, c.0, c.1, 80) {
            Some(p) => p,
            None => s1,
        }
    } else {
        s1
    };
    if s2 == c {
        match first_site(map, SiteTest::Open, c.0, c.1, 80) {
            Some(p) => (p.0, p.1, true),
            None => (c.0, c.1, false),
        }
    } else {
        (s2.0, s2.1, false)
    }
}

/// Where a `bw` x `bh` building goes near `(cx, cy)`: the first spot within
/// 30 rings on grass or sand with a clear border, else the first such spot
/// that may also take forest, else the center itself.
pub open spec fn building_spot(map: TileMap, cx: int, cy: int, bw: u32, bh: u32) -> (int, int) {
    match first_site(map, SiteTest::Spot { w: bw, h: bh, allow_forest: false }, cx, cy, 30) {
        Some(p) => p,
        None => match first_site(map, SiteTest::Spot { w: bw, h: bh, allow_forest: true }, cx, cy, 30) {
            Some(p) => p,
            None => (cx, cy),
        },
    }
}

fn is_grass_or_sand(map: &TileMap, x: i64, y: i64) -> (r: bool)
    requires
        map.wf(),
    ensures
        r == grass_or_sand(map.at(x as int, y as int)),
{
    if x < 0 || y < 0 || x as u64 >= map.width as u64 || y as u64 >= map.height as u64 {
        return false;
    }
    match map.get(x as usize, y as usize) {
        Some(t) => *t == Terrain::Grass || *t == Terrain::Sand,
        None => false,
    }
}

fn terrain_is(map: &TileMap, x: i64, y: i64, t: Terrain) -> (r: bool)
    requires
        map.wf(),
    ensures
        r == (map.at(x as int, y as int) == Some(t)),
{
    if x < 0 || y < 0 || x as u64 >= map.width as u64 || y as u64 >= map.height as u64 {
        return false;
    }
    match map.get(x as usize, y as usize) {
        Some(found) => *found == t,
        None => false,
    }
}

/// Whether terrain `t` lies within `radius` tiles of `(x, y)`.
fn has_terrain_within(map: &TileMap, x: i64, y: i64, radius: i64, t: Terrain) -> (r: bool)
    requires
        map.wf(),
        0 <= radius <= 100,
        -0x1000_0000_0000 <= x <= 0x1000_0000_0000,
        -0x1000_0000_0000 <= y <= 0x1000_0000_0000,
    ensures
        r == terrain_within(*map, x as int, y as int, radius as int, t),
{
    let mut fy: i64 = -radius;
    while fy <= radius
        invariant
            map.wf(),
            -radius <= fy <= radius + 1,
            0 <= radius <= 100,
            -0x1000_0000_0000 <= x <= 0x1000_0000_0000,
            -0x1000_0000_0000 <= y <= 0x1000_0000_0000,
            forall|gx: int, gy: int|
                -radius <= gx <= radius && -radius <= gy < fy ==> #[trigger] map.at(x + gx, y + gy) != Some(t),
        decreases radius + 1 - fy,
    {
        let mut fx: i64 = -radius;
        while fx <= radius
            invariant
                map.wf(),
                -radius <= fy <= radius,
                -radius <= fx <= radius + 1,
                0 <= radius <= 100,
                -0x1000_0000_0000 <= x <= 0x1000_0000_0000,
                -0x1000_0000_0000 <= y <= 0x1000_0000_0000,
                forall|gx: int, gy: int|
                    -radius <= gx <= radius && -radius <= gy < fy ==> #[trigger] map.at(x + gx, y + gy) != Some(t),
                forall|gx: int| -radius <= gx < fx ==> #[trigger] map.at(x + gx, y + fy) != Some(t),
            decreases radius + 1 - fx,
        {
            if terrain_is(map, x + fx, y + fy, t) {
                return true;
            }
            fx = fx + 1;
        }
        fy = fy + 1;
    }
    false
}

fn zone_fits_at(map: &TileMap, gx: i64, gy: i64) -> (r: bool)
    requires
        map.wf(),
        -0x2000_0000_0000 <= gx <= 0x2000_0000_0000,
        -0x2000_0000_0000 <= gy <= 0x2000_0000_0000,
    ensures
        r == zone_fits(*map, gx as int, gy as int),
{
    let mut fy: i64 = 0;
    while fy < 3
        invariant
            map.wf(),
            0 <= fy <= 3,
            -0x2000_0000_0000 <= gx <= 0x2000_0000_0000,
            -0x2000_0000_0000 <= gy <= 0x2000_0000_0000,
            forall|ax: int, ay: int|
                0 <= ax < 3 && 0 <= ay < fy ==> grass_or_sand(#[trigger] zone_tile(*map, gx + ax, gy + ay)),
        decreases 3 - fy,
    {
        let mut fx: i64 = 0;
        while fx < 3
            invariant
                map.wf(),
                0 <= fy < 3,
                0 <= fx <= 3,
                -0x2000_0000_0000 <= gx <= 0x2000_0000_0000,
                -0x2000_0000_0000 <= gy <= 0x2000_0000_0000,
                forall|ax: int, ay: int|
                    0 <= ax < 3 && 0 <= ay < fy ==> grass_or_sand(#[trigger] zone_tile(*map, gx + ax, gy + ay)),
                forall|ax: int|
                    0 <= ax < fx ==> grass_or_sand(#[trigger] zone_tile(*map, gx + ax, gy + fy)),
            decreases 3 - fx,
        {
            let tx = if gx + fx < 0 { 0 } else { gx + fx };
            let ty = if gy + fy < 0 { 0 } else { gy + fy };
            assert(zone_tile(*map, gx + fx, gy + fy) == map.at(tx as int, ty as int));
            if !is_grass_or_sand(map, tx, ty) {
                return false;
            }
            fx = fx + 1;
        }
        fy = fy + 1;
    }
    true
}

/// Count the distinct 3 x 3 buildable zones within 25 tiles of `(x, y)`.
fn count_buildable_zones(map: &TileMap, x: i64, y: i64) -> (n: u32)
    requires
        map.wf(),
        -0x1000_0000_0000 <= x <= 0x1000_0000_0000,
        -0x1000_0000_0000 <= y <= 0x1000_0000_0000,
    ensures
        n == buildable_zones(*map, x as int, y as int),
{
    let mut count: u32 = 0;
    let mut i: i64 = 0;
    while i < 17
        invariant
            map.wf(),
            0 <= i <= 17,
            -0x1000_0000_0000 <= x <= 0x1000_0000_0000,
            -0x1000_0000_0000 <= y <= 0x1000_0000_0000,
            count == zone_grid(*map, x as int, y as int, i as nat),
            count <= 17 * i,
        decreases 17 - i,
    {
        let gx = x - 25 + 3 * i;
        let mut col: u32 = 0;
        let mut j: i64 = 0;
        while j < 17
            invariant
                map.wf(),
                0 <= j <= 17,
                0 <= i < 17,
                gx == x - 25 + 3 * i,
                -0x1000_0000_0000 <= x <= 0x1000_0000_0000,
                -0x1000_0000_0000 <= y <= 0x1000_0000_0000,
                col == zone_column(*map, gx as int, y - 25, j as nat),
                col <= j,
            decreases 17 - j,
        {
            if zone_fits_at(map, gx, y - 25 + 3 * j) {
                col = col + 1;
            }
            j = j + 1;
        }
        count = count + col;
        i = i + 1;
    }
    count
}

fn footprint_natural_at(map: &TileMap, x: i64, y: i64, w: i64, h: i64, allow_forest: bool) -> (r: bool)
    requires
        map.wf(),
        0 <= w <= 0x1_0000_0000,
        0 <= h <= 0x1_0000_0000,
        -0x1000_0000_0000 <= x <= 0x1000_0000_0000,
        -0x1000_0000_0000 <= y <= 0x1000_0000_0000,
    ensures
        r == footprint_natural(*map, x as int, y as int, w as int, h as int, allow_forest),
{
    let mut fy: i64 = 0;
    while fy < h
        invariant
            map.wf(),
            0 <= fy <= h,
            0 <= w <= 0x1_0000_0000,
            0 <= h <= 0x1_0000_0000,
            -0x1000_0000_0000 <= x <= 0x1000_0000_0000,
            -0x1000_0000_0000 <= y <= 0x1000_0000_0000,
            forall|px: int, py: int|
                x <= px < x + w && y <= py < y + fy ==> (grass_or_sand(#[trigger] map.at(px, py)) || (allow_forest
                    && map.at(px, py) == Some(Terrain::Forest))),
        decreases h - fy,
    {
        let mut fx: i64 = 0;
        while fx < w
            invariant
                map.wf(),
                0 <= fy < h,
                0 <= fx <= w,
                0 <= w <= 0x1_0000_0000,
                0 <= h <= 0x1_0000_0000,
                -0x1000_0000_0000 <= x <= 0x1000_0000_0000,
                -0x1000_0000_0000 <= y <= 0x1000_0000_0000,
                forall|px: int, py: int|
                    x <= px < x + w && y <= py < y + fy ==> (grass_or_sand(#[trigger] map.at(px, py)) || (
                    allow_forest && map.at(px, py) == Some(Terrain::Forest))),
                forall|px: int|
                    x <= px < x + fx ==> (grass_or_sand(#[trigger] map.at(px, y + fy)) || (allow_forest && map.at(
                        px,
                        y + fy,
                    ) == Some(Terrain::Forest))),
            decreases w - fx,
        {
            let ok = is_grass_or_sand(map, x + fx, y + fy) || (allow_forest && terrain_is(
                map,
                x + fx,
                y + fy,
                Terrain::Forest,
            ));
            if !ok {
                return false;
            }
            fx = fx + 1;
        }
        fy = fy + 1;
    }
    true
}

fn is_built(map: &TileMap, x: i64, y: i64) -> (r: bool)
    requires
        map.wf(),
    ensures
        r == built(map.at(x as int, y as int)),
{
    terrain_is(map, x, y, Terrain::BuildingFloor) || terrain_is(map, x, y, Terrain::BuildingWall)
}

fn border_clear_at(map: &TileMap, x: i64, y: i64, w: i64, h: i64) -> (r: bool)
    requires
        map.wf(),
        0 <= w <= 0x1_0000_0000,
        0 <= h <= 0x1_0000_0000,
        -0x1000_0000_0000 <= x <= 0x1000_0000_0000,
        -0x1000_0000_0000 <= y <= 0x1000_0000_0000,
    ensures
        r == border_clear(*map, x as int, y as int, w as int, h as int),
{
    let mut fy: i64 = -1;
    while fy < h + 1
        invariant
            map.wf(),
            -1 <= fy <= h + 1,
            0 <= w <= 0x1_0000_0000,
            0 <= h <= 0x1_0000_0000,
            -0x1000_0000_0000 <= x <= 0x1000_0000_0000,
            -0x1000_0000_0000 <= y <= 0x1000_0000_0000,
            forall|px: int, py: int|
                x - 1 <= px < x + w + 1 && y - 1 <= py < y + fy && !(x <= px < x + w && y <= py < y + h) ==> !built(
                    #[trigger] map.at(px, py),
                ),
        decreases h + 1 - fy,
    {
        let mut fx: i64 = -1;
        while fx < w + 1
            invariant
                map.wf(),
                -1 <= fy < h + 1,
                -1 <= fx <= w + 1,
                0 <= w <= 0x1_0000_0000,
                0 <= h <= 0x1_0000_0000,
                -0x1000_0000_0000 <= x <= 0x1000_0000_0000,
                -0x1000_0000_0000 <= y <= 0x1000_0000_0000,
                forall|px: int, py: int|
                    x - 1 <= px < x + w + 1 && y - 1 <= py < y + fy && !(x <= px < x + w && y <= py < y + h)
                        ==> !built(#[trigger] map.at(px, py)),
                forall|px: int|
                    x - 1 <= px < x + fx && !(x <= px < x + w && 0 <= fy < h) ==> !built(#[trigger] map.at(px, y + fy)),
            decreases w + 1 - fx,
        {
            // Only the border is checked; tiles off the map are fine
            let interior = fx >= 0 && fx < w && fy >= 0 && fy < h;
            if !interior && is_built(map, x + fx, y + fy) {
                return false;
            }
            fx = fx + 1;
        }
        fy = fy + 1;
    }
    true
}

fn site_ok_at(map: &TileMap, t: SiteTest, x: i64, y: i64) -> (r: bool)
    requires
        map.wf(),
        -0x1000_0000_0000 <= x <= 0x1000_0000_0000,
        -0x1000_0000_0000 <= y <= 0x1000_0000_0000,
    ensures
        r == site_ok(*map, t, x as int, y as int),
{
    reveal(site_ok);
    match t {
        SiteTest::Spot { w, h, allow_forest } => {
            x >= 0 && y >= 0 && footprint_natural_at(map, x, y, w as i64, h as i64, allow_forest)
                && border_clear_at(map, x, y, w as i64, h as i64)
        },
        _ => {
            let inner = x >= 2 && y >= 2 && (x as i128) < map.width as i128 - 2 && (y as i128) < map.height as i128 - 2;
            if !inner || !is_grass_or_sand(map, x, y) {
                return false;
            }
            if matches!(t, SiteTest::NearFord) && !has_terrain_within(map, x, y, 20, Terrain::Ford) {
                return false;
            }
            if !matches!(t, SiteTest::Open) && !has_terrain_within(map, x, y, 3, Terrain::Forest) {
                return false;
            }
            count_buildable_zones(map, x, y) >= 8
        },
    }
}

proof fn lemma_ring_order_total(a: (int, int), b: (int, int))
    ensures
        a == b || ring_before(a, b) || ring_before(b, a),
        !(ring_before(a, b) && ring_before(b, a)),
{
}

/// Search `radius` rings around `(cx, cy)`, in order, for the first site passing `t`.
fn search_rings(map: &TileMap, t: SiteTest, cx: i64, cy: i64, radius: i64) -> (r: Option<(i64, i64)>)
    requires
        map.wf(),
        0 <= radius <= 100,
        -0x0fff_0000_0000 <= cx <= 0x0fff_0000_0000,
        -0x0fff_0000_0000 <= cy <= 0x0fff_0000_0000,
    ensures
        match first_site(*map, t, cx as int, cy as int, radius as int) {
            Some(p) => r matches Some(q) && q.0 == p.0 && q.1 == p.1,
            None => r is None,
        },
        r matches Some(q) ==> cx - radius < q.0 < cx + radius && cy - radius < q.1 < cy + radius,
        r matches Some(q) ==> (if t is Spot { q.0 >= 0 && q.1 >= 0 } else { 2 <= q.0 < map.width - 2 && 2 <= q.1 < map.height - 2 }),
{
    reveal(first_site);
    let mut rr: i64 = 0;
    while rr < radius
        invariant
            map.wf(),
            0 <= rr <= radius <= 100,
            -0x0fff_0000_0000 <= cx <= 0x0fff_0000_0000,
            -0x0fff_0000_0000 <= cy <= 0x0fff_0000_0000,
            forall|off: (int, int)|
                #[trigger] passing_offset(*map, t, cx as int, cy as int, radius as int, off) ==> ring(off.0, off.1) >= rr,
        decreases radius - rr,
    {
        let mut dy: i64 = -rr;
        while dy <= rr
            invariant
                map.wf(),
                0 <= rr < radius <= 100,
                -rr <= dy <= rr + 1,
                -0x0fff_0000_0000 <= cx <= 0x0fff_0000_0000,
                -0x0fff_0000_0000 <= cy <= 0x0fff_0000_0000,
                forall|off: (int, int)|
                    #[trigger] passing_offset(*map, t, cx as int, cy as int, radius as int, off) ==> ring(off.0, off.1)
                        > rr || (ring(off.0, off.1) == rr && off.1 >= dy),
            decreases rr + 1 - dy,
        {
            let mut dx: i64 = -rr;
            while dx <= rr
                invariant
                    map.wf(),
                    0 <= rr < radius <= 100,
                    -rr <= dy <= rr,
                    -rr <= dx <= rr + 1,
                    -0x0fff_0000_0000 <= cx <= 0x0fff_0000_0000,
                    -0x0fff_0000_0000 <= cy <= 0x0fff_0000_0000,
                    forall|off: (int, int)|
                        #[trigger] passing_offset(*map, t, cx as int, cy as int, radius as int, off) ==> ring(
                            off.0,
                            off.1,
                        ) > rr || (ring(off.0, off.1) == rr && (off.1 > dy || (off.1 == dy && off.0 >= dx))),
                decreases rr + 1 - dx,
            {
                let on_ring = dx == rr || dx == -rr || dy == rr || dy == -rr;
                if on_ring && site_ok_at(map, t, cx + dx, cy + dy) {
                    proof {
                        let me = (dx as int, dy as int);
                        assert(ring(me.0, me.1) == rr);
                        assert(passing_offset(*map, t, cx as int, cy as int, radius as int, me));
                        assert forall|o: (int, int)|
                            #[trigger] passing_offset(*map, t, cx as int, cy as int, radius as int, o) implies !ring_before(
                                o,
                                me,
                            ) by {}
                        let c = choose|off: (int, int)|
                            #[trigger] passing_offset(*map, t, cx as int, cy as int, radius as int, off) && forall|
                                o: (int, int),
                            | #[trigger] passing_offset(*map, t, cx as int, cy as int, radius as int, o) ==> !ring_before(
                                o,
                                off,
                            );
                        lemma_ring_order_total(c, me);
                        reveal(site_ok);
                        reveal(first_site);
                    }
                    return Some((cx + dx, cy + dy));
                }
                proof {
                    if !on_ring {
                        assert(ring(dx as int, dy as int) < rr);
                    }
                }
                dx = dx + 1;
            }
            dy = dy + 1;
        }
        rr = rr + 1;
    }
    proof {
        reveal(first_site);
    }
    None
}

/// Find the start site of a settlement, as `start_site` states: near a ford,
/// else near forest, else any open site with room for buildings (the flag
/// then asks for trees to be planted), else the map center.
pub fn find_start_site(map: &TileMap) -> (r: (usize, usize, bool))
    requires
        map.wf(),
        map.width >= 2,
        map.height >= 2 || map.width <= 4,
        map.width <= 0x0fff_0000_0000,
        map.height <= 0x0fff_0000_0000,
    ensures
        r.0 as int == start_site(*map).0,
        r.1 as int == start_site(*map).1,
        r.2 == start_site(*map).2,
{
    let cx = map.width / 2;
    let cy = map.height / 2;
    let ghost c = (cx as int, cy as int);
    let (mut sx, mut sy) = (cx as i64, cy as i64);
    // First pass: prefer a spawn near a ford for geographic advantage
    match search_rings(map, SiteTest::NearFord, cx as i64, cy as i64, 80) {
        Some((x, y)) => {
            sx = x;
            sy = y;
        },
        None => {},
    }
    // Second pass: forest near and room for buildings
    if sx == cx as i64 && sy == cy as i64 {
        match search_rings(map, SiteTest::NearForest, cx as i64, cy as i64, 80) {
            Some((x, y)) => {
                sx = x;
                sy = y;
            },
            None => {},
        }
    }
    // Fallback: room for buildings even without forest; trees get planted
    let mut used_fallback = false;
    if sx == cx as i64 && sy == cy as i64 {
        match search_rings(map, SiteTest::Open, cx as i64, cy as i64, 80) {
            Some((x, y)) => {
                sx = x;
                sy = y;
                used_fallback = true;
            },
            None => {},
        }
    }
    (sx as usize, sy as usize, used_fallback)
}

/// Find where a `bw` x `bh` building goes near `(cx, cy)`, as `building_spot`
/// states: on grass or sand with a clear border if possible, else also on
/// forest, else at the center itself.
pub fn find_building_spot(map: &TileMap, cx: usize, cy: usize, bw: u32, bh: u32) -> (r: (i32, i32))
    requires
        map.wf(),
        cx + 30 + bw + 1 <= i32::MAX,
        cy + 30 + bh + 1 <= i32::MAX,
    ensures
        r.0 as int == building_spot(*map, cx as int, cy as int, bw, bh).0,
        r.1 as int == building_spot(*map, cx as int, cy as int, bw, bh).1,
{
    // First pass: only grass and sand, keeping nearby forest for wood gathering
    match search_rings(map, SiteTest::Spot { w: bw, h: bh, allow_forest: false }, cx as i64, cy as i64, 30) {
        Some((x, y)) => {
            return (x as i32, y as i32);
        },
        None => {},
    }
    // Second pass: forest allowed (better than impassable terrain)
    match search_rings(map, SiteTest::Spot { w: bw, h: bh, allow_forest: true }, cx as i64, cy as i64, 30) {
        Some((x, y)) => {
            return (x as i32, y as i32);
        },
        None => {},
    }
    (cx as i32, cy as i32)
}

} // verus!
