use vstd::prelude::*;

use crate::tilemap::{Terrain, TileMap, tile_index, lemma_tile_index_bounds, lemma_tile_index_injective};
use crate::components::{hot, connected, component, linked, lemma_linked_hot, lemma_same_component, lemma_connected_symmetric};
use crate::chokepoint::{
    ChokepointLocation, ChokepointMap, computed, corridor, kind_of, is_river, touches_river, bank_value, loc_center,
    location_fits, locations_of, scan_ordered, centers_chosen, centered, seed_of, cluster_center, ChokepointKind,
    touches_water, touches_rock, water_at, rock_at,
};

verus! {

/// Row-major position of the scan entry tile of `loc`'s cluster.
pub open spec fn seed_index(s: Seq<u16>, w: int, h: int, loc: ChokepointLocation) -> int {
    let seed = choose|seed: (int, int)| seed_of(s, w, h, loc, seed);
    tile_index(seed.0, seed.1, w)
}

/// Order of a location list: by width, then by where the scan entered the cluster.
pub open spec fn loc_before(s: Seq<u16>, w: int, h: int, a: ChokepointLocation, b: ChokepointLocation) -> bool {
    a.width < b.width || (a.width == b.width && seed_index(s, w, h, a) < seed_index(s, w, h, b))
}

/// A tile of a cluster lies on the grid.
proof fn lemma_member_on_grid(s: Seq<u16>, w: int, h: int, c: (int, int), t: (int, int))
    requires
        component(s, w, h, c).contains(t),
    ensures
        0 <= t.0 < w,
        0 <= t.1 < h,
{
    let k = choose|k: nat| linked(s, w, h, c, t, k);
    lemma_linked_hot(s, w, h, c, t, k);
}

/// A cluster has one scan entry tile.
proof fn lemma_seed_unique(s: Seq<u16>, w: int, h: int, a: ChokepointLocation, b: ChokepointLocation, sa: (int, int), sb: (int, int))
    requires
        component(s, w, h, loc_center(a)) == component(s, w, h, loc_center(b)),
        seed_of(s, w, h, a, sa),
        seed_of(s, w, h, b, sb),
    ensures
        sa == sb,
{
    assert(component(s, w, h, loc_center(b)).contains(sa));
    assert(component(s, w, h, loc_center(a)).contains(sb));
    lemma_member_on_grid(s, w, h, loc_center(a), sa);
    lemma_member_on_grid(s, w, h, loc_center(a), sb);
    lemma_tile_index_injective(sa.0, sa.1, sb.0, sb.1, w);
}

/// Two centered locations of the same cluster, under masks that give every
/// cluster the same kind, are the same location.
proof fn lemma_same_cluster_same_location(
    map: TileMap,
    m1: Seq<bool>,
    m2: Seq<bool>,
    s: Seq<u16>,
    a: ChokepointLocation,
    b: ChokepointLocation,
)
    requires
        location_fits(map, m1, s, a),
        location_fits(map, m2, s, b),
        centered(s, map.width as int, map.height as int, a),
        centered(s, map.width as int, map.height as int, b),
        connected(s, map.width as int, map.height as int, loc_center(a), loc_center(b)),
        forall|c: Set<(int, int)>| #[trigger] kind_of(map, m1, c) == kind_of(map, m2, c),
    ensures
        a == b,
{
    let w = map.width as int;
    let h = map.height as int;
    lemma_same_component(s, w, h, loc_center(a), loc_center(b));
    let sa = choose|seed: (int, int)| #[trigger] seed_of(s, w, h, a, seed) && loc_center(a) == cluster_center(s, w, h, seed);
    let sb = choose|seed: (int, int)| #[trigger] seed_of(s, w, h, b, seed) && loc_center(b) == cluster_center(s, w, h, seed);
    lemma_seed_unique(s, w, h, a, b, sa, sb);
    assert(loc_center(a) == loc_center(b));
    assert(a.x == b.x && a.y == b.y);
    assert(a.kind == b.kind) by {
        assert(kind_of(map, m1, component(s, w, h, loc_center(a))) == kind_of(map, m2, component(s, w, h, loc_center(a))));
    }
}

/// A location list as `computed` states it is ordered by `loc_before`.
proof fn lemma_locations_sorted(map: TileMap, mask: Seq<bool>, s: Seq<u16>, locs: Seq<ChokepointLocation>)
    requires
        locations_of(map, mask, s, locs),
        scan_ordered(s, map.width as int, map.height as int, locs),
        centers_chosen(s, map.width as int, map.height as int, locs),
    ensures
        forall|i: int, j: int| 0 <= i < j < locs.len() ==> loc_before(s, map.width as int, map.height as int, #[trigger] locs[i], #[trigger] locs[j]),
{
    let w = map.width as int;
    let h = map.height as int;
    assert forall|i: int, j: int| 0 <= i < j < locs.len() implies loc_before(s, w, h, #[trigger] locs[i], #[trigger] locs[j]) by {
        if locs[i].width == locs[j].width {
            assert(centered(s, w, h, locs[i]));
            assert(centered(s, w, h, locs[j]));
            let si = choose|seed: (int, int)| seed_of(s, w, h, locs[i], seed);
            let sj = choose|seed: (int, int)| seed_of(s, w, h, locs[j], seed);
            let t = choose|t: (int, int)|
                #[trigger] component(s, w, h, loc_center(locs[i])).contains(t) && forall|u: (int, int)|
                    #[trigger] component(s, w, h, loc_center(locs[j])).contains(u) ==> tile_index(t.0, t.1, w)
                        < tile_index(u.0, u.1, w);
            assert(component(s, w, h, loc_center(locs[j])).contains(sj));
            assert(component(s, w, h, loc_center(locs[i])).contains(t));
        }
    }
}

/// Two lists ordered by `loc_before` with the same members are equal.
proof fn lemma_ordered_lists_equal(s: Seq<u16>, w: int, h: int, a: Seq<ChokepointLocation>, b: Seq<ChokepointLocation>)
    requires
        forall|i: int, j: int| 0 <= i < j < a.len() ==> loc_before(s, w, h, #[trigger] a[i], #[trigger] a[j]),
        forall|i: int, j: int| 0 <= i < j < b.len() ==> loc_before(s, w, h, #[trigger] b[i], #[trigger] b[j]),
        forall|x: ChokepointLocation| #![trigger a.contains(x)] #![trigger b.contains(x)] a.contains(x) <==> b.contains(x),
    ensures
        a == b,
    decreases a.len() + b.len(),
{
    if a.len() == 0 {
        if b.len() > 0 {
            assert(b.contains(b[0]));
        }
        assert(a =~= b);
    } else if b.len() == 0 {
        assert(a.contains(a[0]));
    } else {
        assert(a.contains(a[0]));
        assert(b.contains(b[0]));
        let k = choose|k: int| 0 <= k < b.len() && b[k] == a[0];
        let m = choose|m: int| 0 <= m < a.len() && a[m] == b[0];
        if k > 0 {
            assert(loc_before(s, w, h, b[0], b[k]));
            if m > 0 {
                assert(loc_before(s, w, h, a[0], a[m]));
            }
        }
        assert(a[0] == b[0]);
        let a1 = a.drop_first();
        let b1 = b.drop_first();
        assert forall|x: ChokepointLocation| #![trigger a1.contains(x)] #![trigger b1.contains(x)] a1.contains(x) <==> b1.contains(x) by {
            if a1.contains(x) {
                let i = choose|i: int| 0 <= i < a1.len() && a1[i] == x;
                assert(a[i + 1] == x);
                assert(loc_before(s, w, h, a[0], a[i + 1]));
                assert(b.contains(x));
                let j = choose|j: int| 0 <= j < b.len() && b[j] == x;
                assert(j != 0);
                assert(b1[j - 1] == x);
            }
            if b1.contains(x) {
                let i = choose|i: int| 0 <= i < b1.len() && b1[i] == x;
                assert(b[i + 1] == x);
                assert(loc_before(s, w, h, b[0], b[i + 1]));
                assert(a.contains(x));
                let j = choose|j: int| 0 <= j < a.len() && a[j] == x;
                assert(j != 0);
                assert(a1[j - 1] == x);
            }
        }
        lemma_ordered_lists_equal(s, w, h, a1, b1);
        assert(a =~= seq![a[0]] + a1);
        assert(b =~= seq![b[0]] + b1);
    }
}

/// `locs` lists the clusters of score grid `s` as `locations_of` states,
/// each centered as `centered` states.
#[verifier::opaque]
pub open spec fn listed(map: TileMap, mask: Seq<bool>, s: Seq<u16>, locs: Seq<ChokepointLocation>) -> bool {
    &&& locations_of(map, mask, s, locs)
    &&& centers_chosen(s, map.width as int, map.height as int, locs)
}

/// The locations that `compute` gives are listed as `listed` states.
proof fn lemma_computed_listed(map: TileMap, mask: Seq<bool>, cm: ChokepointMap)
    requires
        computed(map, mask, cm),
    ensures
        listed(map, mask, cm.corridors@, cm.locations@),
{
    reveal(computed);
    reveal(listed);
}

/// An entry of a listed location list describes its cluster and is centered.
proof fn lemma_listed_entry(map: TileMap, mask: Seq<bool>, s: Seq<u16>, locs: Seq<ChokepointLocation>, i: int)
    requires
        listed(map, mask, s, locs),
        0 <= i < locs.len(),
    ensures
        location_fits(map, mask, s, locs[i]),
        centered(s, map.width as int, map.height as int, locs[i]),
{
    reveal(listed);
}

/// A listed location list has a location for every cluster of 2 to 30 tiles.
proof fn lemma_cluster_listed(map: TileMap, mask: Seq<bool>, s: Seq<u16>, locs: Seq<ChokepointLocation>, c: (int, int)) -> (j: int)
    requires
        listed(map, mask, s, locs),
        hot(s, map.width as int, map.height as int, c),
        2 <= component(s, map.width as int, map.height as int, c).len() <= 30,
    ensures
        0 <= j < locs.len(),
        connected(s, map.width as int, map.height as int, loc_center(locs[j]), c),
{
    reveal(listed);
    let w = map.width as int;
    let h = map.height as int;
    assert(hot(s, w, h, (c.0, c.1)));
    choose|j: int| 0 <= j < locs.len() && connected(s, w, h, loc_center(#[trigger] locs[j]), (c.0, c.1))
}

/// A location of list `a` is in list `b` of the same score grid, when the
/// masks give every cluster the same kind.
proof fn lemma_location_found(
    map: TileMap,
    m1: Seq<bool>,
    m2: Seq<bool>,
    s: Seq<u16>,
    a: Seq<ChokepointLocation>,
    b: Seq<ChokepointLocation>,
    x: ChokepointLocation,
)
    requires
        listed(map, m1, s, a),
        listed(map, m2, s, b),
        forall|c: Set<(int, int)>| #[trigger] kind_of(map, m1, c) == kind_of(map, m2, c),
        a.contains(x),
    ensures
        b.contains(x),
{
    let w = map.width as int;
    let h = map.height as int;
    let i = choose|i: int| 0 <= i < a.len() && a[i] == x;
    lemma_listed_entry(map, m1, s, a, i);
    let c = loc_center(x);
    let j = lemma_cluster_listed(map, m2, s, b, c);
    lemma_listed_entry(map, m2, s, b, j);
    lemma_connected_symmetric(s, w, h, loc_center(b[j]), c);
    lemma_same_cluster_same_location(map, m1, m2, s, x, b[j]);
    assert(b[j] == x);
}

/// With a mask that does not cover the map, or one without any river, no
/// tile is a bank.
proof fn lemma_riverless_corridors(map: TileMap, mask: Seq<bool>, none: Seq<bool>)
    requires
        mask.len() != map.width * map.height,
        none == Seq::new((map.width * map.height) as nat, |i: int| false),
    ensures
        forall|x: int, y: int| 0 <= x < map.width && 0 <= y < map.height ==> #[trigger] corridor(map, mask, x, y) == corridor(map, none, x, y),
{
    let w = map.width as int;
    let h = map.height as int;
    assert forall|x: int, y: int| !is_river(none, w, h, x, y) by {
        if 0 <= x < w && 0 <= y < h {
            lemma_tile_index_bounds(x, y, w, h);
        }
    }
    assert forall|x: int, y: int| 0 <= x < w && 0 <= y < h implies #[trigger] corridor(map, mask, x, y) == corridor(map, none, x, y) by {
        assert(bank_value(map, none, x, y) == 0);
    }
}

/// With a mask that does not cover the map, or one without any river, no
/// cluster touches a river.
proof fn lemma_riverless_kinds(map: TileMap, mask: Seq<bool>, none: Seq<bool>)
    requires
        mask.len() != map.width * map.height,
        none == Seq::new((map.width * map.height) as nat, |i: int| false),
    ensures
        forall|c: Set<(int, int)>| #[trigger] kind_of(map, mask, c) == kind_of(map, none, c),
        forall|c: Set<(int, int)>| #[trigger] kind_of(map, none, c) == kind_of(map, mask, c),
{
    let w = map.width as int;
    let h = map.height as int;
    assert forall|x: int, y: int| !is_river(none, w, h, x, y) by {
        if 0 <= x < w && 0 <= y < h {
            lemma_tile_index_bounds(x, y, w, h);
        }
    }
    assert forall|c: Set<(int, int)>| #[trigger] kind_of(map, mask, c) == kind_of(map, none, c) by {
        assert forall|t: (int, int)| !touches_river(map, mask, t) && !touches_river(map, none, t) by {
        }
    }
    assert forall|c: Set<(int, int)>| #[trigger] kind_of(map, none, c) == kind_of(map, mask, c) by {
        assert(kind_of(map, mask, c) == kind_of(map, none, c));
    }
}

/// The location facts of `computed`.
proof fn lemma_computed_locations(map: TileMap, mask: Seq<bool>, cm: ChokepointMap)
    requires
        computed(map, mask, cm),
    ensures
        locations_of(map, mask, cm.corridors@, cm.locations@),
        scan_ordered(cm.corridors@, map.width as int, map.height as int, cm.locations@),
        centers_chosen(cm.corridors@, map.width as int, map.height as int, cm.locations@),
{
    reveal(computed);
}

/// Two grids that agree tile by tile are equal.
proof fn lemma_grids_equal(w: int, h: int, g1: Seq<u16>, g2: Seq<u16>)
    requires
        0 <= w,
        0 <= h,
        g1.len() == w * h,
        g2.len() == w * h,
        forall|x: int, y: int| 0 <= x < w && 0 <= y < h ==> #[trigger] g1[tile_index(x, y, w)] == g2[tile_index(x, y, w)],
    ensures
        g1 == g2,
{
    assert forall|i: int| 0 <= i < g1.len() implies g1[i] == g2[i] by {
        let x = i % w;
        let y = i / w;
        assert(0 < w) by (nonlinear_arith)
            requires
                0 <= i < w * h,
                0 <= w,
                0 <= h,
        ;
        assert(0 <= x < w && 0 <= y < h && i == y * w + x) by (nonlinear_arith)
            requires
                0 <= i < w * h,
                0 < w,
                x == i % w,
                y == i / w,
        ;
        assert(g1[tile_index(x, y, w)] == g2[tile_index(x, y, w)]);
    }
    assert(g1 =~= g2);
}

/// The corridor values that `compute` gives for a mask that does not cover
/// the map are those of a mask without any river.
proof fn lemma_corridors_agree(map: TileMap, mask: Seq<bool>, none: Seq<bool>, a: ChokepointMap, b: ChokepointMap)
    requires
        mask.len() != map.width * map.height,
        none == Seq::new((map.width * map.height) as nat, |i: int| false),
        computed(map, mask, a),
        computed(map, none, b),
    ensures
        a.corridors@ == b.corridors@,
{
    reveal(computed);
    let w = map.width as int;
    let h = map.height as int;
    lemma_riverless_corridors(map, mask, none);
    assert forall|x: int, y: int| 0 <= x < w && 0 <= y < h implies #[trigger] a.corridors@[tile_index(x, y, w)]
        == b.corridors@[tile_index(x, y, w)] by {
        assert(a.corridors@[tile_index(x, y, w)] == corridor(map, mask, x, y));
        assert(b.corridors@[tile_index(x, y, w)] == corridor(map, none, x, y));
        assert(corridor(map, mask, x, y) == corridor(map, none, x, y));
    }
    lemma_grids_equal(w, h, a.corridors@, b.corridors@);
}

/// Over the same corridor values, the locations that `compute` gives for a
/// mask that does not cover the map and for one without any river have the
/// same members.
proof fn lemma_members_agree(map: TileMap, mask: Seq<bool>, none: Seq<bool>, a: ChokepointMap, b: ChokepointMap)
    requires
        mask.len() != map.width * map.height,
        none == Seq::new((map.width * map.height) as nat, |i: int| false),
        computed(map, mask, a),
        computed(map, none, b),
        a.corridors@ == b.corridors@,
    ensures
        forall|x: ChokepointLocation|
            #![trigger a.locations@.contains(x)]
            #![trigger b.locations@.contains(x)]
            a.locations@.contains(x) <==> b.locations@.contains(x),
{
    lemma_riverless_kinds(map, mask, none);
    lemma_computed_listed(map, mask, a);
    lemma_computed_listed(map, none, b);
    let s = a.corridors@;
    let la = a.locations@;
    let lb = b.locations@;
    assert forall|x: ChokepointLocation| #![trigger la.contains(x)] #![trigger lb.contains(x)] la.contains(x) <==> lb.contains(x) by {
        if la.contains(x) {
            lemma_location_found(map, mask, none, s, la, lb, x);
        }
        if lb.contains(x) {
            lemma_location_found(map, none, mask, s, lb, la, x);
        }
    }
}

/// The locations that `compute` gives are ordered by `loc_before`.
proof fn lemma_computed_sorted(map: TileMap, mask: Seq<bool>, cm: ChokepointMap)
    requires
        computed(map, mask, cm),
    ensures
        forall|i: int, j: int|
            0 <= i < j < cm.locations@.len() ==> loc_before(
                cm.corridors@,
                map.width as int,
                map.height as int,
                #[trigger] cm.locations@[i],
                #[trigger] cm.locations@[j],
            ),
{
    lemma_computed_locations(map, mask, cm);
    lemma_locations_sorted(map, mask, cm.corridors@, cm.locations@);
}

/// A river mask that does not cover the map is ignored: the corridor values
/// and the locations are those of a mask without any river.
pub proof fn law_mask_of_wrong_size_is_ignored(map: TileMap, mask: Seq<bool>, a: ChokepointMap, b: ChokepointMap)
    requires
        mask.len() != map.width * map.height,
        computed(map, mask, a),
        computed(map, Seq::new((map.width * map.height) as nat, |i: int| false), b),
    ensures
        a.corridors@ == b.corridors@,
        a.locations@ == b.locations@,
{
    let none = Seq::new((map.width * map.height) as nat, |i: int| false);
    lemma_corridors_agree(map, mask, none, a, b);
    lemma_members_agree(map, mask, none, a, b);
    lemma_computed_sorted(map, mask, a);
    lemma_computed_sorted(map, none, b);
    lemma_ordered_lists_equal(a.corridors@, map.width as int, map.height as int, a.locations@, b.locations@);
}

/// Tile `q` is one of the four orthogonal neighbours of tile `p`.
pub open spec fn next_to(p: (int, int), q: (int, int)) -> bool {
    ||| q == (p.0 + 1, p.1)
    ||| q == (p.0 - 1, p.1)
    ||| q == (p.0, p.1 + 1)
    ||| q == (p.0, p.1 - 1)
}

/// A tile of `cluster` has a neighbour on the map flagged in a mask that
/// covers the map.
pub open spec fn borders_river(map: TileMap, mask: Seq<bool>, cluster: Set<(int, int)>) -> bool {
    let w = map.width as int;
    let h = map.height as int;
    mask.len() == w * h && exists|t: (int, int), q: (int, int)|
        #![trigger cluster.contains(t), next_to(t, q)]
        cluster.contains(t) && next_to(t, q) && 0 <= q.0 < w && 0 <= q.1 < h && mask[q.1 * w + q.0]
}

/// A tile of `cluster` has a neighbour of terrain `a` or `b`.
pub open spec fn borders_terrain(map: TileMap, cluster: Set<(int, int)>, a: Terrain, b: Terrain) -> bool {
    exists|t: (int, int), q: (int, int)|
        #![trigger cluster.contains(t), next_to(t, q)]
        cluster.contains(t) && next_to(t, q) && (map.at(q.0, q.1) == Some(a) || map.at(q.0, q.1) == Some(b))
}

/// How a cluster of narrow tiles is classified by what borders it: a river
/// tile of a mask that covers the map makes a river crossing; otherwise
/// water on one side and a mountain or cliff on another make a coastal
/// narrow; anything else is a mountain pass.
pub proof fn law_cluster_kinds(map: TileMap, mask: Seq<bool>, cluster: Set<(int, int)>)
    ensures
        borders_river(map, mask, cluster) ==> kind_of(map, mask, cluster) == ChokepointKind::RiverCrossing,
        !borders_river(map, mask, cluster) && borders_terrain(map, cluster, Terrain::Water, Terrain::Water)
            && borders_terrain(map, cluster, Terrain::Mountain, Terrain::Cliff) ==> kind_of(map, mask, cluster)
            == ChokepointKind::CoastalNarrow,
        !borders_river(map, mask, cluster) && !(borders_terrain(map, cluster, Terrain::Water, Terrain::Water)
            && borders_terrain(map, cluster, Terrain::Mountain, Terrain::Cliff)) ==> kind_of(map, mask, cluster)
            == ChokepointKind::MountainPass,
{
    let w = map.width as int;
    let h = map.height as int;
    // a cluster tile touching a river is a river border, and the converse
    if borders_river(map, mask, cluster) {
        let (t, q) = choose|t: (int, int), q: (int, int)|
            #![trigger cluster.contains(t), next_to(t, q)]
            cluster.contains(t) && next_to(t, q) && 0 <= q.0 < w && 0 <= q.1 < h && mask[q.1 * w + q.0];
        assert(is_river(mask, w, h, q.0, q.1));
        assert(touches_river(map, mask, t));
    }
    if exists|t: (int, int)| cluster.contains(t) && #[trigger] touches_river(map, mask, t) {
        let t = choose|t: (int, int)| cluster.contains(t) && #[trigger] touches_river(map, mask, t);
        if is_river(mask, w, h, t.0 - 1, t.1) {
            assert(next_to(t, (t.0 - 1, t.1)));
        } else if is_river(mask, w, h, t.0 + 1, t.1) {
            assert(next_to(t, (t.0 + 1, t.1)));
        } else if is_river(mask, w, h, t.0, t.1 - 1) {
            assert(next_to(t, (t.0, t.1 - 1)));
        } else {
            assert(next_to(t, (t.0, t.1 + 1)));
        }
    }
    // the same for water and for mountains or cliffs
    if borders_terrain(map, cluster, Terrain::Water, Terrain::Water) {
        let (t, q) = choose|t: (int, int), q: (int, int)|
            #![trigger cluster.contains(t), next_to(t, q)]
            cluster.contains(t) && next_to(t, q) && (map.at(q.0, q.1) == Some(Terrain::Water) || map.at(q.0, q.1)
                == Some(Terrain::Water));
        assert(touches_water(map, t));
    }
    if exists|t: (int, int)| cluster.contains(t) && #[trigger] touches_water(map, t) {
        let t = choose|t: (int, int)| cluster.contains(t) && #[trigger] touches_water(map, t);
        if water_at(map, t.0 - 1, t.1) {
            assert(next_to(t, (t.0 - 1, t.1)));
        } else if water_at(map, t.0 + 1, t.1) {
            assert(next_to(t, (t.0 + 1, t.1)));
        } else if water_at(map, t.0, t.1 - 1) {
            assert(next_to(t, (t.0, t.1 - 1)));
        } else {
            assert(next_to(t, (t.0, t.1 + 1)));
        }
    }
    if borders_terrain(map, cluster, Terrain::Mountain, Terrain::Cliff) {
        let (t, q) = choose|t: (int, int), q: (int, int)|
            #![trigger cluster.contains(t), next_to(t, q)]
            cluster.contains(t) && next_to(t, q) && (map.at(q.0, q.1) == Some(Terrain::Mountain) || map.at(q.0, q.1)
                == Some(Terrain::Cliff));
        assert(touches_rock(map, t));
    }
    if exists|t: (int, int)| cluster.contains(t) && #[trigger] touches_rock(map, t) {
        let t = choose|t: (int, int)| cluster.contains(t) && #[trigger] touches_rock(map, t);
        if rock_at(map, t.0 - 1, t.1) {
            assert(next_to(t, (t.0 - 1, t.1)));
        } else if rock_at(map, t.0 + 1, t.1) {
            assert(next_to(t, (t.0 + 1, t.1)));
        } else if rock_at(map, t.0, t.1 - 1) {
            assert(next_to(t, (t.0, t.1 - 1)));
        } else {
            assert(next_to(t, (t.0, t.1 + 1)));
        }
    }
}

/// Each location that `compute` gives has the kind of its cluster (its
/// center's 4-connected region of nonzero corridor values): a river crossing
/// when the cluster borders a river of a mask that covers the map; else a
/// coastal narrow when it borders water and a mountain or cliff; else a
/// mountain pass.
pub proof fn law_location_kinds(map: TileMap, mask: Seq<bool>, cm: ChokepointMap, i: int)
    requires
        computed(map, mask, cm),
        0 <= i < cm.locations@.len(),
    ensures
        ({
            let loc = cm.locations@[i];
            let region = component(cm.corridors@, map.width as int, map.height as int, loc_center(loc));
            &&& borders_river(map, mask, region) ==> loc.kind == ChokepointKind::RiverCrossing
            &&& !borders_river(map, mask, region) && borders_terrain(map, region, Terrain::Water, Terrain::Water)
                && borders_terrain(map, region, Terrain::Mountain, Terrain::Cliff) ==> loc.kind
                == ChokepointKind::CoastalNarrow
            &&& !borders_river(map, mask, region) && !(borders_terrain(map, region, Terrain::Water, Terrain::Water)
                && borders_terrain(map, region, Terrain::Mountain, Terrain::Cliff)) ==> loc.kind
                == ChokepointKind::MountainPass
        }),
{
    lemma_computed_locations(map, mask, cm);
    assert(location_fits(map, mask, cm.corridors@, cm.locations@[i]));
    let region = component(cm.corridors@, map.width as int, map.height as int, loc_center(cm.locations@[i]));
    law_cluster_kinds(map, mask, region);
}

} // verus!
