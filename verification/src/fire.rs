use vstd::prelude::*;

use crate::control::{notify, posted};
use crate::dice::random_in;
use crate::dirty::{DirtyMap, DirtyView};
use crate::tilemap::{Terrain, TileMap};

verus! {

// A fire tile is `(x, y, ticks)`: a burning tile and the ticks it has left.

/// `ps` names the tile `(x, y)`.
pub open spec fn names_tile(ps: Seq<(usize, usize)>, x: int, y: int) -> bool {
    exists|k: int| 0 <= k < ps.len() && ps[k].0 == x && ps[k].1 == y
}

/// The terrain at `(x, y)` after the tiles `ps` of `map` became `t`.
pub open spec fn terrain_after(map: TileMap, ps: Seq<(usize, usize)>, t: Terrain, x: int, y: int) -> Option<Terrain> {
    if map.at(x, y) is Some && names_tile(ps, x, y) {
        Some(t)
    } else {
        map.at(x, y)
    }
}

/// The redraw bookkeeping after marking the tiles `ps` one by one.
pub open spec fn marks_of(d: DirtyView, ps: Seq<(usize, usize)>) -> DirtyView
    decreases ps.len(),
{
    if ps.len() == 0 {
        d
    } else {
        marks_of(d, ps.drop_last()).with_mark(ps.last().0 as int, ps.last().1 as int)
    }
}

/// Positions of fire tiles.
pub open spec fn fire_positions(fires: Seq<(usize, usize, u32)>) -> Seq<(usize, usize)> {
    fires.map_values(|f: (usize, usize, u32)| (f.0, f.1))
}

/// A fire tile after one tick, `None` once it has burned out.
pub open spec fn fire_after_tick(f: (usize, usize, u32)) -> Option<(usize, usize, u32)> {
    if f.2 <= 1 {
        None
    } else {
        Some((f.0, f.1, (f.2 - 1) as u32))
    }
}

/// The tile a fire leaves when it burns out in this tick.
pub open spec fn burned_out(f: (usize, usize, u32)) -> Option<(usize, usize)> {
    if f.2 <= 1 {
        Some((f.0, f.1))
    } else {
        None
    }
}

/// Ignite a single tile at `tick`: it becomes burning, is marked for redraw
/// and joins the fire tiles with its burn time, and the player is told.
pub fn ignite_tile_with(
    map: &mut TileMap,
    dirty: &mut DirtyMap,
    fire_tiles: &mut Vec<(usize, usize, u32)>,
    notifications: &mut Vec<(u64, String)>,
    tick: u64,
    x: usize,
    y: usize,
    burn_ticks: u32,
)
    requires
        old(map).wf(),
        old(dirty).wf(),
    ensures
        final(map).wf(),
        final(map).width == old(map).width,
        final(map).height == old(map).height,
        forall|px: int, py: int|
            #[trigger] final(map).at(px, py) == terrain_after(*old(map), seq![(x, y)], Terrain::Burning, px, py),
        final(dirty).wf(),
        final(dirty)@ == old(dirty)@.with_mark(x as int, y as int),
        final(fire_tiles)@ == old(fire_tiles)@.push((x, y, burn_ticks)),
        posted(old(notifications)@, final(notifications)@, tick, "Fire! A forest fire has started!"@),
{
    let ghost before = *map;
    map.set(x, y, Terrain::Burning);
    proof {
        assert forall|px: int, py: int|
            #[trigger] map.at(px, py) == terrain_after(before, seq![(x, y)], Terrain::Burning, px, py) by {
            if px == x && py == y {
                assert(seq![(x, y)][0] == (x, y));
            }
        }
    }
    dirty.mark(x, y);
    fire_tiles.push((x, y, burn_ticks));
    notify(notifications, tick, String::from_str("Fire! A forest fire has started!"));
}

/// How long a newly lit tile burns: 30 to 50 ticks.
pub fn burn_time() -> (t: u32)
    ensures
        30 <= t <= 50,
{
    random_in(30, 51) as u32
}

/// Ignite a single tile at `tick` for a burn time of 30 to 50 ticks: it
/// becomes burning, is marked for redraw and joins the fire tiles, and the
/// player is told.
pub fn ignite_tile(
    map: &mut TileMap,
    dirty: &mut DirtyMap,
    fire_tiles: &mut Vec<(usize, usize, u32)>,
    notifications: &mut Vec<(u64, String)>,
    tick: u64,
    x: usize,
    y: usize,
)
    requires
        old(map).wf(),
        old(dirty).wf(),
    ensures
        final(map).wf(),
        final(map).width == old(map).width,
        final(map).height == old(map).height,
        forall|px: int, py: int|
            #[trigger] final(map).at(px, py) == terrain_after(*old(map), seq![(x, y)], Terrain::Burning, px, py),
        final(dirty).wf(),
        final(dirty)@ == old(dirty)@.with_mark(x as int, y as int),
        final(fire_tiles)@.len() == old(fire_tiles)@.len() + 1,
        final(fire_tiles)@.drop_last() == old(fire_tiles)@,
        final(fire_tiles)@.last().0 == x && final(fire_tiles)@.last().1 == y,
        30 <= final(fire_tiles)@.last().2 <= 50,
        posted(old(notifications)@, final(notifications)@, tick, "Fire! A forest fire has started!"@),
{
    let burn_ticks = burn_time();
    ignite_tile_with(map, dirty, fire_tiles, notifications, tick, x, y, burn_ticks);
    proof {
        assert(fire_tiles@.drop_last() =~= old(fire_tiles)@);
    }
}

/// Count every fire down by one tick and take out those that burned out.
/// Returns the burned-out tiles, in order.
pub fn burn_down(fire_tiles: &mut Vec<(usize, usize, u32)>) -> (done: Vec<(usize, usize)>)
    ensures
        final(fire_tiles)@ == old(fire_tiles)@.filter_map(|f: (usize, usize, u32)| fire_after_tick(f)),
        done@ == old(fire_tiles)@.filter_map(|f: (usize, usize, u32)| burned_out(f)),
{
    let ghost before = fire_tiles@;
    let mut kept: Vec<(usize, usize, u32)> = Vec::new();
    let mut done: Vec<(usize, usize)> = Vec::new();
    let mut i: usize = 0;
    while i < fire_tiles.len()
        invariant
            fire_tiles@ == before,
            i <= before.len(),
            kept@ == before.take(i as int).filter_map(|f: (usize, usize, u32)| fire_after_tick(f)),
            done@ == before.take(i as int).filter_map(|f: (usize, usize, u32)| burned_out(f)),
        decreases before.len() - i,
    {
        let (x, y, timer) = fire_tiles[i];
        proof {
            before.lemma_filter_map_take_succ(|f: (usize, usize, u32)| fire_after_tick(f), i as int);
            before.lemma_filter_map_take_succ(|f: (usize, usize, u32)| burned_out(f), i as int);
        }
        let left = if timer > 0 {
            timer - 1
        } else {
            0
        };
        // Burnout: tiles whose timer hit 0 become scorched
        if left == 0 {
            done.push((x, y));
        } else {
            kept.push((x, y, left));
        }
        i = i + 1;
    }
    proof {
        assert(before.take(before.len() as int) =~= before);
    }
    *fire_tiles = kept;
    done
}

/// Turn the tiles `ps` into terrain `t`, marking each for redraw.
fn paint_tiles(map: &mut TileMap, dirty: &mut DirtyMap, ps: &Vec<(usize, usize)>, t: Terrain)
    requires
        old(map).wf(),
        old(dirty).wf(),
    ensures
        final(map).wf(),
        final(map).width == old(map).width,
        final(map).height == old(map).height,
        forall|px: int, py: int| #[trigger] final(map).at(px, py) == terrain_after(*old(map), ps@, t, px, py),
        final(dirty).wf(),
        final(dirty)@ == marks_of(old(dirty)@, ps@),
{
    let ghost m0 = *map;
    let ghost d0 = dirty@;
    let mut i: usize = 0;
    while i < ps.len()
        invariant
            map.wf(),
            dirty.wf(),
            i <= ps@.len(),
            map.width == m0.width,
            map.height == m0.height,
            forall|px: int, py: int| #[trigger] map.at(px, py) == terrain_after(m0, ps@.take(i as int), t, px, py),
            dirty@ == marks_of(d0, ps@.take(i as int)),
        decreases ps@.len() - i,
    {
        let (x, y) = ps[i];
        let ghost mi = *map;
        map.set(x, y, t);
        dirty.mark(x, y);
        proof {
            let prev = ps@.take(i as int);
            let next = ps@.take(i + 1);
            assert(next.drop_last() =~= prev);
            assert(next.last() == (x, y));
            assert forall|px: int, py: int| #[trigger] map.at(px, py) == terrain_after(m0, next, t, px, py) by {
                assert(mi.at(px, py) == terrain_after(m0, prev, t, px, py));
                assert(m0.at(px, py) is Some <==> mi.at(px, py) is Some);
                if names_tile(prev, px, py) {
                    let k = choose|k: int| 0 <= k < prev.len() && prev[k].0 == px && prev[k].1 == py;
                    assert(next[k] == prev[k]);
                }
                if px == x && py == y {
                    assert(next[i as int] == (x, y));
                }
                if names_tile(next, px, py) && !(px == x && py == y) {
                    let k = choose|k: int| 0 <= k < next.len() && next[k].0 == px && next[k].1 == py;
                    assert(k < i);
                    assert(prev[k] == next[k]);
                }
            }
        }
        i = i + 1;
    }
    proof {
        assert(ps@.take(ps@.len() as int) =~= ps@);
    }
}

/// Burned-out tiles become scorched ground and are redrawn.
pub fn scorch_tiles(map: &mut TileMap, dirty: &mut DirtyMap, done: &Vec<(usize, usize)>)
    requires
        old(map).wf(),
        old(dirty).wf(),
    ensures
        final(map).wf(),
        final(map).width == old(map).width,
        final(map).height == old(map).height,
        forall|px: int, py: int|
            #[trigger] final(map).at(px, py) == terrain_after(*old(map), done@, Terrain::Scorched, px, py),
        final(dirty).wf(),
        final(dirty)@ == marks_of(old(dirty)@, done@),
{
    paint_tiles(map, dirty, done, Terrain::Scorched);
}

/// Whether a spreading fire may take tile `(x, y)`: it is neither burning
/// already nor among the fires started this tick.
pub fn is_new_fire(fire_tiles: &Vec<(usize, usize, u32)>, new_fires: &Vec<(usize, usize, u32)>, x: usize, y: usize) -> (r: bool)
    ensures
        r == !(names_tile(fire_positions(fire_tiles@), x as int, y as int) || names_tile(
            fire_positions(new_fires@),
            x as int,
            y as int,
        )),
{
    let mut i: usize = 0;
    while i < fire_tiles.len()
        invariant
            i <= fire_tiles@.len(),
            forall|k: int| 0 <= k < i ==> !(fire_tiles@[k].0 == x && fire_tiles@[k].1 == y),
        decreases fire_tiles@.len() - i,
    {
        if fire_tiles[i].0 == x && fire_tiles[i].1 == y {
            assert(fire_positions(fire_tiles@)[i as int] == (x, y));
            return false;
        }
        i = i + 1;
    }
    let mut j: usize = 0;
    while j < new_fires.len()
        invariant
            j <= new_fires@.len(),
            forall|k: int| 0 <= k < j ==> !(new_fires@[k].0 == x && new_fires@[k].1 == y),
        decreases new_fires@.len() - j,
    {
        if new_fires[j].0 == x && new_fires[j].1 == y {
            assert(fire_positions(new_fires@)[j as int] == (x, y));
            return false;
        }
        j = j + 1;
    }
    proof {
        assert(!names_tile(fire_positions(fire_tiles@), x as int, y as int)) by {
            if names_tile(fire_positions(fire_tiles@), x as int, y as int) {
                let k = choose|k: int|
                    0 <= k < fire_positions(fire_tiles@).len() && fire_positions(fire_tiles@)[k].0 == x
                        && fire_positions(fire_tiles@)[k].1 == y;
                assert(fire_tiles@[k].0 == x && fire_tiles@[k].1 == y);
            }
        }
        assert(!names_tile(fire_positions(new_fires@), x as int, y as int)) by {
            if names_tile(fire_positions(new_fires@), x as int, y as int) {
                let k = choose|k: int|
                    0 <= k < fire_positions(new_fires@).len() && fire_positions(new_fires@)[k].0 == x
                        && fire_positions(new_fires@)[k].1 == y;
                assert(new_fires@[k].0 == x && new_fires@[k].1 == y);
            }
        }
    }
    true
}

/// Set the fires that spread this tick on the map, mark them for redraw and
/// add them to the fire tiles.
pub fn light_new_fires(
    map: &mut TileMap,
    dirty: &mut DirtyMap,
    fire_tiles: &mut Vec<(usize, usize, u32)>,
    new_fires: Vec<(usize, usize, u32)>,
)
    requires
        old(map).wf(),
        old(dirty).wf(),
    ensures
        final(map).wf(),
        final(map).width == old(map).width,
        final(map).height == old(map).height,
        forall|px: int, py: int|
            #[trigger] final(map).at(px, py) == terrain_after(
                *old(map),
                fire_positions(new_fires@),
                Terrain::Burning,
                px,
                py,
            ),
        final(dirty).wf(),
        final(dirty)@ == marks_of(old(dirty)@, fire_positions(new_fires@)),
        final(fire_tiles)@ == old(fire_tiles)@ + new_fires@,
{
    let mut ps: Vec<(usize, usize)> = Vec::new();
    let mut i: usize = 0;
    while i < new_fires.len()
        invariant
            i <= new_fires@.len(),
            ps@ == fire_positions(new_fires@.take(i as int)),
        decreases new_fires@.len() - i,
    {
        ps.push((new_fires[i].0, new_fires[i].1));
        proof {
            assert(fire_positions(new_fires@.take(i + 1)) =~= fire_positions(new_fires@.take(i as int)).push(
                (new_fires@[i as int].0, new_fires@[i as int].1),
            ));
        }
        i = i + 1;
    }
    proof {
        assert(new_fires@.take(new_fires@.len() as int) =~= new_fires@);
    }
    paint_tiles(map, dirty, &ps, Terrain::Burning);
    let mut rest = new_fires;
    fire_tiles.append(&mut rest);
}

/// Each tick every fire tile either burns on with one tick less or burns
/// out, never both: the fires left and the tiles burned out together account
/// for all fires of the tick before.
pub proof fn law_fire_burns_on_or_out(fires: Seq<(usize, usize, u32)>)
    ensures
        fires.filter_map(|f: (usize, usize, u32)| fire_after_tick(f)).len() + fires.filter_map(
            |f: (usize, usize, u32)| burned_out(f),
        ).len() == fires.len(),
        forall|f: (usize, usize, u32)| #[trigger] fire_after_tick(f) is Some != burned_out(f) is Some,
    decreases fires.len(),
{
    if fires.len() > 0 {
        law_fire_burns_on_or_out(fires.drop_last());
    }
}

} // verus!
