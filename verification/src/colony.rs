use vstd::prelude::*;

use crate::dirty::DirtyMap;
use crate::palette::Season;
use crate::tilemap::{Terrain, TileMap};
use crate::visuals::ResourceType;

verus! {

/// Food spoils in winter on every thirtieth tick.
pub const SPOILAGE_TICKS: u64 = 30;

/// A mined tile becomes a quarry after this many harvests.
pub const QUARRY_AFTER: u32 = 6;

/// A mined tile becomes a deep quarry after this many harvests.
pub const DEEP_QUARRY_AFTER: u32 = 12;

/// Food lost to winter spoilage: two percent of the stock, at least one and
/// at most two units.
pub open spec fn spoilage(food: u32) -> u32 {
    let pct = food * 2 / 100;
    if pct >= 2 {
        2
    } else if pct <= 1 {
        1
    } else {
        pct as u32
    }
}

/// Food spoils this tick: in winter, on every thirtieth tick, while any is left.
pub fn spoilage_due(season: Season, tick: u64, food: u32) -> (due: bool)
    ensures
        due == (season == Season::Winter && tick % SPOILAGE_TICKS == 0 && food > 0),
{
    matches!(season, Season::Winter) && tick % SPOILAGE_TICKS == 0 && food > 0
}

/// Winter food decay: percentage-based spoilage, capped at two per event so
/// large stockpiles do not evaporate over a winter. Returns the food left and
/// the amount spoiled.
pub fn spoil_food(food: u32) -> (r: (u32, u32))
    ensures
        r.1 == spoilage(food),
        r.0 == if food >= spoilage(food) {
            food - spoilage(food)
        } else {
            0
        },
{
    let pct: u64 = food as u64 * 2 / 100;
    let decay: u32 = if pct >= 2 {
        2
    } else if pct <= 1 {
        1
    } else {
        pct as u32
    };
    (food.saturating_sub(decay), decay)
}

/// What the population count after a tick's deaths means for the game.
#[derive(Debug, Clone, Copy, PartialEq, Eq, Structural)]
pub struct PopulationUpdate {
    /// The highest population ever reached.
    pub peak: u32,
    /// The last villager died in this tick.
    pub game_over: bool,
}

/// Track the peak population and detect that the last villager died.
pub fn track_population(peak: u32, villagers_before: u32, villagers_after: u32) -> (u: PopulationUpdate)
    ensures
        u.peak == if villagers_after > peak {
            villagers_after
        } else {
            peak
        },
        u.game_over == (villagers_after == 0 && villagers_before > 0),
{
    let new_peak = if villagers_after > peak {
        villagers_after
    } else {
        peak
    };
    PopulationUpdate { peak: new_peak, game_over: villagers_after == 0 && villagers_before > 0 }
}

/// Units of food, wood and stone among deposited resources.
pub open spec fn deposit_count(deposited: Seq<ResourceType>, kind: ResourceType) -> nat
    decreases deposited.len(),
{
    if deposited.len() == 0 {
        0
    } else {
        deposit_count(deposited.drop_last(), kind) + if deposited.last() == kind {
            1nat
        } else {
            0nat
        }
    }
}

/// Count the food, wood and stone that villagers brought to the stockpile;
/// refined goods are not gathered by villagers and are not counted.
pub fn tally_deposits(deposited: &Vec<ResourceType>) -> (r: (u32, u32, u32))
    requires
        deposited@.len() <= u32::MAX,
    ensures
        r.0 == deposit_count(deposited@, ResourceType::Food),
        r.1 == deposit_count(deposited@, ResourceType::Wood),
        r.2 == deposit_count(deposited@, ResourceType::Stone),
{
    let mut food: u32 = 0;
    let mut wood: u32 = 0;
    let mut stone: u32 = 0;
    let mut i: usize = 0;
    while i < deposited.len()
        invariant
            i <= deposited@.len(),
            deposited@.len() <= u32::MAX,
            food == deposit_count(deposited@.take(i as int), ResourceType::Food),
            wood == deposit_count(deposited@.take(i as int), ResourceType::Wood),
            stone == deposit_count(deposited@.take(i as int), ResourceType::Stone),
            food + wood + stone <= i,
        decreases deposited@.len() - i,
    {
        proof {
            assert(deposited@.take(i + 1).drop_last() =~= deposited@.take(i as int));
        }
        match deposited[i] {
            ResourceType::Food => food = food + 1,
            ResourceType::Wood => wood = wood + 1,
            ResourceType::Stone => stone = stone + 1,
            _ => {},
        }
        i = i + 1;
    }
    proof {
        assert(deposited@.take(deposited@.len() as int) =~= deposited@);
    }
    (food, wood, stone)
}

/// Deforestation: a forest tile where wood was harvested becomes a stump and
/// is redrawn. Returns whether the tile changed; other tiles stay as they are.
pub fn deforest(map: &mut TileMap, dirty: &mut DirtyMap, x: usize, y: usize) -> (changed: bool)
    requires
        old(map).wf(),
        old(dirty).wf(),
    ensures
        final(map).wf(),
        final(dirty).wf(),
        final(map).width == old(map).width,
        final(map).height == old(map).height,
        changed == (old(map).at(x as int, y as int) == Some(Terrain::Forest)),
        forall|px: int, py: int|
            #[trigger] final(map).at(px, py) == if changed && px == x && py == y {
                Some(Terrain::Stump)
            } else {
                old(map).at(px, py)
            },
        final(dirty)@ == if changed {
            old(dirty)@.with_mark(x as int, y as int)
        } else {
            old(dirty)@
        },
{
    let is_forest = match map.get(x, y) {
        Some(t) => *t == Terrain::Forest,
        None => false,
    };
    if is_forest {
        map.set(x, y, Terrain::Stump);
        dirty.mark(x, y);
    }
    is_forest
}

/// What a mined tile turns into after its `count`-th harvest: a deep quarry
/// from twelve harvests on, a quarry from six on when it was still a
/// mountain, otherwise it stays as it is.
pub open spec fn quarry_stage(prev: Terrain, count: u32) -> Option<Terrain> {
    if count >= DEEP_QUARRY_AFTER {
        Some(Terrain::QuarryDeep)
    } else if count >= QUARRY_AFTER && prev == Terrain::Mountain {
        Some(Terrain::Quarry)
    } else {
        None
    }
}

/// The terrain a mined tile turns into after its `count`-th harvest, if it changes.
pub fn next_quarry_stage(prev: Terrain, count: u32) -> (r: Option<Terrain>)
    ensures
        r == quarry_stage(prev, count),
{
    if count >= DEEP_QUARRY_AFTER {
        Some(Terrain::QuarryDeep)
    } else if count >= QUARRY_AFTER && prev == Terrain::Mountain {
        Some(Terrain::Quarry)
    } else {
        None
    }
}

/// Offsets tried, in order, around a villager mining stone.
pub open spec fn mining_offsets() -> Seq<(int, int)> {
    seq![(0, 1), (0, -1), (1, 0), (-1, 0)]
}

/// A tile that stone can be mined from.
pub open spec fn mineable(t: Option<Terrain>) -> bool {
    t == Some(Terrain::Mountain) || t == Some(Terrain::Quarry)
}

/// The first neighbor of `(vx, vy)`, below, above, right or left, that is a
/// mountain or quarry.
pub open spec fn mining_target_of(map: TileMap, vx: i32, vy: i32) -> Option<(int, int)> {
    if exists|k: int| 0 <= k < 4 && mineable(map.at(vx + #[trigger] mining_offsets()[k].0, vy + mining_offsets()[k].1)) {
        let k = choose|k: int|
            0 <= k < 4 && mineable(map.at(vx + #[trigger] mining_offsets()[k].0, vy + mining_offsets()[k].1))
                && forall|j: int| 0 <= j < k ==> !mineable(map.at(vx + mining_offsets()[j].0, vy + mining_offsets()[j].1));
        Some((vx + mining_offsets()[k].0, vy + mining_offsets()[k].1))
    } else {
        None
    }
}

/// Find the mountain or quarry tile next to a villager at `(vx, vy)` that a
/// stone harvest works on: the first of the tiles below, above, right and left.
pub fn mining_target(map: &TileMap, vx: i32, vy: i32) -> (r: Option<(usize, usize)>)
    requires
        map.wf(),
    ensures
        match mining_target_of(*map, vx, vy) {
            Some((x, y)) => r matches Some((rx, ry)) && rx == x && ry == y,
            None => r is None,
        },
{
    let offsets: [(i64, i64); 4] = [(0, 1), (0, -1), (1, 0), (-1, 0)];
    let ghost offs = mining_offsets();
    let mut k: usize = 0;
    while k < 4
        invariant
            map.wf(),
            k <= 4,
            forall|i: int| 0 <= i < 4 ==> offsets@[i].0 == offs[i].0 && offsets@[i].1 == offs[i].1,
            offs == mining_offsets(),
            forall|j: int| 0 <= j < k ==> !mineable(map.at(vx + offs[j].0, vy + offs[j].1)),
        decreases 4 - k,
    {
        let (dx, dy) = offsets[k];
        let mx: i64 = vx as i64 + dx;
        let my: i64 = vy as i64 + dy;
        if mx >= 0 && my >= 0 {
            let found = match map.get(mx as usize, my as usize) {
                Some(t) => *t == Terrain::Mountain || *t == Terrain::Quarry,
                None => false,
            };
            if found {
                proof {
                    assert(mineable(map.at(vx + offs[k as int].0, vy + offs[k as int].1)));
                    let c = choose|c: int|
                        0 <= c < 4 && mineable(map.at(vx + #[trigger] offs[c].0, vy + offs[c].1))
                            && forall|j: int| 0 <= j < c ==> !mineable(map.at(vx + offs[j].0, vy + offs[j].1));
                    if c < k {
                        assert(!mineable(map.at(vx + offs[c].0, vy + offs[c].1)));
                    }
                    if c > k {
                        assert(!mineable(map.at(vx + offs[k as int].0, vy + offs[k as int].1)));
                    }
                }
                return Some((mx as usize, my as usize));
            }
        } else {
            assert(map.at(vx + offs[k as int].0, vy + offs[k as int].1) is None);
        }
        k = k + 1;
    }
    proof {
        assert forall|c: int| 0 <= c < 4 implies !mineable(map.at(vx + #[trigger] offs[c].0, vy + offs[c].1)) by {}
    }
    None
}

/// Winter spoilage takes one or two units of food per event, never more
/// than the stock holds, so that a large stockpile does not evaporate: one
/// unit below 100 food, two from 100 on (two percent, at least one, at most two).
pub proof fn law_spoilage_bounded(food: u32)
    requires
        food > 0,
    ensures
        1 <= spoilage(food) <= 2,
        spoilage(food) <= food,
        spoilage(food) == if food >= 100 {
            2u32
        } else {
            1u32
        },
{
    assert(food < 100 ==> food * 2 / 100 <= 1) by (nonlinear_arith);
    assert(food >= 100 ==> food * 2 / 100 >= 2) by (nonlinear_arith);
}

/// A mined tile only ever deepens: a mountain may become a quarry or a deep
/// quarry, a quarry only a deep quarry, and from twelve harvests on every
/// mined tile is a deep quarry.
pub proof fn law_quarries_only_deepen(prev: Terrain, count: u32)
    ensures
        quarry_stage(prev, count) != Some(Terrain::Mountain),
        prev == Terrain::Quarry ==> quarry_stage(prev, count) != Some(Terrain::Quarry),
        count >= DEEP_QUARRY_AFTER ==> quarry_stage(prev, count) == Some(Terrain::QuarryDeep),
        6 <= count < 12 ==> quarry_stage(prev, count) == if prev == Terrain::Mountain {
            Some(Terrain::Quarry)
        } else {
            None
        },
        count < 6 ==> quarry_stage(prev, count) is None,
{
}

} // verus!
