use vstd::prelude::*;

use crate::control::{after_notify, milestone_text, notify_milestone, BANNER_TICKS, MAX_NOTIFICATIONS};
use crate::modes::{Milestone, MilestoneBanner};
use crate::tilemap::{Terrain, TileMap};

verus! {

/// What the milestone checks read of a settlement.
#[derive(Debug, Clone, Copy, PartialEq, Eq, Structural)]
pub struct SettlementFacts {
    /// Years survived so far.
    pub year: u32,
    /// Living villagers.
    pub villagers: u32,
    /// Wood in the stockpile.
    pub wood: u32,
    /// Planks in the stockpile.
    pub planks: u32,
    /// Food in the stockpile.
    pub food: u32,
    /// The settlement knows of at least one stone deposit.
    pub knows_stone: bool,
    /// Completed farm plots.
    pub farms: usize,
    /// Completed huts.
    pub huts: usize,
    /// Completed processing buildings.
    pub processing: usize,
    /// Completed garrisons.
    pub garrisons: usize,
    /// A processing building turns wood into planks.
    pub has_workshop: bool,
    /// A processing building turns stone into masonry.
    pub has_smithy: bool,
    /// A processing building turns food into grain.
    pub has_granary: bool,
    /// A processing building bakes grain into bread.
    pub has_bakery: bool,
}

/// Half the side of the square around the settlement center searched for roads.
pub const ROAD_SEARCH_RADIUS: i32 = 20;

/// Roads are looked for once every this many ticks.
pub const ROAD_CHECK_TICKS: u64 = 100;

/// The order in which milestones are checked, and announced.
pub open spec fn milestone_order() -> Seq<Milestone> {
    seq![
        Milestone::FirstWoodGathered,
        Milestone::FirstStoneFound,
        Milestone::FirstFarm,
        Milestone::FirstHut,
        Milestone::FirstWinterSurvived,
        Milestone::PopulationTen,
        Milestone::FirstWorkshop,
        Milestone::FirstSmith,
        Milestone::FirstRoad,
        Milestone::FiveBuildings,
        Milestone::PopulationTwentyFive,
        Milestone::FirstGranary,
        Milestone::FirstBakery,
        Milestone::FirstPlank,
        Milestone::HundredFood,
        Milestone::FirstGarrison,
        Milestone::RaidSurvived,
        Milestone::PopulationFifty,
    ]
}

/// A road tile lies within the search square around `(cx, cy)`.
pub open spec fn road_near(map: TileMap, cx: i32, cy: i32) -> bool {
    exists|dx: int, dy: int|
        -ROAD_SEARCH_RADIUS <= dx <= ROAD_SEARCH_RADIUS && -ROAD_SEARCH_RADIUS <= dy <= ROAD_SEARCH_RADIUS
            && #[trigger] map.at(cx + dx, cy + dy) == Some(Terrain::Road)
}

/// The road milestone is judged at this tick, and a road is near.
pub open spec fn road_found(map: TileMap, center: (i32, i32), tick: u64) -> bool {
    tick % ROAD_CHECK_TICKS == 0 && road_near(map, center.0, center.1)
}

/// The condition of milestone `m`; `road` says whether a road was found,
/// `raid_clean` whether a raid was repelled without loss.
pub open spec fn reached(m: Milestone, f: SettlementFacts, road: bool, raid_clean: bool) -> bool {
    match m {
        Milestone::FirstWoodGathered => f.wood > 0,
        Milestone::FirstStoneFound => f.knows_stone,
        Milestone::FirstFarm => f.farms > 0,
        Milestone::FirstHut => f.huts > 0,
        Milestone::FirstWinterSurvived => f.year >= 1 && f.villagers >= 1,
        Milestone::PopulationTen => f.villagers >= 10,
        Milestone::FirstWorkshop => f.has_workshop,
        Milestone::FirstSmith => f.has_smithy,
        Milestone::FirstRoad => road,
        Milestone::FiveBuildings => f.farms + f.huts + f.processing + f.garrisons >= 5,
        Milestone::PopulationTwentyFive => f.villagers >= 25,
        Milestone::FirstGranary => f.has_granary,
        Milestone::FirstBakery => f.has_bakery,
        Milestone::FirstPlank => f.planks > 0,
        Milestone::HundredFood => f.food >= 100,
        Milestone::FirstGarrison => f.garrisons > 0,
        Milestone::RaidSurvived => raid_clean,
        Milestone::PopulationFifty => f.villagers >= 50,
    }
}

/// Milestone `m` is reached now and was not reached before.
pub open spec fn newly_reached(
    f: SettlementFacts,
    road: bool,
    raid_clean: bool,
    had: Seq<Milestone>,
) -> spec_fn(Milestone) -> bool {
    |m: Milestone| reached(m, f, road, raid_clean) && !had.contains(m)
}

/// The text announcing milestone `m`.
pub open spec fn milestone_message(m: Milestone) -> Seq<char> {
    match m {
        Milestone::FirstWoodGathered => "First timber hauled back to camp!"@,
        Milestone::FirstStoneFound => "Stone deposit discovered!"@,
        Milestone::FirstFarm => "First farm planted -- food from the land!"@,
        Milestone::FirstHut => "First hut built -- settlers have shelter!"@,
        Milestone::FirstWinterSurvived => "First winter survived!"@,
        Milestone::PopulationTen => "Population reached 10 -- a real village now!"@,
        Milestone::FirstWorkshop => "Workshop built -- planks now available!"@,
        Milestone::FirstSmith => "Smithy built -- stone becomes masonry!"@,
        Milestone::FirstRoad => "A footpath has worn into the earth!"@,
        Milestone::FiveBuildings => "Five structures standing -- the village takes shape!"@,
        Milestone::PopulationTwentyFive => "Population reached 25!"@,
        Milestone::FirstGranary => "Granary built -- grain stores for winter!"@,
        Milestone::FirstBakery => "Bakery built -- bread on the table!"@,
        Milestone::FirstPlank => "First plank produced -- refined goods!"@,
        Milestone::HundredFood => "Food stores reached 100 -- plenty for now!"@,
        Milestone::FirstGarrison => "Garrison built -- the village can defend itself!"@,
        Milestone::RaidSurvived => "Raid repelled -- not a single soul lost!"@,
        Milestone::PopulationFifty => "Population reached 50 -- a thriving settlement!"@,
    }
}

/// The text announcing milestone `m`.
pub fn message_of(m: Milestone) -> (r: &'static str)
    ensures
        r@ == milestone_message(m),
{
    match m {
        Milestone::FirstWoodGathered => "First timber hauled back to camp!",
        Milestone::FirstStoneFound => "Stone deposit discovered!",
        Milestone::FirstFarm => "First farm planted -- food from the land!",
        Milestone::FirstHut => "First hut built -- settlers have shelter!",
        Milestone::FirstWinterSurvived => "First winter survived!",
        Milestone::PopulationTen => "Population reached 10 -- a real village now!",
        Milestone::FirstWorkshop => "Workshop built -- planks now available!",
        Milestone::FirstSmith => "Smithy built -- stone becomes masonry!",
        Milestone::FirstRoad => "A footpath has worn into the earth!",
        Milestone::FiveBuildings => "Five structures standing -- the village takes shape!",
        Milestone::PopulationTwentyFive => "Population reached 25!",
        Milestone::FirstGranary => "Granary built -- grain stores for winter!",
        Milestone::FirstBakery => "Bakery built -- bread on the table!",
        Milestone::FirstPlank => "First plank produced -- refined goods!",
        Milestone::HundredFood => "Food stores reached 100 -- plenty for now!",
        Milestone::FirstGarrison => "Garrison built -- the village can defend itself!",
        Milestone::RaidSurvived => "Raid repelled -- not a single soul lost!",
        Milestone::PopulationFifty => "Population reached 50 -- a thriving settlement!",
    }
}


/// Look for a road tile in the square of radius 20 around `(cx, cy)`.
pub fn road_nearby(map: &TileMap, cx: i32, cy: i32) -> (found: bool)
    requires
        map.wf(),
    ensures
        found == road_near(*map, cx, cy),
{
    let radius: i64 = ROAD_SEARCH_RADIUS as i64;
    let mut dy: i64 = -radius;
    while dy <= radius
        invariant
            map.wf(),
            radius == ROAD_SEARCH_RADIUS,
            -radius <= dy <= radius + 1,
            forall|ddx: int, ddy: int|
                -radius <= ddx <= radius && -radius <= ddy < dy ==> #[trigger] map.at(cx + ddx, cy + ddy)
                    != Some(Terrain::Road),
        decreases radius + 1 - dy,
    {
        let mut dx: i64 = -radius;
        while dx <= radius
            invariant
                map.wf(),
                radius == ROAD_SEARCH_RADIUS,
                -radius <= dy <= radius,
                -radius <= dx <= radius + 1,
                forall|ddx: int, ddy: int|
                    -radius <= ddx <= radius && -radius <= ddy < dy ==> #[trigger] map.at(cx + ddx, cy + ddy)
                        != Some(Terrain::Road),
                forall|ddx: int| -radius <= ddx < dx ==> #[trigger] map.at(cx + ddx, cy + dy) != Some(Terrain::Road),
            decreases radius + 1 - dx,
        {
            let x: i64 = cx as i64 + dx;
            let y: i64 = cy as i64 + dy;
            if x >= 0 && y >= 0 {
                match map.get(x as usize, y as usize) {
                    Some(t) => {
                        if *t == Terrain::Road {
                            assert(map.at(cx + dx, cy + dy) == Some(Terrain::Road));
                            return true;
                        }
                    },
                    None => {},
                }
            } else {
                assert(map.at(cx + dx, cy + dy) is None);
            }
            dx = dx + 1;
        }
        dy = dy + 1;
    }
    false
}

/// Whether `had` already holds milestone `m`.
fn holds(had: &Vec<Milestone>, m: Milestone) -> (r: bool)
    ensures
        r == had@.contains(m),
{
    let mut i: usize = 0;
    while i < had.len()
        invariant
            i <= had@.len(),
            forall|j: int| 0 <= j < i ==> had@[j] != m,
        decreases had@.len() - i,
    {
        if had[i] == m {
            assert(had@[i as int] == m);
            return true;
        }
        i = i + 1;
    }
    false
}

/// Whether the condition of milestone `m` holds.
fn reached_now(m: Milestone, f: &SettlementFacts, road: bool, raid_clean: bool) -> (r: bool)
    ensures
        r == reached(m, *f, road, raid_clean),
{
    match m {
        Milestone::FirstWoodGathered => f.wood > 0,
        Milestone::FirstStoneFound => f.knows_stone,
        Milestone::FirstFarm => f.farms > 0,
        Milestone::FirstHut => f.huts > 0,
        Milestone::FirstWinterSurvived => f.year >= 1 && f.villagers >= 1,
        Milestone::PopulationTen => f.villagers >= 10,
        Milestone::FirstWorkshop => f.has_workshop,
        Milestone::FirstSmith => f.has_smithy,
        Milestone::FirstRoad => road,
        Milestone::FiveBuildings => {
            // Stockpiles and roads do not count as buildings here
            let total: u128 = f.farms as u128 + f.huts as u128 + f.processing as u128 + f.garrisons as u128;
            total >= 5
        },
        Milestone::PopulationTwentyFive => f.villagers >= 25,
        Milestone::FirstGranary => f.has_granary,
        Milestone::FirstBakery => f.has_bakery,
        Milestone::FirstPlank => f.planks > 0,
        Milestone::HundredFood => f.food >= 100,
        Milestone::FirstGarrison => f.garrisons > 0,
        Milestone::RaidSurvived => raid_clean,
        Milestone::PopulationFifty => f.villagers >= 50,
    }
}

fn milestone_list() -> (v: Vec<Milestone>)
    ensures
        v@ == milestone_order(),
{
    let v = vec![
        Milestone::FirstWoodGathered,
        Milestone::FirstStoneFound,
        Milestone::FirstFarm,
        Milestone::FirstHut,
        Milestone::FirstWinterSurvived,
        Milestone::PopulationTen,
        Milestone::FirstWorkshop,
        Milestone::FirstSmith,
        Milestone::FirstRoad,
        Milestone::FiveBuildings,
        Milestone::PopulationTwentyFive,
        Milestone::FirstGranary,
        Milestone::FirstBakery,
        Milestone::FirstPlank,
        Milestone::HundredFood,
        Milestone::FirstGarrison,
        Milestone::RaidSurvived,
        Milestone::PopulationFifty,
    ];
    assert(v@ =~= milestone_order());
    v
}

proof fn lemma_order_distinct()
    ensures
        milestone_order().no_duplicates(),
{
    let s = milestone_order();
    assert forall|i: int, j: int| 0 <= i < s.len() && 0 <= j < s.len() && i != j implies s[i] != s[j] by {
        assert(s[i] as int >= 0);
    }
}

/// Check every milestone not yet reached, in the fixed order, and record
/// those whose condition now holds. Roads near `center` are only looked for
/// on every hundredth tick; a repelled raid is counted once, clearing its flag.
/// Returns the newly reached milestones in order; the caller announces each.
pub fn check_milestones(
    milestones: &mut Vec<Milestone>,
    facts: &SettlementFacts,
    map: &TileMap,
    center: (i32, i32),
    tick: u64,
    raid_survived_clean: &mut bool,
) -> (fired: Vec<Milestone>)
    requires
        map.wf(),
    ensures
        fired@ == milestone_order().filter(
            newly_reached(*facts, road_found(*map, center, tick), *old(raid_survived_clean), old(milestones)@),
        ),
        final(milestones)@ == old(milestones)@ + fired@,
        *final(raid_survived_clean) == (*old(raid_survived_clean) && !fired@.contains(Milestone::RaidSurvived)),
{
    let ghost had = milestones@;
    let raid_clean = *raid_survived_clean;
    let order = milestone_list();
    let ghost pred = newly_reached(*facts, road_found(*map, center, tick), raid_clean, had);
    let mut fired: Vec<Milestone> = Vec::new();
    let mut i: usize = 0;
    proof {
        lemma_order_distinct();
    }
    while i < order.len()
        invariant
            map.wf(),
            order@ == milestone_order(),
            milestone_order().no_duplicates(),
            i <= order@.len(),
            pred == newly_reached(*facts, road_found(*map, center, tick), raid_clean, had),
            fired@ == order@.take(i as int).filter(pred),
            milestones@ == had + fired@,
            *raid_survived_clean == (raid_clean && !fired@.contains(Milestone::RaidSurvived)),
        decreases order@.len() - i,
    {
        let m = order[i];
        let fresh = !holds(milestones, m);
        // The road search is costly: only made when its milestone is still open
        let mut road_now = false;
        if matches!(m, Milestone::FirstRoad) && fresh && tick % ROAD_CHECK_TICKS == 0 {
            road_now = road_nearby(map, center.0, center.1);
        }
        proof {
            assert(m == milestone_order()[i as int]);
            // a milestone later in the order is not among those fired so far
            assert forall|k: int| 0 <= k < fired@.len() implies fired@[k] != m by {
                let taken = order@.take(i as int);
                assert(taken.filter(pred).contains(fired@[k]));
                taken.lemma_filter_contains_rev(pred, fired@[k]);
                let j = choose|j: int| 0 <= j < taken.len() && taken[j] == fired@[k];
                assert(order@[j] == taken[j]);
            }
            assert((had + fired@).contains(m) == had.contains(m)) by {
                if (had + fired@).contains(m) && !had.contains(m) {
                    let j = choose|j: int| 0 <= j < (had + fired@).len() && (had + fired@)[j] == m;
                    assert(fired@[j - had.len()] == m);
                }
                if had.contains(m) {
                    let j = choose|j: int| 0 <= j < had.len() && had[j] == m;
                    assert((had + fired@)[j] == m);
                }
            }
        }
        let now = fresh && if matches!(m, Milestone::FirstRoad) {
            road_now
        } else {
            reached_now(m, facts, false, raid_clean)
        };
        proof {
            assert(now == pred(m));
            assert(order@.take(i + 1).drop_last() =~= order@.take(i as int));
            assert(order@.take(i + 1).last() == m);
            reveal(Seq::filter);
        }
        let ghost before = fired@;
        if now {
            milestones.push(m);
            fired.push(m);
            if matches!(m, Milestone::RaidSurvived) {
                *raid_survived_clean = false;
            }
        }
        proof {
            assert(milestones@ =~= had + fired@);
            if !now {
                assert(fired@.contains(Milestone::RaidSurvived) == before.contains(Milestone::RaidSurvived));
            } else {
                assert(fired@.last() == m);
                assert(fired@.contains(Milestone::RaidSurvived) == (before.contains(Milestone::RaidSurvived) || m is RaidSurvived)) by {
                    if fired@.contains(Milestone::RaidSurvived) && !(m is RaidSurvived) {
                        let j = choose|j: int| 0 <= j < fired@.len() && fired@[j] == Milestone::RaidSurvived;
                        assert(before[j] == Milestone::RaidSurvived);
                    }
                    if before.contains(Milestone::RaidSurvived) {
                        let j = choose|j: int| 0 <= j < before.len() && before[j] == Milestone::RaidSurvived;
                        assert(fired@[j] == Milestone::RaidSurvived);
                    }
                }
            }
        }
        i = i + 1;
    }
    proof {
        assert(order@.take(order@.len() as int) =~= order@);
    }
    fired
}


/// The notification log as text: each entry's tick and characters.
pub open spec fn notice_view(log: Seq<(u64, String)>) -> Seq<(u64, Seq<char>)> {
    log.map_values(|e: (u64, String)| (e.0, e.1@))
}

/// The notification log, as text, after posting `text` at `tick`: appended,
/// and the oldest entry dropped once more than five are held.
pub open spec fn after_notice(v: Seq<(u64, Seq<char>)>, tick: u64, text: Seq<char>) -> Seq<(u64, Seq<char>)> {
    let grown = v.push((tick, text));
    if grown.len() > MAX_NOTIFICATIONS {
        grown.subrange(1, grown.len() as int)
    } else {
        grown
    }
}

/// The notification log, as text, after posting `texts` one by one at `tick`.
pub open spec fn notices_after(v: Seq<(u64, Seq<char>)>, tick: u64, texts: Seq<Seq<char>>) -> Seq<(u64, Seq<char>)>
    decreases texts.len(),
{
    if texts.len() == 0 {
        v
    } else {
        after_notice(notices_after(v, tick, texts.drop_last()), tick, texts.last())
    }
}

/// The logged text announcing each milestone of `ms`, in order.
pub open spec fn milestone_texts(ms: Seq<Milestone>) -> Seq<Seq<char>> {
    ms.map_values(|m: Milestone| milestone_text(milestone_message(m)))
}

/// A log of strings as text.
pub open spec fn log_view(log: Seq<String>) -> Seq<Seq<char>> {
    log.map_values(|s: String| s@)
}

proof fn lemma_notice_view_after(log: Seq<(u64, String)>, tick: u64, msg: String)
    ensures
        notice_view(after_notify(log, tick, msg)) == after_notice(notice_view(log), tick, msg@),
{
    let grown = log.push((tick, msg));
    assert(notice_view(grown) =~= notice_view(log).push((tick, msg@)));
    if grown.len() > MAX_NOTIFICATIONS {
        assert(notice_view(grown.subrange(1, grown.len() as int)) =~= notice_view(grown).subrange(
            1,
            grown.len() as int,
        ));
    }
}

/// Announce each milestone of `fired`, in order: it takes the banner, and
/// its marked text goes to the event log and to the notifications at `tick`.
pub fn announce_milestones(
    fired: &Vec<Milestone>,
    banner: &mut Option<MilestoneBanner>,
    event_log: &mut Vec<String>,
    notifications: &mut Vec<(u64, String)>,
    tick: u64,
)
    ensures
        final(event_log)@.len() == old(event_log)@.len() + fired@.len(),
        final(event_log)@.take(old(event_log)@.len() as int) == old(event_log)@,
        log_view(final(event_log)@) == log_view(old(event_log)@) + milestone_texts(fired@),
        notice_view(final(notifications)@) == notices_after(
            notice_view(old(notifications)@),
            tick,
            milestone_texts(fired@),
        ),
        fired@.len() == 0 ==> *final(banner) == *old(banner),
        fired@.len() > 0 ==> (*final(banner) matches Some(b) && b.message@ == milestone_message(fired@.last())
            && b.ticks_remaining == BANNER_TICKS),
{
    let ghost log0 = event_log@;
    let ghost notes0 = notice_view(notifications@);
    let mut i: usize = 0;
    while i < fired.len()
        invariant
            i <= fired@.len(),
            event_log@.len() == log0.len() + i,
            event_log@.take(log0.len() as int) == log0,
            log_view(event_log@) == log_view(log0) + milestone_texts(fired@.take(i as int)),
            notice_view(notifications@) == notices_after(notes0, tick, milestone_texts(fired@.take(i as int))),
            i == 0 ==> *banner == *old(banner),
            i > 0 ==> (*banner matches Some(b) && b.message@ == milestone_message(fired@[i - 1])
                && b.ticks_remaining == BANNER_TICKS),
        decreases fired@.len() - i,
    {
        let m = fired[i];
        let ghost log_before = event_log@;
        let ghost notes_before = notifications@;
        notify_milestone(banner, event_log, notifications, tick, message_of(m));
        proof {
            let texts_i = milestone_texts(fired@.take(i as int));
            let texts_n = milestone_texts(fired@.take(i + 1));
            assert(fired@.take(i + 1) =~= fired@.take(i as int).push(m));
            assert(texts_n =~= texts_i.push(milestone_text(milestone_message(m))));
            assert(texts_n.drop_last() =~= texts_i);
            assert(event_log@ =~= log_before.push(event_log@.last()));
            assert(log_view(event_log@) =~= log_view(log_before).push(milestone_text(milestone_message(m))));
            assert(event_log@.take(log0.len() as int) =~= log_before.take(log0.len() as int));
            lemma_notice_view_after(notes_before, tick, notifications@.last().1);
        }
        i = i + 1;
    }
    proof {
        assert(fired@.take(fired@.len() as int) =~= fired@);
    }
}

/// Check the milestones and announce those newly reached, as
/// `check_milestones` and then `announce_milestones` do.
pub fn check_and_announce_milestones(
    milestones: &mut Vec<Milestone>,
    facts: &SettlementFacts,
    map: &TileMap,
    center: (i32, i32),
    tick: u64,
    raid_survived_clean: &mut bool,
    banner: &mut Option<MilestoneBanner>,
    event_log: &mut Vec<String>,
    notifications: &mut Vec<(u64, String)>,
) -> (fired: Vec<Milestone>)
    requires
        map.wf(),
    ensures
        fired@ == milestone_order().filter(
            newly_reached(*facts, road_found(*map, center, tick), *old(raid_survived_clean), old(milestones)@),
        ),
        final(milestones)@ == old(milestones)@ + fired@,
        *final(raid_survived_clean) == (*old(raid_survived_clean) && !fired@.contains(Milestone::RaidSurvived)),
        final(event_log)@.take(old(event_log)@.len() as int) == old(event_log)@,
        log_view(final(event_log)@) == log_view(old(event_log)@) + milestone_texts(fired@),
        notice_view(final(notifications)@) == notices_after(
            notice_view(old(notifications)@),
            tick,
            milestone_texts(fired@),
        ),
        fired@.len() == 0 ==> *final(banner) == *old(banner),
        fired@.len() > 0 ==> (*final(banner) matches Some(b) && b.message@ == milestone_message(fired@.last())
            && b.ticks_remaining == BANNER_TICKS),
{
    let fired = check_milestones(milestones, facts, map, center, tick, raid_survived_clean);
    announce_milestones(&fired, banner, event_log, notifications, tick);
    fired
}

proof fn lemma_filter_distinct(s: Seq<Milestone>, p: spec_fn(Milestone) -> bool)
    requires
        s.no_duplicates(),
    ensures
        s.filter(p).no_duplicates(),
    decreases s.len(),
{
    reveal(Seq::filter);
    if s.len() > 0 {
        let rest = s.drop_last();
        assert(rest.no_duplicates());
        lemma_filter_distinct(rest, p);
        if p(s.last()) {
            let fr = rest.filter(p);
            assert forall|k: int| 0 <= k < fr.len() implies fr[k] != s.last() by {
                assert(fr.contains(fr[k]));
                rest.lemma_filter_contains_rev(p, fr[k]);
                let j = choose|j: int| 0 <= j < rest.len() && rest[j] == fr[k];
                assert(s[j] == rest[j]);
            }
        }
    }
}

/// Every milestone is recorded at most once; each one whose condition holds
/// is recorded after a check, and a check records only milestones whose
/// condition holds and that were not recorded before.
pub proof fn law_milestones_recorded_once(had: Seq<Milestone>, f: SettlementFacts, road: bool, raid_clean: bool)
    requires
        had.no_duplicates(),
    ensures
        (had + milestone_order().filter(newly_reached(f, road, raid_clean, had))).no_duplicates(),
        forall|m: Milestone|
            reached(m, f, road, raid_clean) ==> #[trigger] (had + milestone_order().filter(
                newly_reached(f, road, raid_clean, had),
            )).contains(m),
        forall|m: Milestone|
            #[trigger] milestone_order().filter(newly_reached(f, road, raid_clean, had)).contains(m) ==> reached(
                m,
                f,
                road,
                raid_clean,
            ) && !had.contains(m),
{
    let p = newly_reached(f, road, raid_clean, had);
    let order = milestone_order();
    let fired = order.filter(p);
    let all = had + fired;
    lemma_order_distinct();
    lemma_filter_distinct(order, p);
    assert forall|m: Milestone| #[trigger] fired.contains(m) implies reached(m, f, road, raid_clean) && !had.contains(m) by {
        let k = choose|k: int| 0 <= k < fired.len() && fired[k] == m;
        order.lemma_filter_pred(p, k);
    }
    assert forall|i: int, j: int| 0 <= i < all.len() && 0 <= j < all.len() && i != j implies all[i] != all[j] by {
        if i >= had.len() && j < had.len() {
            assert(fired.contains(all[i]));
            assert(had.contains(all[j]));
        } else if i < had.len() && j >= had.len() {
            assert(fired.contains(all[j]));
            assert(had.contains(all[i]));
        }
    }
    assert forall|m: Milestone| reached(m, f, road, raid_clean) implies #[trigger] all.contains(m) by {
        if had.contains(m) {
            let k = choose|k: int| 0 <= k < had.len() && had[k] == m;
            assert(all[k] == m);
        } else {
            let k: int = match m {
                Milestone::FirstWoodGathered => 0,
                Milestone::FirstStoneFound => 1,
                Milestone::FirstFarm => 2,
                Milestone::FirstHut => 3,
                Milestone::FirstWinterSurvived => 4,
                Milestone::PopulationTen => 5,
                Milestone::FirstWorkshop => 6,
                Milestone::FirstSmith => 7,
                Milestone::FirstRoad => 8,
                Milestone::FiveBuildings => 9,
                Milestone::PopulationTwentyFive => 10,
                Milestone::FirstGranary => 11,
                Milestone::FirstBakery => 12,
                Milestone::FirstPlank => 13,
                Milestone::HundredFood => 14,
                Milestone::FirstGarrison => 15,
                Milestone::RaidSurvived => 16,
                Milestone::PopulationFifty => 17,
            };
            assert(order[k] == m);
            order.lemma_filter_contains(p, k);
            let q = choose|q: int| 0 <= q < fired.len() && fired[q] == m;
            assert(all[had.len() + q] == m);
        }
    }
}

/// A settlement of fifty villagers holds all three population milestones
/// after a check.
pub proof fn law_population_milestones(had: Seq<Milestone>, f: SettlementFacts, road: bool, raid_clean: bool)
    requires
        had.no_duplicates(),
        f.villagers >= 50,
    ensures
        ({
            let all = had + milestone_order().filter(newly_reached(f, road, raid_clean, had));
            all.contains(Milestone::PopulationTen) && all.contains(Milestone::PopulationTwentyFive) && all.contains(
                Milestone::PopulationFifty,
            )
        }),
{
    law_milestones_recorded_once(had, f, road, raid_clean);
    assert(reached(Milestone::PopulationTen, f, road, raid_clean));
    assert(reached(Milestone::PopulationTwentyFive, f, road, raid_clean));
    assert(reached(Milestone::PopulationFifty, f, road, raid_clean));
}

/// What each milestone asks of the settlement. Every completed building
/// counts toward the five structures, whatever its kind: farms, huts,
/// processing buildings and garrisons alike; the population milestones come
/// at 10, 25 and 50 villagers, the food one at 100 food, and the first winter
/// counts once a year has passed with someone alive.
pub proof fn law_milestone_conditions(f: SettlementFacts, road: bool, raid_clean: bool)
    ensures
        reached(Milestone::FiveBuildings, f, road, raid_clean) == (f.farms + f.huts + f.processing + f.garrisons >= 5),
        reached(Milestone::PopulationTen, f, road, raid_clean) == (f.villagers >= 10),
        reached(Milestone::PopulationTwentyFive, f, road, raid_clean) == (f.villagers >= 25),
        reached(Milestone::PopulationFifty, f, road, raid_clean) == (f.villagers >= 50),
        reached(Milestone::HundredFood, f, road, raid_clean) == (f.food >= 100),
        reached(Milestone::FirstWinterSurvived, f, road, raid_clean) == (f.year >= 1 && f.villagers >= 1),
        reached(Milestone::FirstWoodGathered, f, road, raid_clean) == (f.wood > 0),
        reached(Milestone::FirstPlank, f, road, raid_clean) == (f.planks > 0),
        reached(Milestone::FirstFarm, f, road, raid_clean) == (f.farms > 0),
        reached(Milestone::FirstHut, f, road, raid_clean) == (f.huts > 0),
        reached(Milestone::FirstGarrison, f, road, raid_clean) == (f.garrisons > 0),
        reached(Milestone::FirstRoad, f, road, raid_clean) == road,
        reached(Milestone::RaidSurvived, f, road, raid_clean) == raid_clean,
{
}

/// Five structures stand in a settlement with at least as many completed
/// buildings in all as another where they stand, whatever the kinds.
pub proof fn law_every_building_counts(f: SettlementFacts, g: SettlementFacts, road: bool, raid_clean: bool)
    requires
        g.farms + g.huts + g.processing + g.garrisons >= f.farms + f.huts + f.processing + f.garrisons,
    ensures
        reached(Milestone::FiveBuildings, f, road, raid_clean) ==> reached(Milestone::FiveBuildings, g, road, raid_clean),
{
}

} // verus!
