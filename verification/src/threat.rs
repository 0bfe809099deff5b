use vstd::prelude::*;

use crate::dice::random_in;
use crate::modes::ThreatTier;
use crate::palette::Season;

verus! {

// Threat scores are kept in hundredths of a point: a villager is worth half a
// point, a stockpiled resource unit a hundredth, a building two points.
// Chances are kept in hundred-thousandths of a percent, so that a roll
// uniform in `0..THREAT_ROLL_RANGE` succeeds with exactly the stated percentage.

/// Minimum ticks between any two threat spawns (wolves or raiders).
pub const THREAT_COOLDOWN_TICKS: u64 = 100;

/// How often (in ticks) to recalculate the settlement threat score.
pub const THREAT_SCORE_INTERVAL: u64 = 100;

/// How often (in ticks) to roll for threat spawns.
pub const THREAT_CHECK_INTERVAL: u64 = 3000;

/// A threat roll is uniform in `0..THREAT_ROLL_RANGE`: one hundred percent.
pub const THREAT_ROLL_RANGE: u64 = 10_000_000;

/// The threat score, in hundredths of a point, of a settlement with the given
/// villagers, stockpiled resource units and completed buildings.
pub open spec fn threat_points(villagers: int, resources: int, buildings: int) -> int {
    villagers * 50 + resources + buildings * 200
}

/// Compute the settlement threat score from population, resources and
/// buildings: half a point per villager, a hundredth per resource unit
/// (food, wood, stone, grain, bread, planks and masonry together) and two
/// points per building, in hundredths of a point. Higher scores bring more
/// frequent and larger threats.
pub fn compute_threat_score(villagers: u64, total_resources: u64, buildings: u64) -> (score: u64)
    requires
        threat_points(villagers as int, total_resources as int, buildings as int) <= u64::MAX,
    ensures
        score == threat_points(villagers as int, total_resources as int, buildings as int),
{
    villagers * 50 + total_resources + buildings * 200
}

/// The tier of a threat score (in hundredths): quiet below 15 points, growing
/// below 30, established below 50, prosperous below 75, an empire from 75 on.
pub open spec fn tier_of(score: u64) -> ThreatTier {
    if score >= 7500 {
        ThreatTier::Empire
    } else if score >= 5000 {
        ThreatTier::Prosperous
    } else if score >= 3000 {
        ThreatTier::Established
    } else if score >= 1500 {
        ThreatTier::Growing
    } else {
        ThreatTier::Quiet
    }
}

/// Position of a tier from the quietest (0) to the empire (4).
pub open spec fn tier_rank(t: ThreatTier) -> int {
    match t {
        ThreatTier::Quiet => 0,
        ThreatTier::Growing => 1,
        ThreatTier::Established => 2,
        ThreatTier::Prosperous => 3,
        ThreatTier::Empire => 4,
    }
}

impl ThreatTier {
    /// The tier of a threat score given in hundredths of a point.
    pub fn from_score(score: u64) -> (t: ThreatTier)
        ensures
            t == tier_of(score),
    {
        if score >= 7500 {
            ThreatTier::Empire
        } else if score >= 5000 {
            ThreatTier::Prosperous
        } else if score >= 3000 {
            ThreatTier::Established
        } else if score >= 1500 {
            ThreatTier::Growing
        } else {
            ThreatTier::Quiet
        }
    }
}

/// Wolf pack size from a threat score: one plus a wolf per 20 points, at most six.
pub open spec fn pack_size(score: u64) -> u32 {
    if 1 + score / 2000 >= 6 {
        6
    } else {
        (1 + score / 2000) as u32
    }
}

/// Raider party size from a threat score: two plus a raider per 25 points, at most eight.
pub open spec fn party_size(score: u64) -> u32 {
    if 2 + score / 2500 >= 8 {
        8
    } else {
        (2 + score / 2500) as u32
    }
}

/// Compute wolf pack size from a threat score: `1 + score / 20`, clamped to 1..=6.
pub fn wolf_pack_size(score: u64) -> (n: u32)
    ensures
        n == pack_size(score),
{
    let extra = score / 2000;
    if extra >= 5 {
        6
    } else {
        1 + extra as u32
    }
}

/// Compute raider party size from a threat score: `2 + score / 25`, clamped to 2..=8.
pub fn raider_party_size(score: u64) -> (n: u32)
    ensures
        n == party_size(score),
{
    let extra = score / 2500;
    if extra >= 6 {
        8
    } else {
        2 + extra as u32
    }
}

/// Seasonal factor on the wolf threat, in percent.
pub open spec fn wolf_season_percent(season: Season) -> u64 {
    match season {
        Season::Spring => 50,
        Season::Summer => 70,
        Season::Autumn => 100,
        Season::Winter => 150,
    }
}

/// Seasonal factor on the raider threat, in percent.
pub open spec fn raider_season_percent(season: Season) -> u64 {
    match season {
        Season::Spring => 80,
        Season::Summer => 100,
        Season::Autumn => 130,
        Season::Winter => 50,
    }
}

/// Seasonal multiplier for wolf threat probability, in percent.
pub fn wolf_season_multiplier(season: Season) -> (m: u64)
    ensures
        m == wolf_season_percent(season),
{
    match season {
        Season::Spring => 50,
        Season::Summer => 70,
        Season::Autumn => 100,
        Season::Winter => 150,
    }
}

/// Seasonal multiplier for raider threat probability, in percent.
pub fn raider_season_multiplier(season: Season) -> (m: u64)
    ensures
        m == raider_season_percent(season),
{
    match season {
        Season::Spring => 80,
        Season::Summer => 100,
        Season::Autumn => 130,
        Season::Winter => 50,
    }
}

/// Chance of a wolf pack: 5% plus 0.4% per point of threat, at most 40%,
/// times the season's factor (in hundred-thousandths of a percent).
pub open spec fn wolf_odds(score: u64, season: Season) -> int {
    let base: int = if score >= 8750 {
        40000
    } else {
        5000 + 4 * score
    };
    base * wolf_season_percent(season)
}

/// Chance of raiders: none up to 25 points of threat, then half a percent
/// per point above 25, at most 30%, times the season's factor (in
/// hundred-thousandths of a percent).
pub open spec fn raider_odds(score: u64, season: Season) -> int {
    let base: int = if score <= 2500 {
        0
    } else if score >= 8500 {
        30000
    } else {
        (score - 2500) * 5
    };
    base * raider_season_percent(season)
}

/// The chance of a wolf pack at this check, in hundred-thousandths of a percent.
pub fn wolf_chance(score: u64, season: Season) -> (c: u64)
    ensures
        c == wolf_odds(score, season),
{
    let base: u64 = if score >= 8750 {
        40000
    } else {
        5000 + 4 * score
    };
    base * wolf_season_multiplier(season)
}

/// The chance of raiders at this check, in hundred-thousandths of a percent.
pub fn raider_chance(score: u64, season: Season) -> (c: u64)
    ensures
        c == raider_odds(score, season),
{
    // Raider threat probability: 0% below score 25, scales up from there
    let base: u64 = if score <= 2500 {
        0
    } else if score >= 8500 {
        30000
    } else {
        (score - 2500) * 5
    };
    base * raider_season_multiplier(season)
}

/// Whether to roll for threats at `tick`, given when the last threat spawned.
pub fn threat_check_due(tick: u64, last_threat_tick: u64) -> (due: bool)
    ensures
        due == (tick % THREAT_CHECK_INTERVAL == 0 && (if tick >= last_threat_tick {
            tick - last_threat_tick
        } else {
            0
        }) >= THREAT_COOLDOWN_TICKS),
{
    tick % THREAT_CHECK_INTERVAL == 0 && tick.saturating_sub(last_threat_tick) >= THREAT_COOLDOWN_TICKS
}

/// Whether a wolf pack comes, for a roll uniform in `0..THREAT_ROLL_RANGE`.
pub fn wolves_come(score: u64, season: Season, roll: u64) -> (yes: bool)
    ensures
        yes == (roll < wolf_odds(score, season)),
{
    roll < wolf_chance(score, season)
}

/// Whether raiders come, for a roll uniform in `0..THREAT_ROLL_RANGE`: the
/// roll must fall within their chance, the settlement must be established or
/// richer, and no threat may have spawned within the last 100 ticks (the
/// wolves of this very check included).
pub fn raiders_come(score: u64, season: Season, tick: u64, last_threat_tick: u64, roll: u64) -> (yes: bool)
    ensures
        yes == ((if tick >= last_threat_tick {
            tick - last_threat_tick
        } else {
            0
        }) >= THREAT_COOLDOWN_TICKS && roll < raider_odds(score, season) && tier_rank(tier_of(score))
            >= tier_rank(ThreatTier::Established)),
{
    if tick.saturating_sub(last_threat_tick) < THREAT_COOLDOWN_TICKS {
        return false;
    }
    let tier = ThreatTier::from_score(score);
    roll < raider_chance(score, season) && !matches!(tier, ThreatTier::Quiet | ThreatTier::Growing)
}

/// Roll for a wolf pack. Whatever the roll: wolves come only with a
/// positive chance, and stay away only with a chance below certainty.
pub fn roll_for_wolves(score: u64, season: Season) -> (yes: bool)
    ensures
        yes ==> wolf_odds(score, season) > 0,
        !yes ==> wolf_odds(score, season) < THREAT_ROLL_RANGE,
{
    let roll = random_in(0, THREAT_ROLL_RANGE);
    wolves_come(score, season, roll)
}

/// Roll for raiders. Whatever the roll: raiders come only after the
/// cooldown, to an established or richer settlement, with a positive chance;
/// they stay away when one of these fails, or with a chance below certainty.
pub fn roll_for_raiders(score: u64, season: Season, tick: u64, last_threat_tick: u64) -> (yes: bool)
    ensures
        ({
            let allowed = (if tick >= last_threat_tick {
                tick - last_threat_tick
            } else {
                0
            }) >= THREAT_COOLDOWN_TICKS && tier_rank(tier_of(score)) >= tier_rank(ThreatTier::Established);
            &&& yes ==> allowed && raider_odds(score, season) > 0
            &&& !yes ==> !allowed || raider_odds(score, season) < THREAT_ROLL_RANGE
        }),
{
    let roll = random_in(0, THREAT_ROLL_RANGE);
    raiders_come(score, season, tick, last_threat_tick, roll)
}

/// Strength of a raider party: three per raider.
pub fn raid_strength(party: u32) -> (s: u32)
    requires
        party * 3 <= u32::MAX,
    ensures
        s == party * 3,
{
    party * 3
}

/// A richer settlement is never in a quieter tier.
pub proof fn law_tier_monotone(a: u64, b: u64)
    requires
        a <= b,
    ensures
        tier_rank(tier_of(a)) <= tier_rank(tier_of(b)),
{
}

/// Wolf packs hold one to six wolves and raider parties two to eight
/// raiders, and neither shrinks as the threat score grows.
pub proof fn law_group_sizes(a: u64, b: u64)
    requires
        a <= b,
    ensures
        1 <= pack_size(a) <= 6,
        2 <= party_size(a) <= 8,
        pack_size(a) <= pack_size(b),
        party_size(a) <= party_size(b),
{
    assert(a / 2000 <= b / 2000) by (nonlinear_arith)
        requires
            a <= b,
    ;
    assert(a / 2500 <= b / 2500) by (nonlinear_arith)
        requires
            a <= b,
    ;
}

/// No raiders come while the threat score is at most 25 points, whatever
/// the roll; and both chances stay below certainty.
pub proof fn law_no_raiders_up_to_25_points(score: u64, season: Season)
    ensures
        score <= 2500 ==> raider_odds(score, season) == 0,
        0 <= raider_odds(score, season) < THREAT_ROLL_RANGE,
        0 < wolf_odds(score, season) < THREAT_ROLL_RANGE,
{
    let rp = raider_season_percent(season);
    let wp = wolf_season_percent(season);
    if score > 2500 && score < 8500 {
        assert((score - 2500) * 5 * rp <= 30000 * 130) by (nonlinear_arith)
            requires
                score < 8500,
                score > 2500,
                rp <= 130,
        ;
    }
    if score < 8750 {
        assert((5000 + 4 * score) * wp <= 40000 * 150) by (nonlinear_arith)
            requires
                score < 8750,
                wp <= 150,
        ;
        assert((5000 + 4 * score) * wp > 0) by (nonlinear_arith)
            requires
                wp >= 50,
        ;
    }
}

/// The threat score is half a point per villager, a hundredth per resource
/// unit and two points per building: an empty settlement scores nothing, and
/// three more buildings add six points.
pub proof fn law_threat_score_parts(villagers: int, resources: int, buildings: int, extra: int)
    ensures
        threat_points(0, 0, 0) == 0,
        threat_points(villagers, resources, buildings + extra) == threat_points(villagers, resources, buildings)
            + 200 * extra,
        threat_points(villagers + extra, resources, buildings) == threat_points(villagers, resources, buildings)
            + 50 * extra,
        threat_points(villagers, resources + extra, buildings) == threat_points(villagers, resources, buildings)
            + extra,
{
}

/// The smaller of two integers.
pub open spec fn least(a: int, b: int) -> int {
    if a <= b {
        a
    } else {
        b
    }
}

/// The chance of a wolf pack (in hundred-thousandths of a percent) is 5%
/// plus 0.4% per point of threat, capped at 40%, scaled by the season: half
/// in spring, 70% in summer, in full in autumn and half again in winter. So
/// below the cap it grows by 4 per hundredth of a point, times the season's
/// factor.
pub proof fn law_wolf_chance(score: u64, season: Season)
    ensures
        wolf_odds(score, season) == least(5000 + 4 * score, 40000) * match season {
            Season::Spring => 50int,
            Season::Summer => 70int,
            Season::Autumn => 100int,
            Season::Winter => 150int,
        },
        score < 8750 ==> wolf_odds((score + 1) as u64, season) == wolf_odds(score, season) + 4
            * wolf_season_percent(season),
{
    match season {
        Season::Spring => {},
        Season::Summer => {},
        Season::Autumn => {},
        Season::Winter => {},
    }
}

/// The chance of raiders (in hundred-thousandths of a percent) is half a
/// percent per point of threat above 25, capped at 30%, scaled by the
/// season: 80% in spring, in full in summer, 130% in autumn and half in
/// winter.
pub proof fn law_raider_chance(score: u64, season: Season)
    ensures
        raider_odds(score, season) == least(if score <= 2500 {
            0
        } else {
            (score - 2500) * 5
        }, 30000) * match season {
            Season::Spring => 80int,
            Season::Summer => 100int,
            Season::Autumn => 130int,
            Season::Winter => 50int,
        },
{
}

/// Threat tiers by points: quiet below 15, growing below 30, established
/// below 50, prosperous below 75, an empire from 75 on; a pack has one wolf
/// plus one per 20 points, at most six, and a party two raiders plus one per
/// 25 points, at most eight.
pub proof fn law_tiers_and_group_sizes(score: u64)
    ensures
        (tier_of(score) == ThreatTier::Quiet) == (score < 1500),
        (tier_of(score) == ThreatTier::Growing) == (1500 <= score < 3000),
        (tier_of(score) == ThreatTier::Established) == (3000 <= score < 5000),
        (tier_of(score) == ThreatTier::Prosperous) == (5000 <= score < 7500),
        (tier_of(score) == ThreatTier::Empire) == (7500 <= score),
        pack_size(score) == least(1 + score / 2000, 6),
        party_size(score) == least(2 + score / 2500, 8),
{
}

} // verus!
