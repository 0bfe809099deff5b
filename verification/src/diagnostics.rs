use vstd::prelude::*;

use crate::threat::{compute_threat_score, threat_points};
use crate::visuals::{BehaviorState, Species};

verus! {

/// Number of kinds of behavior state.
pub const STATE_KINDS: usize = 15;

/// Position of a behavior state's kind in the diagnostics' state counts.
pub open spec fn state_kind(s: BehaviorState) -> nat {
    match s {
        BehaviorState::Wander { .. } => 0,
        BehaviorState::Seek { .. } => 1,
        BehaviorState::Idle { .. } => 2,
        BehaviorState::Eating { .. } => 3,
        BehaviorState::FleeHome { .. } => 4,
        BehaviorState::AtHome { .. } => 5,
        BehaviorState::Hunting => 6,
        BehaviorState::Captured => 7,
        BehaviorState::Gathering { .. } => 8,
        BehaviorState::Hauling { .. } => 9,
        BehaviorState::Sleeping { .. } => 10,
        BehaviorState::Building { .. } => 11,
        BehaviorState::Exploring { .. } => 12,
        BehaviorState::Farming { .. } => 13,
        BehaviorState::Working { .. } => 14,
    }
}

/// Name under which a kind of behavior state is reported.
pub open spec fn state_kind_name(k: nat) -> Seq<char> {
    if k == 0 { "Wander"@ }
    else if k == 1 { "Seek"@ }
    else if k == 2 { "Idle"@ }
    else if k == 3 { "Eating"@ }
    else if k == 4 { "FleeHome"@ }
    else if k == 5 { "AtHome"@ }
    else if k == 6 { "Hunting"@ }
    else if k == 7 { "Captured"@ }
    else if k == 8 { "Gathering"@ }
    else if k == 9 { "Hauling"@ }
    else if k == 10 { "Sleeping"@ }
    else if k == 11 { "Building"@ }
    else if k == 12 { "Exploring"@ }
    else if k == 13 { "Farming"@ }
    else { "Working"@ }
}

/// Name under which the `k`-th kind of behavior state is reported.
pub fn state_name(k: usize) -> (s: &'static str)
    requires
        k < STATE_KINDS,
    ensures
        s@ == state_kind_name(k as nat),
{
    match k {
        0 => "Wander",
        1 => "Seek",
        2 => "Idle",
        3 => "Eating",
        4 => "FleeHome",
        5 => "AtHome",
        6 => "Hunting",
        7 => "Captured",
        8 => "Gathering",
        9 => "Hauling",
        10 => "Sleeping",
        11 => "Building",
        12 => "Exploring",
        13 => "Farming",
        _ => "Working",
    }
}

/// Creatures of species `sp` among `cs`.
pub open spec fn species_count(cs: Seq<(Species, BehaviorState)>, sp: Species) -> nat
    decreases cs.len(),
{
    if cs.len() == 0 {
        0
    } else {
        species_count(cs.drop_last(), sp) + if cs.last().0 == sp {
            1nat
        } else {
            0nat
        }
    }
}

/// Villagers among `cs` whose behavior state is of kind `k`.
pub open spec fn state_count(cs: Seq<(Species, BehaviorState)>, k: nat) -> nat
    decreases cs.len(),
{
    if cs.len() == 0 {
        0
    } else {
        state_count(cs.drop_last(), k) + if cs.last().0 == Species::Villager && state_kind(cs.last().1) == k {
            1nat
        } else {
            0nat
        }
    }
}

/// Sum of a sequence of counts.
pub open spec fn total(xs: Seq<u32>) -> nat
    decreases xs.len(),
{
    if xs.len() == 0 {
        0
    } else {
        total(xs.drop_last()) + xs.last() as nat
    }
}

/// Population and housing figures of a settlement.
#[derive(Debug, Clone, PartialEq, Eq)]
pub struct Diagnostics {
    pub villagers: u32,
    pub wolves: u32,
    pub rabbits: u32,
    /// Villagers in each kind of behavior state, by `state_kind`.
    pub villager_states: Vec<u32>,
    /// Villagers all huts together can house.
    pub hut_capacity: u32,
    /// Room for more villagers: hut capacity beyond the population, or 0.
    pub growth_potential: u32,
}

/// The figures of creatures `cs` (species and behavior state of each) and
/// huts of capacities `caps`.
pub open spec fn diagnostics_match(d: Diagnostics, cs: Seq<(Species, BehaviorState)>, caps: Seq<u32>) -> bool {
    &&& d.villagers == species_count(cs, Species::Villager)
    &&& d.wolves == species_count(cs, Species::Predator)
    &&& d.rabbits == species_count(cs, Species::Prey)
    &&& d.villager_states@.len() == STATE_KINDS
    &&& forall|k: int| 0 <= k < STATE_KINDS ==> #[trigger] d.villager_states@[k] == state_count(cs, k as nat)
    &&& d.hut_capacity == total(caps)
    &&& d.growth_potential == if total(caps) >= species_count(cs, Species::Villager) {
        total(caps) - species_count(cs, Species::Villager)
    } else {
        0
    }
}

proof fn lemma_counts_bounded(cs: Seq<(Species, BehaviorState)>)
    ensures
        species_count(cs, Species::Villager) + species_count(cs, Species::Predator) + species_count(
            cs,
            Species::Prey,
        ) == cs.len(),
        forall|k: nat| #[trigger] state_count(cs, k) <= species_count(cs, Species::Villager),
    decreases cs.len(),
{
    if cs.len() > 0 {
        lemma_counts_bounded(cs.drop_last());
        assert forall|k: nat| #[trigger] state_count(cs, k) <= species_count(cs, Species::Villager) by {
            assert(state_count(cs.drop_last(), k) <= species_count(cs.drop_last(), Species::Villager));
        }
    }
}

/// Count villagers by behavior state, wolves and rabbits among `creatures`,
/// and the housing that huts of capacities `hut_capacities` offer.
pub fn tally_population(creatures: &Vec<(Species, BehaviorState)>, hut_capacities: &Vec<u32>) -> (d: Diagnostics)
    requires
        creatures@.len() <= u32::MAX,
        total(hut_capacities@) <= u32::MAX,
    ensures
        diagnostics_match(d, creatures@, hut_capacities@),
{
    let mut villagers: u32 = 0;
    let mut wolves: u32 = 0;
    let mut rabbits: u32 = 0;
    let mut states: Vec<u32> = vec![0, 0, 0, 0, 0, 0, 0, 0, 0, 0, 0, 0, 0, 0, 0];
    let mut i: usize = 0;
    while i < creatures.len()
        invariant
            i <= creatures@.len(),
            creatures@.len() <= u32::MAX,
            villagers == species_count(creatures@.take(i as int), Species::Villager),
            wolves == species_count(creatures@.take(i as int), Species::Predator),
            rabbits == species_count(creatures@.take(i as int), Species::Prey),
            states@.len() == STATE_KINDS,
            forall|k: int| 0 <= k < STATE_KINDS ==> #[trigger] states@[k] == state_count(creatures@.take(i as int), k as nat),
        decreases creatures@.len() - i,
    {
        let ghost before = creatures@.take(i as int);
        let ghost after = creatures@.take(i + 1);
        proof {
            assert(after.drop_last() =~= before);
            lemma_counts_bounded(before);
        }
        let (sp, state) = creatures[i];
        match sp {
            Species::Villager => {
                villagers = villagers + 1;
                let k: usize = match state {
                    BehaviorState::Wander { .. } => 0,
                    BehaviorState::Seek { .. } => 1,
                    BehaviorState::Idle { .. } => 2,
                    BehaviorState::Eating { .. } => 3,
                    BehaviorState::FleeHome { .. } => 4,
                    BehaviorState::AtHome { .. } => 5,
                    BehaviorState::Hunting => 6,
                    BehaviorState::Captured => 7,
                    BehaviorState::Gathering { .. } => 8,
                    BehaviorState::Hauling { .. } => 9,
                    BehaviorState::Sleeping { .. } => 10,
                    BehaviorState::Building { .. } => 11,
                    BehaviorState::Exploring { .. } => 12,
                    BehaviorState::Farming { .. } => 13,
                    BehaviorState::Working { .. } => 14,
                };
                assert(k == state_kind(state));
                assert(states@[k as int] == state_count(before, k as nat));
                let c = states[k];
                states.set(k, c + 1);
            },
            Species::Predator => wolves = wolves + 1,
            Species::Prey => rabbits = rabbits + 1,
        }
        i = i + 1;
    }
    proof {
        assert(creatures@.take(creatures@.len() as int) =~= creatures@);
    }
    let mut capacity: u32 = 0;
    let mut j: usize = 0;
    while j < hut_capacities.len()
        invariant
            j <= hut_capacities@.len(),
            total(hut_capacities@) <= u32::MAX,
            capacity == total(hut_capacities@.take(j as int)),
        decreases hut_capacities@.len() - j,
    {
        proof {
            assert(hut_capacities@.take(j + 1).drop_last() =~= hut_capacities@.take(j as int));
            lemma_total_prefix(hut_capacities@, j + 1);
        }
        capacity = capacity + hut_capacities[j];
        j = j + 1;
    }
    proof {
        assert(hut_capacities@.take(hut_capacities@.len() as int) =~= hut_capacities@);
    }
    Diagnostics {
        villagers,
        wolves,
        rabbits,
        villager_states: states,
        hut_capacity: capacity,
        growth_potential: capacity.saturating_sub(villagers),
    }
}

proof fn lemma_total_prefix(xs: Seq<u32>, n: int)
    requires
        0 <= n <= xs.len(),
    ensures
        total(xs.take(n)) <= total(xs),
    decreases xs.len(),
{
    if n < xs.len() {
        assert(xs.drop_last().take(n) =~= xs.take(n));
        lemma_total_prefix(xs.drop_last(), n);
    } else {
        assert(xs.take(n) =~= xs);
    }
}

/// The settlement threat score (in hundredths of a point) of creatures `cs`,
/// stock counts `stock` (food, wood, stone, grain, bread, planks and masonry)
/// and building counts `buildings` (farms, huts, processing buildings and
/// garrisons).
pub open spec fn settlement_threat(cs: Seq<(Species, BehaviorState)>, stock: Seq<u32>, buildings: Seq<u32>) -> int {
    threat_points(species_count(cs, Species::Villager) as int, total(stock) as int, total(buildings) as int)
}

proof fn lemma_total_bound(xs: Seq<u32>)
    ensures
        total(xs) <= xs.len() * 0xffff_ffff,
    decreases xs.len(),
{
    if xs.len() > 0 {
        lemma_total_bound(xs.drop_last());
        assert(xs.drop_last().len() * 0xffff_ffff + 0xffff_ffff == xs.len() * 0xffff_ffff) by (nonlinear_arith)
            requires
                xs.drop_last().len() + 1 == xs.len(),
        ;
    }
}

fn sum_counts(xs: &Vec<u32>) -> (s: u64)
    requires
        xs@.len() <= u32::MAX,
    ensures
        s == total(xs@),
{
    let mut s: u64 = 0;
    let mut j: usize = 0;
    while j < xs.len()
        invariant
            j <= xs@.len(),
            xs@.len() <= u32::MAX,
            s == total(xs@.take(j as int)),
        decreases xs@.len() - j,
    {
        proof {
            assert(xs@.take(j + 1).drop_last() =~= xs@.take(j as int));
            lemma_total_bound(xs@.take(j + 1));
            assert((j + 1) * 0xffff_ffff <= 0xffff_ffff * 0xffff_ffff) by (nonlinear_arith)
                requires
                    j + 1 <= 0xffff_ffff,
            ;
        }
        s = s + xs[j] as u64;
        j = j + 1;
    }
    proof {
        assert(xs@.take(xs@.len() as int) =~= xs@);
    }
    s
}

/// Compute the settlement threat score from the creatures, the stock and the
/// building counts: half a point per villager, a hundredth per stock unit and
/// two points per building, in hundredths of a point.
pub fn settlement_threat_score(
    creatures: &Vec<(Species, BehaviorState)>,
    stock: &Vec<u32>,
    buildings: &Vec<u32>,
) -> (score: u64)
    requires
        creatures@.len() <= u32::MAX,
        stock@.len() <= u32::MAX,
        buildings@.len() <= u32::MAX,
        settlement_threat(creatures@, stock@, buildings@) <= u64::MAX,
    ensures
        score == settlement_threat(creatures@, stock@, buildings@),
{
    let d = tally_population(creatures, &Vec::new());
    let resources = sum_counts(stock);
    let built = sum_counts(buildings);
    compute_threat_score(d.villagers as u64, resources, built)
}

/// Each new villager adds half a point to the settlement threat score, each
/// unit of stock a hundredth of a point and each building two points; a
/// creature of another species changes nothing.
pub proof fn law_threat_score_grows(
    cs: Seq<(Species, BehaviorState)>,
    stock: Seq<u32>,
    buildings: Seq<u32>,
    creature: (Species, BehaviorState),
    units: u32,
    built: u32,
)
    ensures
        settlement_threat(cs.push(creature), stock, buildings) == settlement_threat(cs, stock, buildings) + if creature.0
            == Species::Villager {
            50int
        } else {
            0int
        },
        settlement_threat(cs, stock.push(units), buildings) == settlement_threat(cs, stock, buildings) + units,
        settlement_threat(cs, stock, buildings.push(built)) == settlement_threat(cs, stock, buildings) + 200 * built,
{
    assert(cs.push(creature).drop_last() =~= cs);
    assert(stock.push(units).drop_last() =~= stock);
    assert(buildings.push(built).drop_last() =~= buildings);
}

} // verus!
