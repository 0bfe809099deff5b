use vstd::prelude::*;

use vstd::string::StrSliceExecFns;
use vstd::string::StringExecFns;

use crate::control::{decimal, decimal_text, notify, posted};
use crate::dice::{random_in, roll_percent};
use crate::frame::Color;
use crate::palette::Season;

verus! {

/// A world event in progress.
#[derive(Debug, Clone, Copy, PartialEq, Eq, Structural)]
pub enum GameEvent {
    Drought { ticks_remaining: u64 },
    BountifulHarvest { ticks_remaining: u64 },
    Migration { count: u32 },
    WolfSurge { ticks_remaining: u64 },
    Plague { ticks_remaining: u64, kills_remaining: u32 },
    Blizzard { ticks_remaining: u64 },
    /// A raid on the stockpile; `strength` is three per raider. Higher is
    /// harder to repel.
    BanditRaid { stolen: bool, strength: u32 },
}

/// The events in progress and the log of what happened.
#[derive(Debug, Clone)]
pub struct EventSystem {
    pub active_events: Vec<GameEvent>,
    pub event_log: Vec<String>,
}

/// What one tick of the event list leaves for the caller: a timed event that
/// ran out, or a raid to resolve against the settlement's defenses.
#[derive(Debug, Clone, Copy, PartialEq, Eq, Structural)]
pub enum EventNote {
    DroughtEnded,
    HarvestEnded,
    WolfSurgeEnded,
    PlagueEnded,
    BlizzardEnded,
    Raid { strength: u32 },
}

/// Some active event satisfies `p`.
pub open spec fn any_event(events: Seq<GameEvent>, p: spec_fn(GameEvent) -> bool) -> bool {
    exists|i: int| 0 <= i < events.len() && #[trigger] p(events[i])
}

/// The name by which an event kind is asked for.
pub open spec fn event_name(e: GameEvent) -> Seq<char> {
    match e {
        GameEvent::Drought { .. } => "drought"@,
        GameEvent::BountifulHarvest { .. } => "harvest"@,
        GameEvent::Migration { .. } => "migration"@,
        GameEvent::WolfSurge { .. } => "wolf_surge"@,
        GameEvent::Plague { .. } => "plague"@,
        GameEvent::Blizzard { .. } => "blizzard"@,
        GameEvent::BanditRaid { .. } => "bandit_raid"@,
    }
}

fn event_name_of(e: &GameEvent) -> (r: &'static str)
    ensures
        r@ == event_name(*e),
{
    match e {
        GameEvent::Drought { .. } => "drought",
        GameEvent::BountifulHarvest { .. } => "harvest",
        GameEvent::Migration { .. } => "migration",
        GameEvent::WolfSurge { .. } => "wolf_surge",
        GameEvent::Plague { .. } => "plague",
        GameEvent::Blizzard { .. } => "blizzard",
        GameEvent::BanditRaid { .. } => "bandit_raid",
    }
}

/// Whether two strings hold the same characters.
fn same_text(a: &str, b: &str) -> (r: bool)
    ensures
        r == (a@ == b@),
{
    let n = a.unicode_len();
    if n != b.unicode_len() {
        return false;
    }
    let mut i: usize = 0;
    while i < n
        invariant
            n == a@.len(),
            n == b@.len(),
            i <= n,
            forall|j: int| 0 <= j < i ==> a@[j] == b@[j],
        decreases n - i,
    {
        if a.get_char(i) != b.get_char(i) {
            return false;
        }
        i = i + 1;
    }
    assert(a@ =~= b@);
    true
}

/// The event after one tick, or `None` once it is over: timed events count
/// down and end when their countdown reaches zero; migrations and raids last
/// a single tick.
pub open spec fn event_after_tick(e: GameEvent) -> Option<GameEvent> {
    match e {
        GameEvent::Drought { ticks_remaining: t } => if t <= 1 {
            None
        } else {
            Some(GameEvent::Drought { ticks_remaining: (t - 1) as u64 })
        },
        GameEvent::BountifulHarvest { ticks_remaining: t } => if t <= 1 {
            None
        } else {
            Some(GameEvent::BountifulHarvest { ticks_remaining: (t - 1) as u64 })
        },
        GameEvent::WolfSurge { ticks_remaining: t } => if t <= 1 {
            None
        } else {
            Some(GameEvent::WolfSurge { ticks_remaining: (t - 1) as u64 })
        },
        GameEvent::Plague { ticks_remaining: t, kills_remaining: k } => if t <= 1 {
            None
        } else {
            Some(GameEvent::Plague { ticks_remaining: (t - 1) as u64, kills_remaining: k })
        },
        GameEvent::Blizzard { ticks_remaining: t } => if t <= 1 {
            None
        } else {
            Some(GameEvent::Blizzard { ticks_remaining: (t - 1) as u64 })
        },
        GameEvent::Migration { .. } => None,
        GameEvent::BanditRaid { .. } => None,
    }
}

/// What a tick of event `e` reports: the end of a timed event, or a raid
/// not yet resolved.
pub open spec fn note_after_tick(e: GameEvent) -> Option<EventNote> {
    match e {
        GameEvent::Drought { ticks_remaining: t } => if t <= 1 {
            Some(EventNote::DroughtEnded)
        } else {
            None
        },
        GameEvent::BountifulHarvest { ticks_remaining: t } => if t <= 1 {
            Some(EventNote::HarvestEnded)
        } else {
            None
        },
        GameEvent::WolfSurge { ticks_remaining: t } => if t <= 1 {
            Some(EventNote::WolfSurgeEnded)
        } else {
            None
        },
        GameEvent::Plague { ticks_remaining: t, .. } => if t <= 1 {
            Some(EventNote::PlagueEnded)
        } else {
            None
        },
        GameEvent::Blizzard { ticks_remaining: t } => if t <= 1 {
            Some(EventNote::BlizzardEnded)
        } else {
            None
        },
        GameEvent::Migration { .. } => None,
        GameEvent::BanditRaid { stolen, strength } => if stolen {
            None
        } else {
            Some(EventNote::Raid { strength })
        },
    }
}

/// The log line of a timed event that ran out.
pub open spec fn end_message(n: EventNote) -> Seq<char> {
    match n {
        EventNote::DroughtEnded => "Drought has ended."@,
        EventNote::HarvestEnded => "Bountiful harvest season ends."@,
        EventNote::WolfSurgeEnded => "Wolf surge subsides."@,
        EventNote::PlagueEnded => "The plague has passed."@,
        EventNote::BlizzardEnded => "The blizzard has ended."@,
        EventNote::Raid { .. } => Seq::empty(),
    }
}

impl EventNote {
    /// The log line of a timed event that ran out; `None` for a raid, whose
    /// report depends on how it is resolved.
    pub fn end_text(&self) -> (r: Option<&'static str>)
        ensures
            match r {
                Some(s) => !(*self is Raid) && s@ == end_message(*self),
                None => *self is Raid,
            },
    {
        match self {
            EventNote::DroughtEnded => Some("Drought has ended."),
            EventNote::HarvestEnded => Some("Bountiful harvest season ends."),
            EventNote::WolfSurgeEnded => Some("Wolf surge subsides."),
            EventNote::PlagueEnded => Some("The plague has passed."),
            EventNote::BlizzardEnded => Some("The blizzard has ended."),
            EventNote::Raid { .. } => None,
        }
    }
}

fn tick_event(e: GameEvent) -> (r: (Option<GameEvent>, Option<EventNote>))
    ensures
        r.0 == event_after_tick(e),
        r.1 == note_after_tick(e),
{
    match e {
        GameEvent::Drought { ticks_remaining } => {
            let t = ticks_remaining.saturating_sub(1);
            if t == 0 {
                (None, Some(EventNote::DroughtEnded))
            } else {
                (Some(GameEvent::Drought { ticks_remaining: t }), None)
            }
        },
        GameEvent::BountifulHarvest { ticks_remaining } => {
            let t = ticks_remaining.saturating_sub(1);
            if t == 0 {
                (None, Some(EventNote::HarvestEnded))
            } else {
                (Some(GameEvent::BountifulHarvest { ticks_remaining: t }), None)
            }
        },
        GameEvent::WolfSurge { ticks_remaining } => {
            let t = ticks_remaining.saturating_sub(1);
            if t == 0 {
                (None, Some(EventNote::WolfSurgeEnded))
            } else {
                (Some(GameEvent::WolfSurge { ticks_remaining: t }), None)
            }
        },
        // instant, removed after spawning
        GameEvent::Migration { .. } => (None, None),
        GameEvent::Plague { ticks_remaining, kills_remaining } => {
            let t = ticks_remaining.saturating_sub(1);
            if t == 0 {
                (None, Some(EventNote::PlagueEnded))
            } else {
                (Some(GameEvent::Plague { ticks_remaining: t, kills_remaining }), None)
            }
        },
        GameEvent::Blizzard { ticks_remaining } => {
            let t = ticks_remaining.saturating_sub(1);
            if t == 0 {
                (None, Some(EventNote::BlizzardEnded))
            } else {
                (Some(GameEvent::Blizzard { ticks_remaining: t }), None)
            }
        },
        // instant event, removed after resolving
        GameEvent::BanditRaid { stolen, strength } => {
            if stolen {
                (None, None)
            } else {
                (None, Some(EventNote::Raid { strength }))
            }
        },
    }
}

impl EventSystem {
    /// Whether a drought is in progress.
    pub fn has_drought(&self) -> (r: bool)
        ensures
            r == any_event(self.active_events@, |e: GameEvent| e is Drought),
    {
        let mut i: usize = 0;
        while i < self.active_events.len()
            invariant
                i <= self.active_events@.len(),
                forall|j: int| 0 <= j < i ==> !(self.active_events@[j] is Drought),
            decreases self.active_events@.len() - i,
        {
            if matches!(self.active_events[i], GameEvent::Drought { .. }) {
                assert((|e: GameEvent| e is Drought)(self.active_events@[i as int]));
                return true;
            }
            i = i + 1;
        }
        false
    }

    /// Whether a bountiful harvest is in progress.
    pub fn has_bountiful_harvest(&self) -> (r: bool)
        ensures
            r == any_event(self.active_events@, |e: GameEvent| e is BountifulHarvest),
    {
        let mut i: usize = 0;
        while i < self.active_events.len()
            invariant
                i <= self.active_events@.len(),
                forall|j: int| 0 <= j < i ==> !(self.active_events@[j] is BountifulHarvest),
            decreases self.active_events@.len() - i,
        {
            if matches!(self.active_events[i], GameEvent::BountifulHarvest { .. }) {
                assert((|e: GameEvent| e is BountifulHarvest)(self.active_events@[i as int]));
                return true;
            }
            i = i + 1;
        }
        false
    }

    /// Wolf spawn rate in percent of normal: doubled during a wolf surge.
    pub fn wolf_spawn_multiplier(&self) -> (r: u32)
        ensures
            r == if any_event(self.active_events@, |e: GameEvent| e is WolfSurge) {
                200u32
            } else {
                100u32
            },
    {
        let mut i: usize = 0;
        while i < self.active_events.len()
            invariant
                i <= self.active_events@.len(),
                forall|j: int| 0 <= j < i ==> !(self.active_events@[j] is WolfSurge),
            decreases self.active_events@.len() - i,
        {
            if matches!(self.active_events[i], GameEvent::WolfSurge { .. }) {
                assert((|e: GameEvent| e is WolfSurge)(self.active_events@[i as int]));
                return 200;
            }
            i = i + 1;
        }
        100
    }

    /// Movement speed in percent of normal: a blizzard slows everyone to half.
    pub fn movement_multiplier(&self) -> (r: u32)
        ensures
            r == if any_event(self.active_events@, |e: GameEvent| e is Blizzard) {
                50u32
            } else {
                100u32
            },
    {
        let mut i: usize = 0;
        while i < self.active_events.len()
            invariant
                i <= self.active_events@.len(),
                forall|j: int| 0 <= j < i ==> !(self.active_events@[j] is Blizzard),
            decreases self.active_events@.len() - i,
        {
            if matches!(self.active_events[i], GameEvent::Blizzard { .. }) {
                assert((|e: GameEvent| e is Blizzard)(self.active_events@[i as int]));
                return 50;
            }
            i = i + 1;
        }
        100
    }

    /// Whether an event of the kind named `check` ("drought", "harvest",
    /// "migration", "wolf_surge", "plague", "blizzard", "bandit_raid") is in
    /// progress.
    pub fn has_event_type(&self, check: &str) -> (r: bool)
        ensures
            r == any_event(self.active_events@, |e: GameEvent| event_name(e) == check@),
    {
        let mut i: usize = 0;
        while i < self.active_events.len()
            invariant
                i <= self.active_events@.len(),
                forall|j: int| 0 <= j < i ==> event_name(self.active_events@[j]) != check@,
            decreases self.active_events@.len() - i,
        {
            let name = event_name_of(&self.active_events[i]);
            if same_text(name, check) {
                assert((|e: GameEvent| event_name(e) == check@)(self.active_events@[i as int]));
                return true;
            }
            i = i + 1;
        }
        false
    }

    /// Advance every event by one tick: timed events count down and leave
    /// when they run out, migrations and raids leave after their tick.
    /// Returns, in list order, the events that ran out and the raids the
    /// caller must resolve.
    pub fn tick_events(&mut self) -> (notes: Vec<EventNote>)
        ensures
            final(self).active_events@ == old(self).active_events@.filter_map(|e: GameEvent| event_after_tick(e)),
            notes@ == old(self).active_events@.filter_map(|e: GameEvent| note_after_tick(e)),
            final(self).event_log@ == old(self).event_log@,
    {
        let ghost before = self.active_events@;
        let mut kept: Vec<GameEvent> = Vec::new();
        let mut notes: Vec<EventNote> = Vec::new();
        let mut i: usize = 0;
        while i < self.active_events.len()
            invariant
                self.active_events@ == before,
                i <= before.len(),
                kept@ == before.take(i as int).filter_map(|e: GameEvent| event_after_tick(e)),
                notes@ == before.take(i as int).filter_map(|e: GameEvent| note_after_tick(e)),
            decreases before.len() - i,
        {
            let (next, note) = tick_event(self.active_events[i]);
            proof {
                before.lemma_filter_map_take_succ(|e: GameEvent| event_after_tick(e), i as int);
                before.lemma_filter_map_take_succ(|e: GameEvent| note_after_tick(e), i as int);
            }
            match next {
                Some(e) => kept.push(e),
                None => {},
            }
            match note {
                Some(n) => notes.push(n),
                None => {},
            }
            i = i + 1;
        }
        proof {
            assert(before.take(before.len() as int) =~= before);
        }
        self.active_events = kept;
        notes
    }
}


/// How many entries the event log keeps.
pub const EVENT_LOG_LEN: usize = 5;

/// The seasonal events a roll can bring.
#[derive(Debug, Clone, Copy, PartialEq, Eq, Structural)]
pub enum SeasonalEvent {
    Drought,
    Harvest,
    Migration,
    Blizzard,
}

/// What the seasonal event rolls read of the settlement.
#[derive(Debug, Clone, Copy, PartialEq, Eq, Structural)]
pub struct SeasonFacts {
    pub season: Season,
    /// Years survived so far.
    pub year: u32,
    /// Living villagers.
    pub villagers: u32,
    /// Grain in the stockpile.
    pub grain: u32,
    /// Food in the stockpile.
    pub food: u32,
    /// Villagers the huts can house.
    pub hut_capacity: u32,
    /// A processing building bakes grain into bread.
    pub has_bakery: bool,
}

/// The event of kind `name` is in progress.
pub open spec fn has_kind(events: Seq<GameEvent>, name: Seq<char>) -> bool {
    any_event(events, |e: GameEvent| event_name(e) == name)
}

/// The seasonal event that a roll in `0..100` brings: a drought in summer
/// (2%, only with five grain put by per villager), a bountiful harvest in
/// autumn (20%), migrants in spring (20%, with food above 30 and a free hut
/// place), a blizzard in winter (10%); never a second one of a kind in progress.
pub open spec fn seasonal_outcome(events: Seq<GameEvent>, f: SeasonFacts, roll: u32) -> Option<SeasonalEvent> {
    match f.season {
        Season::Summer => if f.grain >= f.villagers * 5 && !has_kind(events, "drought"@) && roll < 2 {
            Some(SeasonalEvent::Drought)
        } else {
            None
        },
        Season::Autumn => if !has_kind(events, "harvest"@) && roll < 20 {
            Some(SeasonalEvent::Harvest)
        } else {
            None
        },
        Season::Spring => if f.hut_capacity > f.villagers && f.food > 30 && roll < 20 {
            Some(SeasonalEvent::Migration)
        } else {
            None
        },
        Season::Winter => if !has_kind(events, "blizzard"@) && roll < 10 {
            Some(SeasonalEvent::Blizzard)
        } else {
            None
        },
    }
}

/// A plague breaks out on a roll in `0..100` below 5, from the third year
/// on, unless one is in progress or a bakery feeds the settlement bread.
pub open spec fn plague_outcome(events: Seq<GameEvent>, f: SeasonFacts, roll: u32) -> bool {
    f.year >= 2 && !has_kind(events, "plague"@) && roll < 5 && !f.has_bakery
}

/// The event a seasonal event starts as, and its announcement.
pub open spec fn seasonal_start(s: SeasonalEvent) -> Option<(GameEvent, Seq<char>)> {
    match s {
        SeasonalEvent::Drought => Some((GameEvent::Drought { ticks_remaining: 150 }, "Drought! Water levels dropping."@)),
        SeasonalEvent::Harvest => Some(
            (GameEvent::BountifulHarvest { ticks_remaining: 200 }, "Bountiful rains! Moisture levels rising."@),
        ),
        SeasonalEvent::Blizzard => Some((GameEvent::Blizzard { ticks_remaining: 200 }, "Blizzard! Movement slowed."@)),
        SeasonalEvent::Migration => None,
    }
}

/// The log after keeping only its last five entries.
pub open spec fn trimmed_log(log: Seq<String>) -> Seq<String> {
    if log.len() > EVENT_LOG_LEN {
        log.subrange(log.len() - EVENT_LOG_LEN, log.len() as int)
    } else {
        log
    }
}

/// The index of the first plague with villagers still to claim.
pub open spec fn first_deadly_plague(events: Seq<GameEvent>) -> Option<int> {
    if exists|i: int| 0 <= i < events.len() && #[trigger] deadly(events[i]) {
        Some(choose|i: int| 0 <= i < events.len() && deadly(events[i]) && forall|j: int| 0 <= j < i ==> !#[trigger] deadly(events[j]))
    } else {
        None
    }
}

/// A plague that still claims villagers.
pub open spec fn deadly(e: GameEvent) -> bool {
    e matches GameEvent::Plague { kills_remaining, .. } && kills_remaining > 0
}

impl EventSystem {
    /// Which seasonal event, if any, a roll in `0..100` brings this season.
    pub fn seasonal_event(&self, f: &SeasonFacts, roll: u32) -> (r: Option<SeasonalEvent>)
        ensures
            r == seasonal_outcome(self.active_events@, *f, roll),
    {
        match f.season {
            Season::Summer => {
                // Drought: requires grain buffer proportional to population
                let has_grain_buffer = f.grain as u64 >= f.villagers as u64 * 5;
                if has_grain_buffer && !self.has_event_type("drought") && roll < 2 {
                    Some(SeasonalEvent::Drought)
                } else {
                    None
                }
            },
            Season::Autumn => {
                if !self.has_event_type("harvest") && roll < 20 {
                    Some(SeasonalEvent::Harvest)
                } else {
                    None
                }
            },
            Season::Spring => {
                // Migration: new villagers arrive if food surplus and housing available
                let has_housing = f.hut_capacity > f.villagers;
                if has_housing && f.food > 30 && roll < 20 {
                    Some(SeasonalEvent::Migration)
                } else {
                    None
                }
            },
            Season::Winter => {
                // Blizzard: winter-only, halves movement speed
                if !self.has_event_type("blizzard") && roll < 10 {
                    Some(SeasonalEvent::Blizzard)
                } else {
                    None
                }
            },
        }
    }

    /// Roll for this season's event: the outcome of some roll in `0..100`.
    pub fn roll_seasonal_event(&self, f: &SeasonFacts) -> (r: Option<SeasonalEvent>)
        ensures
            exists|roll: u32| roll < 100 && r == #[trigger] seasonal_outcome(self.active_events@, *f, roll),
    {
        let roll = roll_percent();
        let r = self.seasonal_event(f, roll);
        assert(roll < 100 && r == seasonal_outcome(self.active_events@, *f, roll));
        r
    }

    /// Start a drought, a bountiful harvest or a blizzard at `tick`: add it
    /// to the events, log its announcement and post it to the player's
    /// notifications. Migrants are the caller's to place: nothing changes,
    /// and `false` is returned.
    pub fn start_seasonal_event(
        &mut self,
        notifications: &mut Vec<(u64, String)>,
        tick: u64,
        s: SeasonalEvent,
    ) -> (started: bool)
        ensures
            started == (seasonal_start(s) is Some),
            match seasonal_start(s) {
                Some((e, text)) => {
                    &&& final(self).active_events@ == old(self).active_events@.push(e)
                    &&& final(self).event_log@.len() == old(self).event_log@.len() + 1
                    &&& final(self).event_log@.drop_last() == old(self).event_log@
                    &&& final(self).event_log@.last()@ == text
                    &&& posted(old(notifications)@, final(notifications)@, tick, text)
                },
                None => *final(self) == *old(self) && final(notifications)@ == old(notifications)@,
            },
    {
        let (event, text) = match s {
            SeasonalEvent::Drought => (GameEvent::Drought { ticks_remaining: 150 }, "Drought! Water levels dropping."),
            SeasonalEvent::Harvest => (
                GameEvent::BountifulHarvest { ticks_remaining: 200 },
                "Bountiful rains! Moisture levels rising.",
            ),
            SeasonalEvent::Blizzard => (GameEvent::Blizzard { ticks_remaining: 200 }, "Blizzard! Movement slowed."),
            SeasonalEvent::Migration => {
                return false;
            },
        };
        self.active_events.push(event);
        self.event_log.push(String::from_str(text));
        proof {
            assert(self.event_log@.drop_last() =~= old(self).event_log@);
        }
        notify(notifications, tick, String::from_str(text));
        true
    }

    /// Whether a plague breaks out on a roll in `0..100`.
    pub fn plague_breaks_out(&self, f: &SeasonFacts, roll: u32) -> (r: bool)
        ensures
            r == plague_outcome(self.active_events@, *f, roll),
    {
        f.year >= 2 && !self.has_event_type("plague") && roll < 5 && !f.has_bakery
    }

    /// Roll for a plague; when one breaks out, also roll how many villagers
    /// (one or two) it will claim.
    pub fn roll_plague(&self, f: &SeasonFacts) -> (kills: Option<u32>)
        ensures
            exists|roll: u32| roll < 100 && (kills is Some) == #[trigger] plague_outcome(self.active_events@, *f, roll),
            kills matches Some(k) ==> 1 <= k <= 2,
    {
        let roll = roll_percent();
        let out = self.plague_breaks_out(f, roll);
        assert(roll < 100 && out == plague_outcome(self.active_events@, *f, roll));
        if out {
            Some(random_in(1, 3) as u32)
        } else {
            None
        }
    }

    /// Start at `tick` a plague that will claim up to `kills` villagers over
    /// 300 ticks: log its announcement and post it to the player's
    /// notifications.
    pub fn start_plague(&mut self, notifications: &mut Vec<(u64, String)>, tick: u64, kills: u32)
        ensures
            final(self).active_events@ == old(self).active_events@.push(
                GameEvent::Plague { ticks_remaining: 300, kills_remaining: kills },
            ),
            final(self).event_log@.len() == old(self).event_log@.len() + 1,
            final(self).event_log@.drop_last() == old(self).event_log@,
            final(self).event_log@.last()@ == plague_text(kills),
            posted(old(notifications)@, final(notifications)@, tick, plague_text(kills)),
    {
        self.active_events.push(GameEvent::Plague { ticks_remaining: 300, kills_remaining: kills });
        self.event_log.push(plague_notice(kills));
        proof {
            assert(self.event_log@.drop_last() =~= old(self).event_log@);
        }
        notify(notifications, tick, plague_notice(kills));
    }

    /// Announce at `tick` that `count` migrants arrived: log it and post it to
    /// the player's notifications. Placing them is the caller's.
    pub fn welcome_migrants(&mut self, notifications: &mut Vec<(u64, String)>, tick: u64, count: u32)
        ensures
            final(self).active_events@ == old(self).active_events@,
            final(self).event_log@.len() == old(self).event_log@.len() + 1,
            final(self).event_log@.drop_last() == old(self).event_log@,
            final(self).event_log@.last()@ == migrants_text(count),
            posted(old(notifications)@, final(notifications)@, tick, migrants_text(count)),
    {
        self.event_log.push(migrants_notice(count));
        proof {
            assert(self.event_log@.drop_last() =~= old(self).event_log@);
        }
        notify(notifications, tick, migrants_notice(count));
    }

    /// Start a wolf surge of 400 ticks.
    pub fn start_wolf_surge(&mut self)
        ensures
            final(self).active_events@ == old(self).active_events@.push(GameEvent::WolfSurge { ticks_remaining: 400 }),
            final(self).event_log@ == old(self).event_log@,
    {
        self.active_events.push(GameEvent::WolfSurge { ticks_remaining: 400 });
    }

    /// Start a raid of the given strength, to be resolved on the next tick.
    pub fn start_raid(&mut self, strength: u32)
        ensures
            final(self).active_events@ == old(self).active_events@.push(
                GameEvent::BanditRaid { stolen: false, strength },
            ),
            final(self).event_log@ == old(self).event_log@,
    {
        self.active_events.push(GameEvent::BanditRaid { stolen: false, strength });
    }

    /// Keep only the last five log entries.
    pub fn trim_log(&mut self)
        ensures
            final(self).event_log@ == trimmed_log(old(self).event_log@),
            final(self).active_events@ == old(self).active_events@,
    {
        let n = self.event_log.len();
        if n > EVENT_LOG_LEN {
            let ghost log = self.event_log@;
            let mut dropped: usize = 0;
            while dropped < n - EVENT_LOG_LEN
                invariant
                    n == log.len(),
                    n > EVENT_LOG_LEN,
                    dropped <= n - EVENT_LOG_LEN,
                    self.event_log@ == log.subrange(dropped as int, n as int),
                    self.active_events@ == old(self).active_events@,
                decreases n - EVENT_LOG_LEN - dropped,
            {
                self.event_log.remove(0);
                proof {
                    assert(self.event_log@ =~= log.subrange(dropped + 1, n as int));
                }
                dropped = dropped + 1;
            }
        }
    }

    /// On a plague tick: the first plague that still claims villagers claims
    /// one more. Returns whether a villager is to die.
    pub fn plague_claims_victim(&mut self) -> (claimed: bool)
        ensures
            match first_deadly_plague(old(self).active_events@) {
                Some(i) => claimed && final(self).active_events@ == old(self).active_events@.update(
                    i,
                    GameEvent::Plague {
                        ticks_remaining: old(self).active_events@[i]->Plague_ticks_remaining,
                        kills_remaining: (old(self).active_events@[i]->Plague_kills_remaining - 1) as u32,
                    },
                ),
                None => !claimed && final(self).active_events@ == old(self).active_events@,
            },
            final(self).event_log@ == old(self).event_log@,
    {
        let mut i: usize = 0;
        while i < self.active_events.len()
            invariant
                self.active_events@ == old(self).active_events@,
                self.event_log@ == old(self).event_log@,
                i <= self.active_events@.len(),
                forall|j: int| 0 <= j < i ==> !#[trigger] deadly(self.active_events@[j]),
            decreases self.active_events@.len() - i,
        {
            match self.active_events[i] {
                GameEvent::Plague { ticks_remaining, kills_remaining } => {
                    if kills_remaining > 0 {
                        proof {
                            let events = self.active_events@;
                            assert(deadly(events[i as int]));
                            let c = choose|c: int| 0 <= c < events.len() && deadly(events[c]) && forall|j: int| 0 <= j < c ==> !#[trigger] deadly(events[j]);
                            if c < i {
                                assert(!deadly(events[c]));
                            }
                            if c > i {
                                assert(!deadly(events[i as int]));
                            }
                        }
                        self.active_events.set(i, GameEvent::Plague { ticks_remaining, kills_remaining: kills_remaining - 1 });
                        return true;
                    }
                },
                _ => {},
            }
            i = i + 1;
        }
        false
    }
}


/// The announcement of a plague claiming up to `kills` villagers.
pub open spec fn plague_text(kills: u32) -> Seq<char> {
    "Plague strikes! "@ + decimal(kills as nat) + " villagers at risk."@
}

/// The announcement of a plague claiming up to `kills` villagers.
pub fn plague_notice(kills: u32) -> (s: String)
    ensures
        s@ == plague_text(kills),
{
    let mut s = String::from_str("Plague strikes! ");
    let digits = decimal_text(kills);
    s.append(digits.as_str());
    s.append(" villagers at risk.");
    s
}

/// The announcement of `count` migrants arriving.
pub open spec fn migrants_text(count: u32) -> Seq<char> {
    decimal(count as nat) + " migrants arrived!"@
}

/// The announcement of `count` migrants arriving.
pub fn migrants_notice(count: u32) -> (s: String)
    ensures
        s@ == migrants_text(count),
{
    let mut s = decimal_text(count);
    s.append(" migrants arrived!");
    s
}

/// How many migrants arrive with a migration: one to three.
pub fn migrant_count() -> (n: u32)
    ensures
        1 <= n <= 3,
{
    random_in(1, 4) as u32
}

/// How the side panel lists an event.
#[derive(Debug, Clone, Copy, PartialEq, Eq)]
pub enum EventLine {
    /// A timed event: its name and remaining ticks, in its color.
    Timed { name: &'static str, remaining: u64, color: Color },
    /// Migrants arriving, shown in the panel's green.
    Migrants { count: u32 },
    /// A raid, shown in red.
    Raid,
}

/// The panel name of a timed event.
pub open spec fn panel_name(e: GameEvent) -> Seq<char> {
    match e {
        GameEvent::Drought { .. } => "Drought"@,
        GameEvent::BountifulHarvest { .. } => "Harvest+"@,
        GameEvent::WolfSurge { .. } => "Wolf Surge"@,
        GameEvent::Plague { .. } => "Plague"@,
        GameEvent::Blizzard { .. } => "Blizzard"@,
        _ => Seq::empty(),
    }
}

/// The panel color of a timed event.
pub open spec fn panel_color(e: GameEvent) -> Color {
    match e {
        GameEvent::Drought { .. } => Color(200, 100, 50),
        GameEvent::BountifulHarvest { .. } => Color(50, 200, 50),
        GameEvent::WolfSurge { .. } => Color(200, 50, 50),
        GameEvent::Plague { .. } => Color(180, 50, 180),
        _ => Color(150, 200, 255),
    }
}

/// How the side panel lists event `e`.
pub fn event_line(e: &GameEvent) -> (line: EventLine)
    ensures
        match *e {
            GameEvent::Drought { ticks_remaining: t }
            | GameEvent::BountifulHarvest { ticks_remaining: t }
            | GameEvent::WolfSurge { ticks_remaining: t }
            | GameEvent::Plague { ticks_remaining: t, .. }
            | GameEvent::Blizzard { ticks_remaining: t } => line matches EventLine::Timed { name, remaining, color }
                && name@ == panel_name(*e) && remaining == t && color == panel_color(*e),
            GameEvent::Migration { count } => line == EventLine::Migrants { count },
            GameEvent::BanditRaid { .. } => line == EventLine::Raid,
        },
{
    match e {
        GameEvent::Drought { ticks_remaining } => {
            EventLine::Timed { name: "Drought", remaining: *ticks_remaining, color: Color(200, 100, 50) }
        },
        GameEvent::BountifulHarvest { ticks_remaining } => {
            EventLine::Timed { name: "Harvest+", remaining: *ticks_remaining, color: Color(50, 200, 50) }
        },
        GameEvent::WolfSurge { ticks_remaining } => {
            EventLine::Timed { name: "Wolf Surge", remaining: *ticks_remaining, color: Color(200, 50, 50) }
        },
        GameEvent::Plague { ticks_remaining, .. } => {
            EventLine::Timed { name: "Plague", remaining: *ticks_remaining, color: Color(180, 50, 180) }
        },
        GameEvent::Blizzard { ticks_remaining } => {
            EventLine::Timed { name: "Blizzard", remaining: *ticks_remaining, color: Color(150, 200, 255) }
        },
        GameEvent::Migration { count } => EventLine::Migrants { count: *count },
        GameEvent::BanditRaid { .. } => EventLine::Raid,
    }
}

/// The event after `k` ticks, `None` once it is over.
pub open spec fn event_after_ticks(e: Option<GameEvent>, k: nat) -> Option<GameEvent>
    decreases k,
{
    if k == 0 {
        e
    } else {
        match event_after_ticks(e, (k - 1) as nat) {
            Some(x) => event_after_tick(x),
            None => None,
        }
    }
}

/// A timed event with countdown `t`.
pub open spec fn timed(e: GameEvent, t: u64) -> bool {
    ||| e == GameEvent::Drought { ticks_remaining: t }
    ||| e == GameEvent::BountifulHarvest { ticks_remaining: t }
    ||| e == GameEvent::WolfSurge { ticks_remaining: t }
    ||| e matches GameEvent::Plague { ticks_remaining, .. } && ticks_remaining == t
    ||| e == GameEvent::Blizzard { ticks_remaining: t }
}

proof fn lemma_timed_countdown(e: GameEvent, t: u64, k: nat)
    requires
        timed(e, t),
        t >= 1,
        k < t,
    ensures
        event_after_ticks(Some(e), k) matches Some(x) && timed(x, (t - k) as u64) && x is Plague == e is Plague,
        e matches GameEvent::Plague { kills_remaining, .. } ==> event_after_ticks(Some(e), k) matches Some(
            GameEvent::Plague { kills_remaining: kl, .. },
        ) && kl == kills_remaining,
    decreases k,
{
    if k > 0 {
        lemma_timed_countdown(e, t, (k - 1) as nat);
    }
}

/// A timed event with a countdown of `t` ticks is still in progress after
/// `t - 1` ticks, ends on tick `t`, and reports its end then.
pub proof fn law_timed_event_runs_its_course(e: GameEvent, t: u64)
    requires
        timed(e, t),
        t >= 1,
    ensures
        event_after_ticks(Some(e), (t - 1) as nat) is Some,
        event_after_ticks(Some(e), t as nat) is None,
        note_after_tick(event_after_ticks(Some(e), (t - 1) as nat).unwrap()) is Some,
{
    lemma_timed_countdown(e, t, (t - 1) as nat);
}

proof fn lemma_filter_map_len(s: Seq<GameEvent>, f: spec_fn(GameEvent) -> Option<GameEvent>)
    ensures
        s.filter_map(f).len() <= s.len(),
    decreases s.len(),
{
    if s.len() > 0 {
        lemma_filter_map_len(s.drop_last(), f);
    }
}

/// A tick never adds events, and the log keeps at most five entries after trimming.
pub proof fn law_tick_never_adds_events(events: Seq<GameEvent>, log: Seq<String>)
    ensures
        events.filter_map(|e: GameEvent| event_after_tick(e)).len() <= events.len(),
        trimmed_log(log).len() <= EVENT_LOG_LEN,
        log.len() <= EVENT_LOG_LEN ==> trimmed_log(log) == log,
{
    lemma_filter_map_len(events, |e: GameEvent| event_after_tick(e));
}
/// Some event in progress is of the kind that `is_kind` picks.
pub open spec fn in_progress(events: Seq<GameEvent>, is_kind: spec_fn(GameEvent) -> bool) -> bool {
    exists|i: int| 0 <= i < events.len() && #[trigger] is_kind(events[i])
}

/// Asking for an event kind by its name finds exactly the events of that kind.
proof fn lemma_kind_names(events: Seq<GameEvent>)
    ensures
        has_kind(events, "drought"@) == in_progress(events, |e: GameEvent| e is Drought),
        has_kind(events, "harvest"@) == in_progress(events, |e: GameEvent| e is BountifulHarvest),
        has_kind(events, "blizzard"@) == in_progress(events, |e: GameEvent| e is Blizzard),
        has_kind(events, "plague"@) == in_progress(events, |e: GameEvent| e is Plague),
{
    reveal_strlit("drought");
    reveal_strlit("harvest");
    reveal_strlit("migration");
    reveal_strlit("wolf_surge");
    reveal_strlit("plague");
    reveal_strlit("blizzard");
    reveal_strlit("bandit_raid");
    assert forall|e: GameEvent|
        #![trigger event_name(e)]
        (event_name(e) == "drought"@) == (e is Drought) && (event_name(e) == "harvest"@) == (e is BountifulHarvest)
            && (event_name(e) == "blizzard"@) == (e is Blizzard) && (event_name(e) == "plague"@) == (e is Plague) by {
        match e {
            GameEvent::Drought { .. } => {
                assert(event_name(e)[0] == 'd');
            },
            GameEvent::BountifulHarvest { .. } => {
                assert(event_name(e)[0] == 'h');
            },
            GameEvent::Migration { .. } => {
                assert(event_name(e).len() == 9);
            },
            GameEvent::WolfSurge { .. } => {
                assert(event_name(e).len() == 10);
            },
            GameEvent::Plague { .. } => {
                assert(event_name(e).len() == 6);
            },
            GameEvent::Blizzard { .. } => {
                assert(event_name(e).len() == 8);
            },
            GameEvent::BanditRaid { .. } => {
                assert(event_name(e).len() == 11);
            },
        }
    }
    lemma_kind_name(events, "drought"@, |e: GameEvent| e is Drought);
    lemma_kind_name(events, "harvest"@, |e: GameEvent| e is BountifulHarvest);
    lemma_kind_name(events, "blizzard"@, |e: GameEvent| e is Blizzard);
    lemma_kind_name(events, "plague"@, |e: GameEvent| e is Plague);
}

/// Asking for a name finds the events of a kind, when exactly the events of
/// that kind bear the name.
proof fn lemma_kind_name(events: Seq<GameEvent>, name: Seq<char>, is_kind: spec_fn(GameEvent) -> bool)
    requires
        forall|e: GameEvent| #![trigger event_name(e)] (event_name(e) == name) == is_kind(e),
    ensures
        has_kind(events, name) == in_progress(events, is_kind),
{
    if has_kind(events, name) {
        let i = choose|i: int| 0 <= i < events.len() && (|e: GameEvent| event_name(e) == name)(events[i]);
        assert(event_name(events[i]) == name);
        assert(is_kind(events[i]));
    }
    if in_progress(events, is_kind) {
        let i = choose|i: int| 0 <= i < events.len() && #[trigger] is_kind(events[i]);
        assert(event_name(events[i]) == name);
        assert((|e: GameEvent| event_name(e) == name)(events[i]));
    }
}

/// What a season's roll in `0..100` brings. Spring: migrants, when the huts
/// have room for more than the villagers, food exceeds 30 and the roll is
/// below 20. Summer: a drought, when five grain are put by per villager, none
/// is in progress and the roll is below 2. Autumn: a bountiful harvest, when
/// none is in progress and the roll is below 20. Winter: a blizzard, when
/// none is in progress and the roll is below 10. Otherwise nothing.
pub proof fn law_seasonal_events(events: Seq<GameEvent>, f: SeasonFacts, roll: u32)
    ensures
        f.season == Season::Spring ==> seasonal_outcome(events, f, roll) == if f.hut_capacity > f.villagers && f.food
            > 30 && roll < 20 {
            Some(SeasonalEvent::Migration)
        } else {
            None
        },
        f.season == Season::Summer ==> seasonal_outcome(events, f, roll) == if f.grain >= 5 * f.villagers && !in_progress(
            events,
            |e: GameEvent| e is Drought,
        ) && roll < 2 {
            Some(SeasonalEvent::Drought)
        } else {
            None
        },
        f.season == Season::Autumn ==> seasonal_outcome(events, f, roll) == if !in_progress(
            events,
            |e: GameEvent| e is BountifulHarvest,
        ) && roll < 20 {
            Some(SeasonalEvent::Harvest)
        } else {
            None
        },
        f.season == Season::Winter ==> seasonal_outcome(events, f, roll) == if !in_progress(
            events,
            |e: GameEvent| e is Blizzard,
        ) && roll < 10 {
            Some(SeasonalEvent::Blizzard)
        } else {
            None
        },
        seasonal_outcome(events, f, roll) == Some(SeasonalEvent::Migration) ==> f.hut_capacity > f.villagers,
{
    lemma_kind_names(events);
}

/// A plague breaks out on a roll below 5 from the third year on, unless a
/// plague is in progress or a bakery feeds the settlement bread.
pub proof fn law_plague_outbreak(events: Seq<GameEvent>, f: SeasonFacts, roll: u32)
    ensures
        plague_outcome(events, f, roll) == (f.year >= 2 && !in_progress(events, |e: GameEvent| e is Plague) && roll < 5
            && !f.has_bakery),
{
    lemma_kind_names(events);
}

} // verus!
