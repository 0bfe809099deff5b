use vstd::prelude::*;

use crate::frame::Color;
use crate::tilemap::Terrain;

verus! {

/// Season of the year.
#[derive(Debug, Clone, Copy, PartialEq, Eq, Structural)]
pub enum Season {
    Spring,
    Summer,
    Autumn,
    Winter,
}

/// Channel `c` raised by `k`, saturating at 255.
pub open spec fn sat_up(c: u8, k: int) -> u8 {
    if c + k > 255 {
        255u8
    } else {
        (c + k) as u8
    }
}

/// Channel `c` lowered by `k`, saturating at 0.
pub open spec fn sat_down(c: u8, k: int) -> u8 {
    if c - k < 0 {
        0u8
    } else {
        (c - k) as u8
    }
}

fn up(c: u8, k: u8) -> (r: u8)
    ensures
        r == sat_up(c, k as int),
{
    if c as u16 + k as u16 > 255 {
        255
    } else {
        c + k
    }
}

fn down(c: u8, k: u8) -> (r: u8)
    ensures
        r == sat_down(c, k as int),
{
    if c < k {
        0
    } else {
        c - k
    }
}

/// Winter frost: a channel pulled two thirds of the way to the color's average.
pub open spec fn frost(c: u8, avg: int) -> u8 {
    ((c + avg * 2) / 3) as u8
}

/// Seasonal tint of vegetation-sensitive terrain in Normal mode.
pub open spec fn seasonal(color: Color, terrain: Terrain, season: Season) -> Color {
    let Color(r, g, b) = color;
    match terrain {
        Terrain::Grass | Terrain::Forest | Terrain::Sapling => match season {
            // Fresh greens, slightly brighter
            Season::Spring => Color(r, sat_up(g, 15), b),
            // Warm, lush
            Season::Summer => Color(sat_up(r, 10), sat_up(g, 10), b),
            // Strong orange/brown/red shift
            Season::Autumn => Color(sat_up(r, 80), sat_down(g, 30), sat_down(b, 10)),
            // Heavy frost: desaturate toward white/gray
            Season::Winter => {
                let avg = (r + g + b) / 3;
                Color(frost(r, avg), frost(g, avg), sat_up(frost(b, avg), 20))
            },
        },
        Terrain::Sand => match season {
            // Snow-dusted sand
            Season::Winter => Color(sat_up(r, 30), sat_up(g, 30), sat_up(b, 40)),
            _ => color,
        },
        _ => color,
    }
}

/// Apply seasonal color tinting to vegetation-sensitive terrain.
pub fn season_tint(color: Color, terrain: &Terrain, season: Season) -> (r: Color)
    ensures
        r == seasonal(color, *terrain, season),
{
    match terrain {
        Terrain::Grass | Terrain::Forest | Terrain::Sapling => {
            let Color(r, g, b) = color;
            match season {
                Season::Spring => Color(r, up(g, 15), b),
                Season::Summer => Color(up(r, 10), up(g, 10), b),
                Season::Autumn => Color(up(r, 80), down(g, 30), down(b, 10)),
                Season::Winter => {
                    let avg: u16 = (r as u16 + g as u16 + b as u16) / 3;
                    let fr = ((r as u16 + avg * 2) / 3) as u8;
                    let fg = ((g as u16 + avg * 2) / 3) as u8;
                    let fb = ((b as u16 + avg * 2) / 3) as u8;
                    Color(fr, fg, up(fb, 20))
                },
            }
        },
        Terrain::Sand => {
            match season {
                Season::Winter => {
                    let Color(r, g, b) = color;
                    Color(up(r, 30), up(g, 30), up(b, 40))
                },
                _ => color,
            }
        },
        _ => color,
    }
}

/// Seasonal palette shift of Landscape mode.
pub open spec fn landscape_seasonal(color: Color, terrain: Terrain, season: Season) -> Color {
    let Color(r, g, b) = color;
    match season {
        Season::Spring => match terrain {
            Terrain::Grass | Terrain::Bare | Terrain::Sapling => Color(r, sat_up(g, 15), sat_up(b, 5)),
            Terrain::Forest => Color(r, sat_up(g, 12), sat_up(b, 5)),
            Terrain::Scrubland => Color(sat_up(r, 5), sat_up(g, 10), b),
            Terrain::Marsh => Color(sat_up(r, 5), sat_up(g, 15), sat_up(b, 10)),
            Terrain::Snow => Color(r, g, sat_down(b, 15)),
            _ => color,
        },
        Season::Summer => match terrain {
            Terrain::Grass | Terrain::Bare | Terrain::Sapling => Color(sat_up(r, 10), sat_up(g, 5), sat_down(b, 10)),
            Terrain::Forest => Color(sat_up(r, 5), sat_up(g, 8), sat_down(b, 5)),
            Terrain::Desert => Color(sat_up(r, 15), sat_up(g, 5), sat_down(b, 10)),
            Terrain::Sand => Color(sat_up(r, 10), sat_up(g, 5), sat_down(b, 5)),
            Terrain::Tundra => Color(sat_up(r, 10), sat_up(g, 5), sat_down(b, 5)),
            _ => color,
        },
        Season::Autumn => match terrain {
            Terrain::Grass | Terrain::Bare | Terrain::Sapling => Color(110, 90, 35),
            Terrain::Forest => Color(100, 55, 18),
            Terrain::Scrubland => Color(120, 85, 30),
            Terrain::Marsh => Color(sat_up(r, 15), sat_down(g, 10), sat_down(b, 10)),
            Terrain::Mountain => Color(sat_up(r, 5), g, sat_down(b, 5)),
            _ => color,
        },
        Season::Winter => match terrain {
            Terrain::Grass | Terrain::Bare | Terrain::Sapling => Color(140, 145, 155),
            Terrain::Forest => Color(50, 60, 55),
            Terrain::Scrubland => Color(110, 108, 100),
            Terrain::Marsh => Color(55, 65, 70),
            Terrain::Sand => Color(sat_up(r, 20), sat_up(g, 20), sat_up(b, 30)),
            Terrain::Tundra => Color(195, 198, 210),
            Terrain::Snow => Color(225, 225, 240),
            Terrain::Mountain => Color(sat_up(r, 15), sat_up(g, 15), sat_up(b, 25)),
            _ => color,
        },
    }
}

/// Seasonal color tinting for Landscape Mode: the hand-picked palette shifts.
pub fn landscape_season_tint(color: Color, terrain: &Terrain, season: Season) -> (r: Color)
    ensures
        r == landscape_seasonal(color, *terrain, season),
{
    let Color(r, g, b) = color;
    match season {
        Season::Spring => match terrain {
            Terrain::Grass | Terrain::Bare | Terrain::Sapling => Color(r, up(g, 15), up(b, 5)),
            Terrain::Forest => Color(r, up(g, 12), up(b, 5)),
            Terrain::Scrubland => Color(up(r, 5), up(g, 10), b),
            Terrain::Marsh => Color(up(r, 5), up(g, 15), up(b, 10)),
            Terrain::Snow => Color(r, g, down(b, 15)),
            _ => color,
        },
        Season::Summer => match terrain {
            Terrain::Grass | Terrain::Bare | Terrain::Sapling => Color(up(r, 10), up(g, 5), down(b, 10)),
            Terrain::Forest => Color(up(r, 5), up(g, 8), down(b, 5)),
            Terrain::Desert => Color(up(r, 15), up(g, 5), down(b, 10)),
            Terrain::Sand => Color(up(r, 10), up(g, 5), down(b, 5)),
            Terrain::Tundra => Color(up(r, 10), up(g, 5), down(b, 5)),
            _ => color,
        },
        Season::Autumn => match terrain {
            // Golden brown
            Terrain::Grass | Terrain::Bare | Terrain::Sapling => Color(110, 90, 35),
            // Deep orange-red
            Terrain::Forest => Color(100, 55, 18),
            // Russet
            Terrain::Scrubland => Color(120, 85, 30),
            Terrain::Marsh => Color(up(r, 15), down(g, 10), down(b, 10)),
            Terrain::Mountain => Color(up(r, 5), g, down(b, 5)),
            _ => color,
        },
        Season::Winter => match terrain {
            // Frost/snow dusted
            Terrain::Grass | Terrain::Bare | Terrain::Sapling => Color(140, 145, 155),
            // Bare, dark, cold
            Terrain::Forest => Color(50, 60, 55),
            // Dead scrub
            Terrain::Scrubland => Color(110, 108, 100),
            // Frozen grey
            Terrain::Marsh => Color(55, 65, 70),
            Terrain::Sand => Color(up(r, 20), up(g, 20), up(b, 30)),
            // Heavy snow
            Terrain::Tundra => Color(195, 198, 210),
            // Fresh powder
            Terrain::Snow => Color(225, 225, 240),
            Terrain::Mountain => Color(up(r, 15), up(g, 15), up(b, 25)),
            _ => color,
        },
    }
}

/// Terrain without seasonal appearance (water, roads, buildings, ...) keeps
/// its color in every season and in both palettes.
pub proof fn law_unseasonal_terrain_keeps_color(color: Color, terrain: Terrain, season: Season)
    requires
        !(terrain is Grass || terrain is Forest || terrain is Sapling || terrain is Sand || terrain is Bare
            || terrain is Scrubland || terrain is Marsh || terrain is Snow || terrain is Desert || terrain is Tundra
            || terrain is Mountain),
    ensures
        seasonal(color, terrain, season) == color,
        landscape_seasonal(color, terrain, season) == color,
{
}

/// Winter frost pulls vegetation toward gray: each frosted channel lies
/// between the channel and the color's average.
pub proof fn law_winter_frost_desaturates(color: Color, terrain: Terrain)
    requires
        terrain is Grass || terrain is Forest || terrain is Sapling,
    ensures
        ({
            let Color(r, g, b) = color;
            let avg = (r + g + b) / 3;
            let Color(fr, fg, _) = seasonal(color, terrain, Season::Winter);
            &&& (r <= avg ==> r <= fr <= avg) && (r >= avg ==> avg <= fr <= r)
            &&& (g <= avg ==> g <= fg <= avg) && (g >= avg ==> avg <= fg <= g)
        }),
{
}

} // verus!
