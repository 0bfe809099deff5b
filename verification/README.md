# colony_sim

The verified core of a terminal colony simulation: the grid bookkeeping and
the decision rules of the game, each with a contract proved by Verus.

- `src/` — the library.
  - `dirty` redraw tracking on a bit grid; `tilemap` the terrain grid;
  - `chokepoint`, `components` and `chokepoint_laws` corridor widths, river
    crossings, their breadth-first clustering into chokepoints, and what
    holds of the result;
  - `frame` frame snapshots and their differences;
  - `modes`, `visuals`, `palette` render modes, entity glyphs and seasonal tints;
  - `control` input handling, notifications, frame pacing and the decisions
    that open and close a frame;
  - `milestones`, `events`, `threat` settlement progress, world events and threat spawns;
  - `fire`, `colony`, `placement` forest fires, stock and terrain rules, building placement;
  - `settlement`, `sites`, `founding` the start site and building spots of
    a new settlement, its berry and stone sites, and the state a new game
    starts in;
  - `diagnostics` population tallies and the settlement threat score;
  - `dice` the random draws (from `rand`) that events, threats and fires roll,
    the one place where the library trusts code it does not prove.
  Laws, proof functions named `law_*` that state what holds across calls,
  stand in the modules they speak of.
- `tests/` — tests on concrete values.
- `app/` — glue for the embedding game: floating-point views of the
  library's integer quantities (threat scores in hundredths of a point,
  velocities in millionths of a tile, chokepoint scores) and serde forms of
  its types, and the order in which a frame applies the library's decisions.
