//! Grid bookkeeping and decision logic of a colony simulation: redraw
//! tracking, chokepoint analysis, frame diffing, the glyph and color tables
//! of the renderers, input handling, milestones, world events and threats,
//! forest fires, and the rules for stock, terrain and building placement.

pub mod dirty;
pub mod tilemap;
pub mod chokepoint;
pub mod chokepoint_laws;
pub mod components;
pub mod frame;
pub mod modes;
pub mod visuals;
pub mod palette;
pub mod control;
pub mod milestones;
pub mod events;
pub mod threat;
pub mod fire;
pub mod colony;
pub mod placement;
pub mod dice;
pub mod diagnostics;
pub mod settlement;
pub mod sites;
pub mod founding;
