//! Aggregates contribution activity from several source-control hosts into a
//! date-aligned weekly calendar. An empty week-by-day grid is built over a
//! date window, each provider's normalized events are folded into per-day
//! counts, the per-provider calendars are merged into one row-major grid, and
//! a shade index maps each count to a palette color for rendering.

pub mod colors;
pub mod dates;
pub mod errors;
pub mod laws;
pub mod merge;
pub mod processor;
pub mod renderer;
pub mod types;
