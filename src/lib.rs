//! Font introspection and aggregation: name-table resolution with locale
//! fallback, glyph-coverage probing, per-face record materialization,
//! collection expansion and CSS family aggregation.

pub mod models;
pub mod text;
pub mod names;
pub mod coverage;
pub mod face;
pub mod scanner;
pub mod state;
pub mod check;
