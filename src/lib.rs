//! Rendering of a fixed-width, monospace profile report: glyph bars, bordered
//! badges, a ranked language distribution, a statistics table, an activity log,
//! and the document that composes them.
pub mod activity;
pub mod badge;
pub mod bar;
pub mod languages;
pub mod report;
pub mod stats;
pub mod text;
