//! The tab bar of a terminal multiplexer: how wide each tab is, which tabs fit
//! into the bar, where the pointer can hit them, and what is painted.

pub mod bar;
pub mod behavior;
pub mod laws;
pub mod rect;
pub mod render;
pub mod state;
pub mod strip;
pub mod surface;
pub mod tabs;
pub mod text;
