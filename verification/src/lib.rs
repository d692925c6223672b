//! Core logic for a terminal color-theme manager: HSL color math and hex
//! conversion, ANSI palette generation, theme building, light/dark mode
//! resolution, collection cycling, and the daemon start/stop state machine.
//!
//! Every component here is pure computation with a verified contract. File,
//! network and process work lives in the surrounding application, which feeds
//! plain values (strings, integers, options) into these functions and acts on
//! what they return.

pub mod api;
pub mod collection;
pub mod color;
pub mod config;
pub mod creator;
pub mod cycling;
pub mod daemon;
pub mod darkmode;
pub mod digits;
pub mod preview;
pub mod export;
pub mod theme;
