//! Core logic of a terminal markdown viewer: ANSI handling, search,
//! colour themes, markdown rendering into styled lines, and the viewer's
//! keyboard-driven state machine.

pub mod text;
pub mod style;
pub mod ansi;
pub mod search;
pub mod palettes;
pub mod theme;
pub mod markdown;
pub mod highlight;
pub mod render;
pub mod screen;
pub mod links;
pub mod viewer;
pub mod config;
