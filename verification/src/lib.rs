//! Panes, highlights and commands of a terminal wiki reader.

pub mod input;
pub mod laws;
pub mod laws_calls;
pub mod laws_paint;
pub mod laws_pane;
pub mod laws_reader;
pub mod laws_text;
pub mod link;
pub mod outside;
pub mod pane;
pub mod screen;
pub mod terki;
pub mod text;
