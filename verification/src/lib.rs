use vstd::prelude::*;

pub mod text;
pub mod markup;
pub mod api;
pub mod hn;
pub mod cache;
pub mod wrap;
pub mod app;
pub mod keymap;
pub mod config;
pub mod state;
pub mod settings;
pub mod control;
pub mod screen;
pub mod laws;

verus! {
}
