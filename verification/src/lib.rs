//! Verified core of the Phantom game-engine editor.
use vstd::prelude::*;

pub mod actions;
pub mod asset_browser;
pub mod events;
pub mod game_loader;
pub mod inspector;
pub mod logger;
pub mod panels;
pub mod path;
pub mod play;
pub mod project;
pub mod reflection;
pub mod sorting;
pub mod text;
pub mod workspaces;

verus! {
} // verus!
