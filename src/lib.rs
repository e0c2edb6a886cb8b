//! Wiki markup generation for a game-data catalog.
//!
//! - `wiki`: the description translator, which turns `<link=...>` spans
//!   into wiki links and drops colour and other tags (`tags`); its laws are
//!   proved in `lemmas`.
//! - `catalog`: the catalog records and their lookups.
//! - `wikibox`, `logic`, `instructions`, `recipes`: the boxes and tables
//!   built from them.
//! - `search`: which page a request picks.

pub mod text;
pub mod catalog;
pub mod tags;
pub mod wiki;
pub mod lemmas;
pub mod wikibox;
pub mod search;
pub mod instructions;
pub mod enums;
pub mod commands;
pub mod logic;
pub mod recipes;
