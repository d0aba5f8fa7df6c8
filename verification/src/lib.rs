//! A session over a directory of plain-text notes: the state of the
//! interactive browser and its transitions, the search over names and
//! contents, the commands that ask for an analysis of a note, and the
//! reading of front matter, links and tags.

pub mod ai;
pub mod commands;
pub mod front_matter;
pub mod notes;
pub mod pattern;
pub mod screen;
pub mod text;
pub mod tui;
pub mod web;
