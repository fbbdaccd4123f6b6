//! Switching between versions of a tool by rewriting the user's path list.
//!
//! The path list is one string of entries separated by `;`. A group holds
//! the paths of the versions of one tool; activating a version puts its path
//! in front of the list and takes the other paths of its group out. A
//! cleaner finds entries that are repeated or lead nowhere and removes the
//! ones the user selects.
//!
//! The library computes and decides. It neither reads nor writes the stored
//! list, and it does not read the clock: its callers hand it the value they
//! read and the time of day, and store the value it gives. Of the world
//! outside it asks one thing only, whether a path exists; [`host`] holds
//! that, and the lower-casing that the standard library does for it.
//!
//! [`path_list`] reads and writes the string, [`activation`] and [`cleaner`]
//! transform it, [`groups`], [`history`], [`state`] and [`editing`] hold
//! what the application remembers, and [`language`] holds its texts.

pub mod activation;
pub mod cleaner;
pub mod cleaner_laws;
pub mod editing;
pub mod groups;
pub mod history;
pub mod host;
pub mod language;
pub mod path_list;
pub mod seq_facts;
pub mod state;
pub mod text;
pub mod types;
