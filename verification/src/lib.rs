//! Picking a cutoff date in a list of catalog entries that is ordered from the
//! most recent entry to the oldest.
//!
//! The list comes from a catalog tool that is run with a fixed set of
//! filters. A cutoff is a place in the list where the date changes; such
//! places are looked for near a few target ranks and put on offer, and what
//! is typed then picks one, asks for other targets, or gives up.

pub mod beet_command;
pub mod command;
pub mod config;
pub mod entry;
pub mod filter;
pub mod json;
pub mod number;
pub mod ranks;
pub mod selector;
pub mod text;
pub mod transition;

pub use entry::{DateEntry, EntryError, EntryView};
pub use transition::{find_transition, Transition};
