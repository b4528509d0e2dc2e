//! A fair two-player matchup scheduler: an append-only match history, a
//! rule engine that decides whether a proposed matchup is legal, and an
//! automatic selector for the next matchup.

pub mod playthrough;
pub mod select;
pub mod rules;

pub use playthrough::TtError;
pub use playthrough::TtMatch;
pub use playthrough::TtPlaythrough;
