//! Declarative record catalogs for the game's log files.

pub mod exploration;
pub mod inventory;
pub mod lifecycle;
pub mod location;
pub mod statistics;
pub mod travel;
