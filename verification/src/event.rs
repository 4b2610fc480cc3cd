//! Declarative record catalogs for journal events, by event group.

pub mod location;
pub mod squadron;
pub mod startup;
