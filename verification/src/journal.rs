//! Declarative record catalogs for the game journal format.

pub mod carrier;
pub mod combat;
pub mod common;
pub mod powerplay;
pub mod squadron;
pub mod startup;
pub mod trade;
pub mod travel;
