//! Inventory related log events.

use vstd::prelude::*;

verus! {

/// Event containing the commander's materials inventory.
pub struct Materials {
    pub raw: Vec<Material>,
    pub encoded: Vec<Material>,
    pub manufactured: Vec<Material>,
}

/// A material owned by the commander.
pub struct Material {
    pub name: String,
    pub localized_name: Option<String>,
    pub count: u16,
}

#[derive(Default, Debug, Clone, PartialEq)]
pub struct ShipLocker {
    pub items: Vec<()>,
    pub components: Vec<()>,
    pub consumables: Vec<()>,
    pub data: Vec<()>,
}

#[derive(Default, Debug, Clone, PartialEq)]
pub struct Cargo {
    pub vessel: String,
    pub count: i64,
    pub inventory: Vec<()>,
}

} // verus!
