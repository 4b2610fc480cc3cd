//! Exploration related log events.

use vstd::prelude::*;

verus! {

#[derive(Debug, Clone, PartialEq, Eq)]
pub struct MaterialInfo {
    pub category: String,
    pub name: String,
    pub count: i64,
}

#[derive(Debug, Clone, PartialEq, Eq)]
pub struct MaterialDiscovered {
    pub category: String,
    pub name: String,
    pub discovery_number: i64,
}

#[derive(Debug, Clone, PartialEq, Eq)]
pub struct BuyExplorationData {
    pub system: String,
    pub cost: i64,
}

#[derive(Debug, Clone, PartialEq, Eq)]
pub struct SellExplorationData {
    pub systems: Vec<String>,
    pub discovered: Vec<String>,
    pub base_value: i64,
    pub bonus: i64,
}

#[derive(Default, Debug, Clone, PartialEq, Eq)]
pub struct Screenshot {
    pub filename: String,
    pub width: i64,
    pub height: i64,
    pub system: String,
    pub body: String,
}

} // verus!
