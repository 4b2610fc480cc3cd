//! Station and faction details reported by location events.

use vstd::prelude::*;

verus! {

#[derive(Debug, Clone, PartialEq)]
pub struct StationFaction {
    pub name: String,
    pub faction_state: String,
}

#[derive(Debug, Clone, PartialEq)]
pub struct RecoveringState {
    pub state: String,
    pub trend: i64,
}

#[derive(Debug, Clone, PartialEq)]
pub struct ActiveState {
    pub state: String,
}

#[derive(Debug, Clone, PartialEq)]
pub struct PendingState {
    pub state: String,
    pub trend: i64,
}

#[derive(Debug, Clone, PartialEq)]
pub struct SystemFaction {
    pub name: String,
    pub faction_state: Option<String>,
}

} // verus!
