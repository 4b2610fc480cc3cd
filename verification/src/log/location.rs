//! Location related log events.

use vstd::prelude::*;

verus! {

#[derive(Default, Debug, Clone, PartialEq)]
pub struct ActiveState {
    pub state: String,
}

#[derive(Default, Debug, Clone, PartialEq)]
pub struct RecoveringState {
    pub state: String,
    pub trend: i64,
}

#[derive(Default, Debug, Clone, PartialEq)]
pub struct SystemFaction {
    pub name: String,
    pub faction_state: String,
}

#[derive(Default, Debug, Clone, PartialEq)]
pub struct FSDTarget {
    pub name: String,
    pub system_address: i64,
    pub star_class: String,
    pub remaining_jumps_in_route: i64,
}

#[derive(Default, Debug, Clone, PartialEq)]
pub struct StartJump {
    pub jump_type: String,
    pub star_system: String,
    pub system_address: i64,
    pub star_class: String,
}

#[derive(Default, Debug, Clone, PartialEq)]
pub enum JumpType {
    Hyperspace { star_system: String, system_address: i64, star_class: String },
    #[default]
    Supercruise,
}

} // verus!
