//! Contains events relating to game lifecycle.

use vstd::prelude::*;

verus! {

/// An enumeration of lifecycle event types.
#[derive(Debug, Clone, PartialEq, Eq)]
pub enum LifecycleEvent {
    ClearSavedGame(ClearSavedGame),
    NewCommander(NewCommander),
    LoadGame(LoadGame),
    Progress(Progress),
}

/// Event fired when a save game is cleared.
#[derive(Default, Debug, Clone, PartialEq, Eq)]
pub struct ClearSavedGame {
    /// The commander name.
    pub name: String,
}

/// Event fired when creating a new commander.
#[derive(Default, Debug, Clone, PartialEq, Eq)]
pub struct NewCommander {
    /// The name of the commander.
    pub name: String,
    /// The selected starter package.
    pub package: String,
}

/// Event emitted when loading from the main menu into game.
#[derive(Default, Debug, Clone, PartialEq, Eq)]
pub struct LoadGame {
    /// The commander name.
    pub commander: String,
    /// The current ship type.
    pub ship: String,
    /// The ship ID number.
    pub ship_id: i64,
    /// Whether the current ship is landed.
    pub start_landed: bool,
    /// Whether the commander is dead when loading in.
    pub start_dead: bool,
    /// The gamemode being loaded into.
    pub gamemode: Gamemode,
    /// The commander's current credit balance.
    pub credits: i64,
    /// The commander's current loan.
    pub loan: i64,
}

/// An enumeration of gamemode types.
#[derive(Default, Debug, Clone, PartialEq, Eq)]
pub enum Gamemode {
    Open,
    #[default]
    Solo,
    Group {
        group_name: String,
    },
}

/// Event containing the progress of the commander to the next rank for each faction.
#[derive(Default, Debug, Clone, PartialEq, Eq)]
pub struct Progress {
    pub combat: i64,
    pub trade: i64,
    pub explore: i64,
    pub empire: i64,
    pub federation: i64,
    pub cqc: i64,
}

/// Event containing the rank of each commander
#[derive(Default, Debug, Clone, PartialEq, Eq)]
pub struct Rank {
    pub combat: i64,
    pub trade: i64,
    pub explore: i64,
    pub empire: i64,
    pub federation: i64,
    pub cqc: i64,
}

} // verus!
