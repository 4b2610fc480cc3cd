//! Smoke tests for the declarative record catalogs.

use procyon::journal::combat::{Bounty, BountyReward};
use procyon::journal::travel::{DockingDenialReason, DockingDenied};
use procyon::log::lifecycle::{ClearSavedGame, Gamemode, LifecycleEvent};

#[test]
fn build_combat_records() {
    let bounty = Bounty {
        rewards: vec![BountyReward { faction: "Federation".to_string(), reward: 1000 }],
        target: "Sidewinder".to_string(),
        total_reward: 1000,
        victim_faction: "Independents".to_string(),
    };
    assert_eq!(bounty.rewards.len(), 1);
    assert_eq!(bounty.rewards[0].reward, 1000);
    assert_eq!(bounty.clone(), bounty);
}

#[test]
fn build_travel_records() {
    let denied = DockingDenied {
        station_name: "Jameson Memorial".to_string(),
        reason: DockingDenialReason::NoSpace,
    };
    assert_eq!(denied.reason, DockingDenialReason::NoSpace);
}

#[test]
fn build_lifecycle_records() {
    let event = LifecycleEvent::ClearSavedGame(ClearSavedGame { name: "HRC1".to_string() });
    match &event {
        LifecycleEvent::ClearSavedGame(cleared) => assert_eq!(cleared.name, "HRC1"),
        _ => panic!("expected a cleared save game"),
    }
    assert_eq!(Gamemode::default(), Gamemode::Solo);
}
