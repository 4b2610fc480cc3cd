//! Events found at the start of a journal file.

use vstd::prelude::*;

verus! {

#[derive(Debug, Clone, PartialEq)]
pub struct CargoItem {
    pub name: String,
    pub count: i64,
    pub stolen: i64,
    pub mission_id: Option<i64>,
    pub name_localised: Option<String>,
}

#[derive(Debug, Clone, PartialEq)]
pub struct Ship {
    kind: String,
    id: i64,
    name: String,
    ident: String,
}

#[derive(Debug, Clone, PartialEq)]
pub struct Material {
    pub name: String,
    pub count: i64,
}

#[derive(Debug, Clone, PartialEq)]
pub struct Mission {
    pub mission_id: i64,
    pub name: String,
    pub passenger_mission: bool,
    pub expires: i64,
}

#[derive(Debug, Clone, PartialEq)]
pub struct Passenger {
    pub mission_id: u32,
    pub kind: String,
    pub vip: bool,
    pub wanted: bool,
    pub count: u32,
}

#[derive(Default, Debug, Clone, PartialEq)]
pub struct BankAccountStatistics {
    pub current_wealth: i64,
    pub spent_on_ships: i64,
    pub spent_on_outfitting: i64,
    pub spent_on_repairs: i64,
    pub spent_on_fuel: i64,
    pub spent_on_ammo_consumables: i64,
    pub insurance_claims: i64,
    pub spent_on_insurance: i64,
}

#[derive(Default, Debug, Clone, PartialEq)]
pub struct CombatStatistics {
    pub bounties_claimed: i64,
    pub bounty_hunting_profit: i64,
    pub combat_bonds: i64,
    pub combat_bond_profits: i64,
    pub assassinations: i64,
    pub assassination_profits: i64,
    pub highest_single_reward: i64,
    pub skimmers_killed: i64,
}

#[derive(Default, Debug, Clone, PartialEq)]
pub struct CrimeStatistics {
    pub fines: i64,
    pub total_fines: i64,
    pub bounties_received: i64,
    pub total_bounties: i64,
    pub highest_bounty: i64,
}

#[derive(Default, Debug, Clone, PartialEq)]
pub struct SmugglingStatistics {
    pub black_markets_traded_with: i64,
    pub black_markets_profits: i64,
    pub resources_smuggled: i64,
    pub average_profit: i64,
    pub highest_single_transaction: i64,
}

#[derive(Default, Debug, Clone, PartialEq)]
pub struct TradingStatistics {
    pub markets_traded_with: i64,
    pub market_profits: i64,
    pub resources_traded: i64,
    pub average_profit: i64,
    pub highest_single_transaction: i64,
}

#[derive(Default, Debug, Clone, PartialEq)]
pub struct MiningStatistics {
    pub mining_profits: i64,
    pub quantity_mined: i64,
    pub materials_collected: i64,
}

#[derive(Default, Debug, Clone, PartialEq)]
pub struct PassengersStatistics {
    pub passengers_missions_bulk: i64,
    pub passengers_missions_vip: i64,
    pub passengers_missions_delivered: i64,
    pub passengers_missions_ejected: i64,
}

#[derive(Default, Debug, Clone, PartialEq)]
pub struct SearchAndRescueStatistics {
    pub search_rescue_traded: i64,
    pub search_rescue_profit: i64,
    pub search_rescue_count: i64,
}

#[derive(Default, Debug, Clone, PartialEq)]
pub struct CraftingStatistics {
    pub spent_on_crafting: i64,
    pub count_of_used_engineers: i64,
    pub recipes_generated: i64,
    pub recipes_generated_rank_1: i64,
    pub recipes_generated_rank_2: i64,
    pub recipes_generated_rank_3: i64,
    pub recipes_generated_rank_4: i64,
    pub recipes_generated_rank_5: i64,
    pub recipes_applied: i64,
    pub recipes_applied_rank_1: i64,
    pub recipes_applied_rank_2: i64,
    pub recipes_applied_rank_3: i64,
    pub recipes_applied_rank_4: i64,
    pub recipes_applied_rank_5: i64,
    pub recipes_applied_on_previously_modified_modules: i64,
}

#[derive(Default, Debug, Clone, PartialEq)]
pub struct CrewStatistics {
    pub npc_crew_total_wages: i64,
    pub npc_crew_hired: i64,
    pub npc_crew_fired: i64,
    pub npc_crew_died: i64,
}

#[derive(Default, Debug, Clone, PartialEq)]
pub struct MulticrewStatistics {
    pub multicrew_time_total: i64,
    pub multicrew_gunner_time_total: i64,
    pub multicrew_fighter_time_total: i64,
    pub multicrew_credits_total: i64,
    pub multicrew_fines_total: i64,
}

} // verus!
