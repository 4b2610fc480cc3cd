//! Player statistics reported by the game log.

use vstd::prelude::*;

verus! {

#[derive(Default, Debug, Clone, PartialEq)]
pub struct BankAccount {
    pub current_wealth: i64,
    pub spent_on_ships: i64,
    pub spent_on_outfitting: i64,
    pub spent_on_repairs: i64,
    pub spent_on_fuel: i64,
    pub spent_on_ammo_consumables: i64,
    pub insurance_claims: i64,
    pub spent_on_insurance: i64,
    pub owned_ship_count: i64,
}

#[derive(Default, Debug, Clone, PartialEq)]
pub struct Combat {
    pub bounties_claimed: i64,
    pub bounty_hunting_profit: i64,
    pub combat_bonds: i64,
    pub combat_bond_profits: i64,
    pub assassinations: i64,
    pub assassination_profits: i64,
    pub highest_single_reward: i64,
    pub skimmers_killed: i64,
}

#[derive(Default, Debug, Clone, PartialEq)]
pub struct Crime {
    pub notoriety: i64,
    pub fines: i64,
    pub total_fines: i64,
    pub bounties_received: i64,
    pub total_bounties: i64,
    pub highest_bounty: i64,
}

#[derive(Default, Debug, Clone, PartialEq)]
pub struct Smuggling {
    pub black_markets_traded_with: i64,
    pub black_markets_profits: i64,
    pub resources_smuggled: i64,
    pub average_profit: i64,
    pub highest_single_transaction: i64,
}

#[derive(Default, Debug, Clone, PartialEq)]
pub struct Mining {
    pub mining_profits: i64,
    pub quantity_mined: i64,
    pub materials_collected: i64,
}

#[derive(Default, Debug, Clone, PartialEq)]
pub struct Passengers {
    pub passengers_missions_accepted: i64,
    pub passengers_missions_disgruntled: i64,
    pub passengers_missions_bulk: i64,
    pub passengers_missions_vip: i64,
    pub passengers_missions_delivered: i64,
    pub passengers_missions_ejected: i64,
}

#[derive(Default, Debug, Clone, PartialEq)]
pub struct SearchAndRescue {
    pub search_rescue_traded: i64,
    pub search_rescue_profit: i64,
    pub search_rescue_count: i64,
}

#[derive(Default, Debug, Clone, PartialEq)]
pub struct TgEncounters {
    pub tg_encounter_total: i64,
    pub tg_encounter_total_last_system: String,
    pub tg_encounter_total_last_timestamp: String,
    pub tg_encounter_total_last_ship: String,
}

#[derive(Default, Debug, Clone, PartialEq)]
pub struct Crafting {
    pub count_of_used_engineers: i64,
    pub recipes_generated: i64,
    pub recipes_generated_rank_1: i64,
    pub recipes_generated_rank_2: i64,
    pub recipes_generated_rank_3: i64,
    pub recipes_generated_rank_4: i64,
    pub recipes_generated_rank_5: i64,
}

#[derive(Default, Debug, Clone, PartialEq)]
pub struct Crew {
    pub npc_crew_total_wages: i64,
    pub npc_crew_hired: i64,
    pub npc_crew_fired: i64,
    pub npc_crew_died: i64,
}

#[derive(Default, Debug, Clone, PartialEq)]
pub struct Multicrew {
    pub multicrew_time_total: i64,
    pub multicrew_gunner_time_total: i64,
    pub multicrew_fighter_time_total: i64,
    pub multicrew_credits_total: i64,
    pub multicrew_fines_total: i64,
}

#[derive(Default, Debug, Clone, PartialEq)]
pub struct MaterialTraderStats {
    pub trades_completed: i64,
    pub materials_traded: i64,
    pub encoded_materials_traded: i64,
    pub raw_materials_traded: i64,
    pub grade_1_materials_traded: i64,
    pub grade_2_materials_traded: i64,
    pub grade_3_materials_traded: i64,
    pub grade_4_materials_traded: i64,
}

} // verus!
