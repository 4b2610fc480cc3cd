//! Events found at the start of a journal file.

use vstd::prelude::*;

verus! {

#[derive(Debug, Clone, PartialEq)]
pub struct CargoItem {
    pub name: String,
    pub count: i64,
    pub stolen: i64,
    pub mission_id: Option<i64>,
    pub name_localised: Option<String>,
}

#[derive(Debug, Clone, PartialEq)]
pub struct Ship {
    kind: String,
    id: i64,
    name: String,
    ident: String,
}

#[derive(Debug, Clone, PartialEq)]
pub struct Material {
    pub name: String,
    pub name_localised: Option<String>,
    pub count: i64,
}

#[derive(Debug, Clone, PartialEq)]
pub struct Mission {
    pub mission_id: i64,
    pub name: String,
    pub passenger_mission: bool,
    pub expires: i64,
}

#[derive(Debug, Clone, PartialEq)]
pub struct Passenger {
    pub mission_id: u32,
    pub kind: String,
    pub vip: bool,
    pub wanted: bool,
    pub count: u32,
}

#[derive(Default, Debug, Clone, PartialEq)]
pub struct BankAccountStats {
    pub current_wealth: i64,
    pub spent_on_ships: i64,
    pub spent_on_outfitting: i64,
    pub spent_on_repairs: i64,
    pub spent_on_fuel: i64,
    pub spent_on_ammo_consumables: i64,
    pub insurance_claims: i64,
    pub spent_on_insurance: i64,
    pub owned_ship_count: i64,
    pub spent_on_suits: i64,
    pub spent_on_weapons: i64,
    pub spent_on_suit_consumables: i64,
    pub suits_owned: i64,
    pub weapons_owned: i64,
    pub spent_on_premium_stock: i64,
    pub premium_stock_bought: i64,
}

#[derive(Default, Debug, Clone, PartialEq)]
pub struct CombatStats {
    pub bounties_claimed: i64,
    pub bounty_hunting_profit: i64,
    pub combat_bonds: i64,
    pub combat_bond_profits: i64,
    pub assassinations: i64,
    pub assassination_profits: i64,
    pub highest_single_reward: i64,
    pub skimmers_killed: i64,
    pub on_foot_combat_bonds: i64,
    pub on_foot_combat_bonds_profits: i64,
    pub on_foot_vehicles_destroyed: i64,
    pub on_foot_ships_destroyed: i64,
    pub dropships_taken: i64,
    pub dropships_booked: i64,
    pub dropships_cancelled: i64,
    pub conflict_zone_high: i64,
    pub conflict_zone_medium: i64,
    pub conflict_zone_low: i64,
    pub conflict_zone_total: i64,
    pub conflict_zone_high_wins: i64,
    pub conflict_zone_medium_wins: i64,
    pub conflict_zone_low_wins: i64,
    pub conflict_zone_total_wins: i64,
    pub settlement_defended: i64,
    pub settlement_conquered: i64,
    pub on_foot_skimmers_killed: i64,
    pub on_foot_scavs_killed: i64,
}

#[derive(Default, Debug, Clone, PartialEq)]
pub struct CrimeStats {
    pub notoriety: i64,
    pub fines: i64,
    pub total_fines: i64,
    pub bounties_received: i64,
    pub total_bounties: i64,
    pub highest_bounty: i64,
    pub malware_uploaded: i64,
    pub settlements_state_shutdown: i64,
    pub production_sabotage: i64,
    pub production_theft: i64,
    pub total_murders: i64,
    pub citizens_murdered: i64,
    pub omnipol_murdered: i64,
    pub guards_murdered: i64,
    pub data_stolen: i64,
    pub goods_stolen: i64,
    pub sample_stolen: i64,
    pub total_stolen: i64,
    pub turrets_destroyed: i64,
    pub turrets_overloaded: i64,
    pub turrets_total: i64,
    pub value_stolen_state_change: i64,
    pub profiles_cloned: i64,
}

#[derive(Default, Debug, Clone, PartialEq)]
pub struct SmugglingStats {
    pub black_markets_traded_with: i64,
    pub black_markets_profits: i64,
    pub resources_smuggled: i64,
    pub average_profit: i64,
    pub highest_single_transaction: i64,
}

#[derive(Default, Debug, Clone, PartialEq)]
pub struct MiningStats {
    pub mining_profits: i64,
    pub quantity_mined: i64,
    pub materials_collected: i64,
}

#[derive(Default, Debug, Clone, PartialEq)]
pub struct PassengersStats {
    pub passengers_missions_accepted: i64,
    pub passengers_missions_disgruntled: i64,
    pub passengers_missions_bulk: i64,
    pub passengers_missions_vip: i64,
    pub passengers_missions_delivered: i64,
    pub passengers_missions_ejected: i64,
}

#[derive(Default, Debug, Clone, PartialEq)]
pub struct SearchAndRescueStats {
    pub search_rescue_traded: i64,
    pub search_rescue_profit: i64,
    pub search_rescue_count: i64,
    pub salvage_legal_poi: i64,
    pub salvage_legal_settlements: i64,
    pub salvage_illegal_poi: i64,
    pub salvage_illegal_settlements: i64,
    pub maglocks_opened: i64,
    pub panels_opened: i64,
    pub settlements_state_fire_out: i64,
    pub settlements_state_reboot: i64,
}

#[derive(Default, Debug, Clone, PartialEq)]
pub struct ThargoidEncounterStats {
    pub tg_encounter_total: i64,
    pub tg_encounter_total_last_system: String,
    pub tg_encounter_total_last_timestamp: String,
    pub tg_encounter_total_last_ship: String,
}

#[derive(Default, Debug, Clone, PartialEq)]
pub struct CraftingStats {
    pub count_of_used_engineers: i64,
    pub recipes_generated: i64,
    pub recipes_generated_rank_1: i64,
    pub recipes_generated_rank_2: i64,
    pub recipes_generated_rank_3: i64,
    pub recipes_generated_rank_4: i64,
    pub recipes_generated_rank_5: i64,
    pub suit_mods_applied: i64,
    pub weapon_mods_applied: i64,
    pub suits_upgraded: i64,
    pub weapons_upgraded: i64,
    pub suits_upgraded_full: i64,
    pub weapons_upgraded_full: i64,
    pub suit_mods_applied_full: i64,
    pub weapon_mods_applied_full: i64,
}

#[derive(Default, Debug, Clone, PartialEq)]
pub struct CrewStats {
    pub npc_crew_total_wages: i64,
    pub npc_crew_hired: i64,
    pub npc_crew_fired: i64,
    pub npc_crew_died: i64,
}

#[derive(Default, Debug, Clone, PartialEq)]
pub struct MulticrewStats {
    pub multicrew_time_total: i64,
    pub multicrew_gunner_time_total: i64,
    pub multicrew_fighter_time_total: i64,
    pub multicrew_credits_total: i64,
    pub multicrew_fines_total: i64,
}

#[derive(Default, Debug, Clone, PartialEq)]
pub struct MaterialTraderStats {
    pub trades_completed: i64,
    pub materials_traded: i64,
    pub encoded_materials_traded: i64,
    pub raw_materials_traded: i64,
    pub grade_1_materials_traded: i64,
    pub grade_2_materials_traded: i64,
    pub grade_3_materials_traded: i64,
    pub grade_4_materials_traded: i64,
    pub grade_5_materials_traded: i64,
    pub assets_traded_in: i64,
    pub assets_traded_out: i64,
}

#[derive(Default, Debug, Clone, PartialEq)]
pub struct ExobiologyStats {
    pub organic_genus_encountered: i64,
    pub organic_species_encountered: i64,
    pub organic_variant_encountered: i64,
    pub organic_data_profits: i64,
    pub organic_data: i64,
    pub first_logged_profits: i64,
    pub first_logged: i64,
    pub organic_systems: i64,
    pub organic_planets: i64,
    pub organic_genus: i64,
    pub organic_species: i64,
}

} // verus!
