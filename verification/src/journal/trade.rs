//! Trade related journal events.

use vstd::prelude::*;

verus! {

#[derive(Debug, Clone, PartialEq)]
pub enum Trade {
    AsteroidCracked {},
    BuyTradeData {},
    CollectCargo {},
    EjectCargo {},
    MarketBuy {},
    MarketSell {},
    MiningRefined {},
}

} // verus!
