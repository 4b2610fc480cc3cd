//! Fleet-carrier related journal events.

use vstd::prelude::*;

verus! {

#[derive(Debug, Clone, PartialEq)]
pub enum Carrier {
    Jump,
    Buy,
    Stats,
    JumpRequest,
    Decommission,
    CancelDecommission,
    BankTransfer,
    DepositFuel,
    CrewServices,
    Finance,
    ShipPack,
    ModulePack,
    TradeOrder,
    DockingPermission,
    NameChanged,
    JumpCancelled,
}

} // verus!
