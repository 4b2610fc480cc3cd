//! Powerplay related journal events.

use vstd::prelude::*;

verus! {

#[derive(Debug, Clone, PartialEq)]
pub enum Powerplay {
    Collect,
    Defect,
    Deliver,
    FastTrack,
    Join,
    Leave,
    Salary,
    Vote,
    Voucher,
}

} // verus!
