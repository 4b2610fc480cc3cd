//! Common data structures, such as economy and government types.

use vstd::prelude::*;

verus! {

/// An enumeration of economy types.
#[derive(Debug, Clone, PartialEq, Eq)]
pub enum EconomyType {
    Extraction,
    Agriculture,
}

/// An enumeration of government types.
#[derive(Debug, Clone, PartialEq, Eq)]
pub enum GovernmentType {
    Anarchy,
    Democracy,
}

} // verus!
