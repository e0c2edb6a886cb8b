//! The enumeration tables of the game's logic system.

use vstd::prelude::*;
use std::collections::BTreeMap;

verus! {

/// The named values of the game's logic enumerations, table by table.
#[derive(Clone, Debug, PartialEq, Eq)]
pub struct Enums {
    pub enums: BTreeMap<String, i64>,
    pub logic_batch_method: BTreeMap<String, i64>,
    pub logic_reagent_mode: BTreeMap<String, i64>,
    pub logic_slot_type: BTreeMap<String, i64>,
    pub logic_type: BTreeMap<String, i64>,
}

} // verus!
