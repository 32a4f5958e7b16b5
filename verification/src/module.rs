//! The cell-monitor module descriptor of the JK transports.

use vstd::prelude::*;

verus! {

/// Module type of a cell monitor.
pub const MYBMM_MODTYPE_CELLMON: i32 = 1;

/// Capability bits a module advertises.
pub const MYBMM_CHARGE_CONTROL: u16 = 0x01;

pub const MYBMM_DISCHARGE_CONTROL: u16 = 0x02;

pub const MYBMM_BALANCE_CONTROL: u16 = 0x04;

/// A module descriptor: its type, name and capability bits.
#[derive(Clone, Debug)]
pub struct MybmmModule {
    pub module_type: i32,
    pub name: &'static str,
    pub capabilities: u16,
}

impl MybmmModule {
    /// A cell-monitor module.
    pub fn new(name: &'static str, capabilities: u16) -> (m: Self)
        ensures
            m.module_type == MYBMM_MODTYPE_CELLMON,
            m.name == name,
            m.capabilities == capabilities,
    {
        MybmmModule { module_type: MYBMM_MODTYPE_CELLMON, name, capabilities }
    }

    /// A module of any type.
    pub fn with_type(module_type: i32, name: &'static str, capabilities: u16) -> (m: Self)
        ensures
            m.module_type == module_type,
            m.name == name,
            m.capabilities == capabilities,
    {
        MybmmModule { module_type, name, capabilities }
    }
}

} // verus!
