//! What a backend can do. Read capabilities describe which parts of a status
//! snapshot are populated; control capabilities gate commands.

use crate::error::Error;
use vstd::prelude::*;

verus! {

/// A set of capability flags, one bit each.
#[derive(Debug, Clone, Copy, PartialEq, Eq, Structural)]
pub struct Capabilities {
    pub bits: u32,
}

/// Reports SOC / voltage / current basics.
pub const READ_BASIC: u32 = 1u32 << 0u32;

/// Reports per-cell voltages.
pub const READ_CELLS: u32 = 1u32 << 1u32;

/// Reports output port states/power.
pub const READ_PORTS: u32 = 1u32 << 2u32;

/// Reports temperature.
pub const READ_TEMPERATURE: u32 = 1u32 << 3u32;

/// Reports BMS charge/discharge current limits.
pub const READ_LIMITS: u32 = 1u32 << 4u32;

/// Reports alarm/warning flags.
pub const READ_ALARMS: u32 = 1u32 << 5u32;

/// Can toggle the charge MOSFET.
pub const TOGGLE_CHARGE: u32 = 1u32 << 17u32;

/// Can toggle the discharge MOSFET.
pub const TOGGLE_DISCHARGE: u32 = 1u32 << 18u32;

/// Can toggle the balancer.
pub const TOGGLE_BALANCER: u32 = 1u32 << 19u32;

/// Can set a charge-limit percentage.
pub const SET_CHARGE_LIMIT: u32 = 1u32 << 20u32;

/// Can write named settings.
pub const WRITE_SETTINGS: u32 = 1u32 << 21u32;

/// Requires an authentication / binding step before control works.
pub const REQUIRES_AUTH: u32 = 1u32 << 22u32;

/// The control flags: any of them makes a backend controllable.
pub const CONTROL_MASK: u32 = 0x003E_0000u32;

/// Every defined flag.
pub const ALL_FLAGS: u32 = 0x007E_003Fu32;

impl Capabilities {
    /// The empty set.
    pub fn empty() -> (c: Capabilities)
        ensures
            c.bits == 0,
    {
        Capabilities { bits: 0 }
    }

    /// The set holding exactly the given flags (unknown bits are dropped).
    pub fn from_bits_truncate(bits: u32) -> (c: Capabilities)
        ensures
            c.bits == bits & ALL_FLAGS,
    {
        Capabilities { bits: bits & ALL_FLAGS }
    }

    /// Every flag of `other` is in `self`.
    pub open spec fn has_all(self, other: Capabilities) -> bool {
        self.bits & other.bits == other.bits
    }

    /// `self` and `other` share a flag.
    pub open spec fn shares(self, other: Capabilities) -> bool {
        self.bits & other.bits != 0
    }

    pub fn contains(&self, other: Capabilities) -> (r: bool)
        ensures
            r == self.has_all(other),
    {
        self.bits & other.bits == other.bits
    }

    pub fn intersects(&self, other: Capabilities) -> (r: bool)
        ensures
            r == self.shares(other),
    {
        self.bits & other.bits != 0
    }

    /// The union of two sets.
    pub fn union(self, other: Capabilities) -> (c: Capabilities)
        ensures
            c.bits == self.bits | other.bits,
    {
        Capabilities { bits: self.bits | other.bits }
    }

    /// True if this backend supports any control command (i.e. is not
    /// read-only).
    pub fn is_controllable(&self) -> (r: bool)
        ensures
            r == (self.bits & CONTROL_MASK != 0),
    {
        assert(TOGGLE_CHARGE | TOGGLE_DISCHARGE | TOGGLE_BALANCER | SET_CHARGE_LIMIT
            | WRITE_SETTINGS == CONTROL_MASK) by (bit_vector);
        self.intersects(
            Capabilities {
                bits: TOGGLE_CHARGE | TOGGLE_DISCHARGE | TOGGLE_BALANCER | SET_CHARGE_LIMIT
                    | WRITE_SETTINGS,
            },
        )
    }
}

/// Assert a capability is present before acting on a command.
pub fn require(caps: Capabilities, needed: Capabilities) -> (r: Result<(), Error>)
    ensures
        match r {
            Ok(()) => caps.has_all(needed),
            Err(e) => !caps.has_all(needed) && e == Error::Unsupported,
        },
{
    if caps.contains(needed) {
        Ok(())
    } else {
        Err(Error::Unsupported)
    }
}

} // verus!
