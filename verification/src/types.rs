//! The id-addressed vocabulary shared by every backend: the standard reading
//! and switch ids with their units and labels, device identity, switches,
//! ports directions and control commands.

use crate::text::{chars_eq, chars_of};
use vstd::prelude::*;

verus! {

/// Namespace prefix for temperature probe ids, e.g. `"temp.mosfet"`.
pub const TEMP_PREFIX: &'static str = "temp.";

/// Static identity of a device (does not change between reads).
#[derive(Debug, Clone, Default)]
pub struct DeviceInfo {
    /// Backend/protocol name, e.g. `"anker"`, `"jk"`, `"pylontech-can"`.
    pub backend: String,
    pub manufacturer: Option<String>,
    pub model: Option<String>,
    pub serial: Option<String>,
    pub firmware: Option<String>,
    pub hardware: Option<String>,
}

/// The standard, cross-backend reading ids.
#[derive(Debug, Clone, Copy, PartialEq, Eq, Hash, Structural)]
pub enum Reading {
    Soc,
    Soh,
    Voltage,
    Current,
    PowerIn,
    PowerOut,
    TimeRemainingH,
    CapacityRemainingAh,
    CapacityFullAh,
    Cycles,
    ChargeCurrentLimitA,
    DischargeCurrentLimitA,
    SocLimitMax,
    SocLimitMin,
}

/// The physical unit of a reading (also used by numeric settings).
#[derive(Debug, Clone, Copy, PartialEq, Eq, Structural)]
pub enum Unit {
    Percent,
    Volt,
    Amp,
    Watt,
    Celsius,
    AmpHour,
    Hour,
    Second,
    Count,
}

/// Error returned when parsing an unknown standard id.
#[derive(Debug, Clone, Copy, PartialEq, Eq, Structural)]
pub struct UnknownId;

/// The canonical id of a reading.
pub open spec fn reading_id(r: Reading) -> Seq<char> {
    match r {
        Reading::Soc => "soc"@,
        Reading::Soh => "soh"@,
        Reading::Voltage => "voltage"@,
        Reading::Current => "current"@,
        Reading::PowerIn => "power_in"@,
        Reading::PowerOut => "power_out"@,
        Reading::TimeRemainingH => "time_remaining_h"@,
        Reading::CapacityRemainingAh => "capacity_remaining_ah"@,
        Reading::CapacityFullAh => "capacity_full_ah"@,
        Reading::Cycles => "cycles"@,
        Reading::ChargeCurrentLimitA => "charge_current_limit_a"@,
        Reading::DischargeCurrentLimitA => "discharge_current_limit_a"@,
        Reading::SocLimitMax => "soc_limit_max"@,
        Reading::SocLimitMin => "soc_limit_min"@,
    }
}

/// The unit a reading is conventionally expressed in.
pub open spec fn reading_unit(r: Reading) -> Unit {
    match r {
        Reading::Soc | Reading::Soh | Reading::SocLimitMax | Reading::SocLimitMin => Unit::Percent,
        Reading::Voltage => Unit::Volt,
        Reading::Current | Reading::ChargeCurrentLimitA | Reading::DischargeCurrentLimitA => {
            Unit::Amp
        },
        Reading::PowerIn | Reading::PowerOut => Unit::Watt,
        Reading::TimeRemainingH => Unit::Hour,
        Reading::CapacityRemainingAh | Reading::CapacityFullAh => Unit::AmpHour,
        Reading::Cycles => Unit::Count,
    }
}

/// The display label of a reading.
pub open spec fn reading_label(r: Reading) -> Seq<char> {
    match r {
        Reading::Soc => "SOC"@,
        Reading::Soh => "SOH"@,
        Reading::Voltage => "Voltage"@,
        Reading::Current => "Current"@,
        Reading::PowerIn => "Power in"@,
        Reading::PowerOut => "Power out"@,
        Reading::TimeRemainingH => "Time remaining"@,
        Reading::CapacityRemainingAh => "Capacity remaining"@,
        Reading::CapacityFullAh => "Capacity full"@,
        Reading::Cycles => "Cycles"@,
        Reading::ChargeCurrentLimitA => "Charge current limit"@,
        Reading::DischargeCurrentLimitA => "Discharge current limit"@,
        Reading::SocLimitMax => "Charge limit"@,
        Reading::SocLimitMin => "Discharge floor"@,
    }
}

/// The reading whose id is `s`, if any.
pub open spec fn reading_of_id(s: Seq<char>) -> Option<Reading> {
    if exists|r: Reading| reading_id(r) == s {
        Some(choose|r: Reading| reading_id(r) == s)
    } else {
        None
    }
}

impl Reading {
    /// Canonical id string, e.g. `"soc"`.
    pub fn id(self) -> (s: &'static str)
        ensures
            s@ == reading_id(self),
    {
        match self {
            Reading::Soc => "soc",
            Reading::Soh => "soh",
            Reading::Voltage => "voltage",
            Reading::Current => "current",
            Reading::PowerIn => "power_in",
            Reading::PowerOut => "power_out",
            Reading::TimeRemainingH => "time_remaining_h",
            Reading::CapacityRemainingAh => "capacity_remaining_ah",
            Reading::CapacityFullAh => "capacity_full_ah",
            Reading::Cycles => "cycles",
            Reading::ChargeCurrentLimitA => "charge_current_limit_a",
            Reading::DischargeCurrentLimitA => "discharge_current_limit_a",
            Reading::SocLimitMax => "soc_limit_max",
            Reading::SocLimitMin => "soc_limit_min",
        }
    }

    /// The unit this reading is conventionally expressed in.
    pub fn unit(self) -> (u: Unit)
        ensures
            u == reading_unit(self),
    {
        match self {
            Reading::Soc | Reading::Soh | Reading::SocLimitMax | Reading::SocLimitMin => {
                Unit::Percent
            },
            Reading::Voltage => Unit::Volt,
            Reading::Current | Reading::ChargeCurrentLimitA | Reading::DischargeCurrentLimitA => {
                Unit::Amp
            },
            Reading::PowerIn | Reading::PowerOut => Unit::Watt,
            Reading::TimeRemainingH => Unit::Hour,
            Reading::CapacityRemainingAh | Reading::CapacityFullAh => Unit::AmpHour,
            Reading::Cycles => Unit::Count,
        }
    }

    /// A human display label, e.g. `"SOC"`, `"Power in"`.
    pub fn label(self) -> (s: &'static str)
        ensures
            s@ == reading_label(self),
    {
        match self {
            Reading::Soc => "SOC",
            Reading::Soh => "SOH",
            Reading::Voltage => "Voltage",
            Reading::Current => "Current",
            Reading::PowerIn => "Power in",
            Reading::PowerOut => "Power out",
            Reading::TimeRemainingH => "Time remaining",
            Reading::CapacityRemainingAh => "Capacity remaining",
            Reading::CapacityFullAh => "Capacity full",
            Reading::Cycles => "Cycles",
            Reading::ChargeCurrentLimitA => "Charge current limit",
            Reading::DischargeCurrentLimitA => "Discharge current limit",
            Reading::SocLimitMax => "Charge limit",
            Reading::SocLimitMin => "Discharge floor",
        }
    }

    /// Every standard reading, in declaration order.
    pub fn all() -> (v: Vec<Reading>)
        ensures
            v.len() == 14,
            forall|r: Reading| #[trigger] v@.contains(r),
    {
        let v = vec![
            Reading::Soc,
            Reading::Soh,
            Reading::Voltage,
            Reading::Current,
            Reading::PowerIn,
            Reading::PowerOut,
            Reading::TimeRemainingH,
            Reading::CapacityRemainingAh,
            Reading::CapacityFullAh,
            Reading::Cycles,
            Reading::ChargeCurrentLimitA,
            Reading::DischargeCurrentLimitA,
            Reading::SocLimitMax,
            Reading::SocLimitMin,
        ];
        assert forall|r: Reading| #[trigger] v@.contains(r) by {
            match r {
                Reading::Soc => assert(v@[0] == r),
                Reading::Soh => assert(v@[1] == r),
                Reading::Voltage => assert(v@[2] == r),
                Reading::Current => assert(v@[3] == r),
                Reading::PowerIn => assert(v@[4] == r),
                Reading::PowerOut => assert(v@[5] == r),
                Reading::TimeRemainingH => assert(v@[6] == r),
                Reading::CapacityRemainingAh => assert(v@[7] == r),
                Reading::CapacityFullAh => assert(v@[8] == r),
                Reading::Cycles => assert(v@[9] == r),
                Reading::ChargeCurrentLimitA => assert(v@[10] == r),
                Reading::DischargeCurrentLimitA => assert(v@[11] == r),
                Reading::SocLimitMax => assert(v@[12] == r),
                Reading::SocLimitMin => assert(v@[13] == r),
            }
        }
        v
    }

    /// The reading whose canonical id is `s`.
    pub fn parse_id(s: &str) -> (r: Result<Reading, UnknownId>)
        ensures
            match r {
                Ok(x) => reading_id(x) == s@,
                Err(_) => forall|x: Reading| reading_id(x) != s@,
            },
    {
        let all = Reading::all();
        let target = chars_of(s);
        let mut i: usize = 0;
        while i < all.len()
            invariant
                i <= all.len(),
                target@ == s@,
                forall|j: int| 0 <= j < i ==> reading_id(#[trigger] all@[j]) != s@,
            decreases all.len() - i,
        {
            let id = chars_of(all[i].id());
            if chars_eq(id.as_slice(), target.as_slice()) {
                return Ok(all[i]);
            }
            i = i + 1;
        }
        assert forall|x: Reading| reading_id(x) != s@ by {
            assert(all@.contains(x));
        }
        Err(UnknownId)
    }

    /// The canonical id as an owned string.
    pub fn to_string(&self) -> (s: String)
        ensures
            s@ == reading_id(*self),
    {
        self.id().to_owned()
    }
}

impl core::str::FromStr for Reading {
    type Err = UnknownId;

    fn from_str(s: &str) -> (r: Result<Self, Self::Err>)
        ensures
            match r {
                Ok(x) => reading_id(x) == s@,
                Err(_) => forall|x: Reading| reading_id(x) != s@,
            },
    {
        Reading::parse_id(s)
    }
}

/// The standard writable-boolean (switch) ids.
#[derive(Debug, Clone, Copy, PartialEq, Eq, Hash, Structural)]
pub enum SwitchId {
    Charging,
    Discharging,
    Balancer,
    Heater,
    Precharge,
}

pub open spec fn switch_id(w: SwitchId) -> Seq<char> {
    match w {
        SwitchId::Charging => "charging"@,
        SwitchId::Discharging => "discharging"@,
        SwitchId::Balancer => "balancer"@,
        SwitchId::Heater => "heater"@,
        SwitchId::Precharge => "precharge"@,
    }
}

pub open spec fn switch_label(w: SwitchId) -> Seq<char> {
    match w {
        SwitchId::Charging => "Charging"@,
        SwitchId::Discharging => "Discharging"@,
        SwitchId::Balancer => "Balancer"@,
        SwitchId::Heater => "Heater"@,
        SwitchId::Precharge => "Precharge"@,
    }
}

impl SwitchId {
    /// Canonical id string, e.g. `"charging"`.
    pub fn id(self) -> (s: &'static str)
        ensures
            s@ == switch_id(self),
    {
        match self {
            SwitchId::Charging => "charging",
            SwitchId::Discharging => "discharging",
            SwitchId::Balancer => "balancer",
            SwitchId::Heater => "heater",
            SwitchId::Precharge => "precharge",
        }
    }

    /// A human display label, e.g. `"Charging"`.
    pub fn label(self) -> (s: &'static str)
        ensures
            s@ == switch_label(self),
    {
        match self {
            SwitchId::Charging => "Charging",
            SwitchId::Discharging => "Discharging",
            SwitchId::Balancer => "Balancer",
            SwitchId::Heater => "Heater",
            SwitchId::Precharge => "Precharge",
        }
    }

    /// Every standard switch, in declaration order.
    pub fn all() -> (v: Vec<SwitchId>)
        ensures
            v.len() == 5,
            forall|w: SwitchId| #[trigger] v@.contains(w),
    {
        let v = vec![
            SwitchId::Charging,
            SwitchId::Discharging,
            SwitchId::Balancer,
            SwitchId::Heater,
            SwitchId::Precharge,
        ];
        assert forall|w: SwitchId| #[trigger] v@.contains(w) by {
            match w {
                SwitchId::Charging => assert(v@[0] == w),
                SwitchId::Discharging => assert(v@[1] == w),
                SwitchId::Balancer => assert(v@[2] == w),
                SwitchId::Heater => assert(v@[3] == w),
                SwitchId::Precharge => assert(v@[4] == w),
            }
        }
        v
    }

    /// The switch whose canonical id is `s`.
    pub fn parse_id(s: &str) -> (r: Result<SwitchId, UnknownId>)
        ensures
            match r {
                Ok(x) => switch_id(x) == s@,
                Err(_) => forall|x: SwitchId| switch_id(x) != s@,
            },
    {
        let all = SwitchId::all();
        let target = chars_of(s);
        let mut i: usize = 0;
        while i < all.len()
            invariant
                i <= all.len(),
                target@ == s@,
                forall|j: int| 0 <= j < i ==> switch_id(#[trigger] all@[j]) != s@,
            decreases all.len() - i,
        {
            let id = chars_of(all[i].id());
            if chars_eq(id.as_slice(), target.as_slice()) {
                return Ok(all[i]);
            }
            i = i + 1;
        }
        assert forall|x: SwitchId| switch_id(x) != s@ by {
            assert(all@.contains(x));
        }
        Err(UnknownId)
    }

    /// The canonical id as an owned string.
    pub fn to_string(&self) -> (s: String)
        ensures
            s@ == switch_id(*self),
    {
        self.id().to_owned()
    }
}

impl core::str::FromStr for SwitchId {
    type Err = UnknownId;

    fn from_str(s: &str) -> (r: Result<Self, Self::Err>)
        ensures
            match r {
                Ok(x) => switch_id(x) == s@,
                Err(_) => forall|x: SwitchId| switch_id(x) != s@,
            },
    {
        SwitchId::parse_id(s)
    }
}

pub open spec fn unit_symbol(u: Unit) -> Seq<char> {
    match u {
        Unit::Percent => "%"@,
        Unit::Volt => "V"@,
        Unit::Amp => "A"@,
        Unit::Watt => "W"@,
        Unit::Celsius => "°C"@,
        Unit::AmpHour => "Ah"@,
        Unit::Hour => "h"@,
        Unit::Second => "s"@,
        Unit::Count => ""@,
    }
}

impl Unit {
    /// A short display symbol, e.g. `"V"`, `"°C"`.
    pub fn symbol(self) -> (s: &'static str)
        ensures
            s@ == unit_symbol(self),
    {
        match self {
            Unit::Percent => "%",
            Unit::Volt => "V",
            Unit::Amp => "A",
            Unit::Watt => "W",
            Unit::Celsius => "°C",
            Unit::AmpHour => "Ah",
            Unit::Hour => "h",
            Unit::Second => "s",
            Unit::Count => "",
        }
    }
}

/// Direction of power flow through a port.
#[derive(Debug, Clone, Copy, PartialEq, Eq, Structural)]
pub enum PortDirection {
    /// Power flows into the battery (e.g. solar / AC charging input).
    In,
    /// Power flows out of the battery (e.g. AC/DC/USB output).
    Out,
    /// Port can source or sink (e.g. USB-C PD).
    Bidir,
}

/// A named writable boolean on a device.
#[derive(Debug, Clone, PartialEq)]
pub struct Switch {
    /// Stable id, e.g. `"charging"`, `"heater"`, `"balancer"`.
    pub id: String,
    pub label: Option<String>,
    pub on: bool,
}

/// A control command, addressed by a free-form id.
#[derive(Debug, Clone, PartialEq)]
pub enum Command {
    /// Turn a port or switch on/off by id, e.g. `"ac"`, `"charging"`.
    Toggle { id: String, on: bool },
    /// Set a named non-boolean value, e.g. `"charge_limit"` = `"80"`.
    SetValue { id: String, value: String },
}


/// No two standard readings share an id, so a reading's id parses back to
/// exactly that reading (`to_string()` / `parse()` round-trip).
pub proof fn lemma_reading_id_roundtrip(r: Reading)
    ensures
        forall|x: Reading| reading_id(x) == reading_id(r) ==> x == r,
        reading_of_id(reading_id(r)) == Some(r),
{
    reveal_strlit("soc");
    reveal_strlit("soh");
    reveal_strlit("voltage");
    reveal_strlit("current");
    reveal_strlit("power_in");
    reveal_strlit("power_out");
    reveal_strlit("time_remaining_h");
    reveal_strlit("capacity_remaining_ah");
    reveal_strlit("capacity_full_ah");
    reveal_strlit("cycles");
    reveal_strlit("charge_current_limit_a");
    reveal_strlit("discharge_current_limit_a");
    reveal_strlit("soc_limit_max");
    reveal_strlit("soc_limit_min");
    assert forall|x: Reading| reading_id(x) == reading_id(r) implies x == r by {
        if x != r {
            let a = reading_id(x);
            let b = reading_id(r);
            if a.len() == b.len() {
                if a[0] != b[0] {
                } else if a[1] != b[1] {
                } else if a[2] != b[2] {
                } else if a.len() > 10 && a[10] != b[10] {
                } else {
                    assert(a[a.len() - 1] != b[b.len() - 1]);
                }
            }
        }
    }
}

/// No two standard switches share an id, so a switch's id parses back to
/// exactly that switch.
pub proof fn lemma_switch_id_roundtrip(w: SwitchId)
    ensures
        forall|x: SwitchId| switch_id(x) == switch_id(w) ==> x == w,
{
    reveal_strlit("charging");
    reveal_strlit("discharging");
    reveal_strlit("balancer");
    reveal_strlit("heater");
    reveal_strlit("precharge");
    assert forall|x: SwitchId| switch_id(x) == switch_id(w) implies x == w by {
        if x != w {
            let a = switch_id(x);
            let b = switch_id(w);
            if a.len() == b.len() {
                assert(a[0] != b[0]);
            }
        }
    }
}

} // verus!
