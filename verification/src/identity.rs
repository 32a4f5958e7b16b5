//! Filling a device's static identity from what it reports: the standard BLE
//! Device Information strings and what its telemetry protocol carries. A
//! field once known is never overwritten.

use crate::text::opt_text;
use crate::types::DeviceInfo;
use vstd::prelude::*;

verus! {

/// The identity strings a device reports (the BLE Device Information
/// Service, plus its advertised name).
#[derive(Debug, Clone, Default)]
pub struct Identity {
    pub name: Option<String>,
    pub manufacturer: Option<String>,
    pub model: Option<String>,
    pub serial: Option<String>,
    pub firmware: Option<String>,
    pub hardware: Option<String>,
}

/// A known field stays; an unknown one takes `v`.
pub open spec fn keep_or(field: Option<String>, v: Option<Seq<char>>) -> Option<Seq<char>> {
    if field is Some {
        opt_text(field)
    } else {
        v
    }
}

/// The first known of three.
pub open spec fn first_known(
    a: Option<Seq<char>>,
    b: Option<Seq<char>>,
    c: Option<Seq<char>>,
) -> Option<Seq<char>> {
    if a is Some {
        a
    } else if b is Some {
        b
    } else {
        c
    }
}

fn copy_opt(o: &Option<String>) -> (r: Option<String>)
    ensures
        opt_text(r) == opt_text(*o),
{
    match o {
        Some(s) => Some(s.clone()),
        None => None,
    }
}

/// Fill a SOK pack's identity: manufacturer, firmware and hardware from the
/// Device Information strings; the model from the protocol's model, else the
/// advertised name, else the Device Information model, else `SOK` (the BLE
/// module's model is the poorest label); the serial from the Device
/// Information serial, else the protocol's.
pub fn fill_sok_info(info: &mut DeviceInfo, id: &Identity, model: &Option<String>, serial: &Option<String>)
    ensures
        final(info).backend@ == old(info).backend@,
        opt_text(final(info).manufacturer) == keep_or(old(info).manufacturer, opt_text(id.manufacturer)),
        opt_text(final(info).model) == keep_or(
            old(info).model,
            Some(
                first_known(opt_text(*model), opt_text(id.name), opt_text(id.model)).unwrap_or(
                    "SOK"@,
                ),
            ),
        ),
        opt_text(final(info).serial) == keep_or(
            old(info).serial,
            if id.serial is Some {
                opt_text(id.serial)
            } else {
                opt_text(*serial)
            },
        ),
        opt_text(final(info).firmware) == keep_or(old(info).firmware, opt_text(id.firmware)),
        opt_text(final(info).hardware) == keep_or(old(info).hardware, opt_text(id.hardware)),
{
    if info.manufacturer.is_none() {
        info.manufacturer = copy_opt(&id.manufacturer);
    }
    if info.model.is_none() {
        info.model = if model.is_some() {
            copy_opt(model)
        } else if id.name.is_some() {
            copy_opt(&id.name)
        } else if id.model.is_some() {
            copy_opt(&id.model)
        } else {
            Some("SOK".to_string())
        };
    }
    if info.serial.is_none() {
        info.serial = if id.serial.is_some() {
            copy_opt(&id.serial)
        } else {
            copy_opt(serial)
        };
    }
    if info.firmware.is_none() {
        info.firmware = copy_opt(&id.firmware);
    }
    if info.hardware.is_none() {
        info.hardware = copy_opt(&id.hardware);
    }
}

/// Fill a JBD pack's identity: manufacturer, serial, firmware and hardware
/// from the Device Information strings; the model from the advertised name,
/// else the protocol's cell-count model unless that is the bare `JBD`.
pub fn fill_jbd_info(info: &mut DeviceInfo, id: &Identity, protocol_model: &str)
    ensures
        final(info).backend@ == old(info).backend@,
        opt_text(final(info).manufacturer) == keep_or(old(info).manufacturer, opt_text(id.manufacturer)),
        opt_text(final(info).serial) == keep_or(old(info).serial, opt_text(id.serial)),
        opt_text(final(info).firmware) == keep_or(old(info).firmware, opt_text(id.firmware)),
        opt_text(final(info).hardware) == keep_or(old(info).hardware, opt_text(id.hardware)),
        opt_text(final(info).model) == keep_or(
            old(info).model,
            if id.name is Some {
                opt_text(id.name)
            } else if protocol_model@ != "JBD"@ {
                Some(protocol_model@)
            } else {
                None
            },
        ),
{
    if info.manufacturer.is_none() {
        info.manufacturer = copy_opt(&id.manufacturer);
    }
    if info.serial.is_none() {
        info.serial = copy_opt(&id.serial);
    }
    if info.firmware.is_none() {
        info.firmware = copy_opt(&id.firmware);
    }
    if info.hardware.is_none() {
        info.hardware = copy_opt(&id.hardware);
    }
    if info.model.is_none() {
        info.model = if id.name.is_some() {
            copy_opt(&id.name)
        } else {
            let m = crate::text::chars_of(protocol_model);
            let jbd = crate::text::chars_of("JBD");
            if crate::text::chars_eq(m.as_slice(), jbd.as_slice()) {
                None
            } else {
                Some(protocol_model.to_string())
            }
        };
    }
}

} // verus!
