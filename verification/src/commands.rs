//! How each backend answers a [`Command`]: which device write it becomes,
//! which capability gates it, and which commands a backend refuses. The
//! writes themselves go through the device crates and are the host's
//! business.

use crate::capabilities::{
    require, Capabilities, READ_BASIC, READ_PORTS, READ_TEMPERATURE, REQUIRES_AUTH,
    SET_CHARGE_LIMIT, TOGGLE_BALANCER, TOGGLE_CHARGE, TOGGLE_DISCHARGE, WRITE_SETTINGS,
};
use crate::error::Error;
use crate::text::{chars_eq, chars_of, push_str, string_from_chars};
use crate::auth::AuthState;
use crate::types::Command;
use vstd::prelude::*;

verus! {

/// The error text for a toggle id a device cannot switch.
pub open spec fn not_controllable_message(id: Seq<char>) -> Seq<char> {
    "'"@ + id + "' is not controllable on this device"@
}

fn not_controllable(id: &str) -> (e: Error)
    ensures
        e matches Error::InvalidArgument(m) && m@ == not_controllable_message(id@),
{
    let mut m: Vec<char> = Vec::new();
    push_str(&mut m, "'");
    push_str(&mut m, id);
    push_str(&mut m, "' is not controllable on this device");
    Error::InvalidArgument(string_from_chars(m.as_slice()))
}

fn is(id: &str, name: &str) -> (r: bool)
    ensures
        r == (id@ == name@),
{
    let a = chars_of(id);
    let b = chars_of(name);
    chars_eq(a.as_slice(), b.as_slice())
}

/// The word a JK setting switch is written with.
pub open spec fn switch_word(on: bool) -> Seq<char> {
    if on {
        "on"@
    } else {
        "off"@
    }
}

/// A named setting write of a JK BMS.
#[derive(Debug, Clone, PartialEq, Eq)]
pub struct SettingWrite {
    pub id: String,
    pub value: String,
    /// Whether the cached settings must be re-read afterwards (everything but
    /// the three main switches lives in the settings frame).
    pub refresh_settings: bool,
}

/// The capability a JK toggle needs: the main switches have their own, any
/// other id is a named setting switch.
pub open spec fn jk_toggle_cap(id: Seq<char>) -> u32 {
    if id == "charging"@ {
        TOGGLE_CHARGE
    } else if id == "discharging"@ {
        TOGGLE_DISCHARGE
    } else if id == "balancer"@ {
        TOGGLE_BALANCER
    } else {
        WRITE_SETTINGS
    }
}

/// A JK toggle of `charging`, `discharging` or `balancer` needs the matching
/// switch capability; a toggle of any other id writes a setting and needs
/// the settings capability.
pub proof fn lemma_jk_toggle_caps(id: Seq<char>)
    ensures
        id == "charging"@ ==> jk_toggle_cap(id) == TOGGLE_CHARGE,
        id == "discharging"@ ==> jk_toggle_cap(id) == TOGGLE_DISCHARGE,
        id == "balancer"@ ==> jk_toggle_cap(id) == TOGGLE_BALANCER,
        !(id == "charging"@ || id == "discharging"@ || id == "balancer"@) ==> jk_toggle_cap(id)
            == WRITE_SETTINGS,
{
    reveal_strlit("charging");
    reveal_strlit("discharging");
    reveal_strlit("balancer");
    assert("charging"@.len() == 8);
    assert("discharging"@.len() == 11);
    assert("balancer"@.len() == 8);
    assert("charging"@[0] != "balancer"@[0]);
}

/// A JK BMS's capabilities.
pub fn jk_capabilities() -> (c: Capabilities)
    ensures
        c.bits == READ_BASIC | crate::capabilities::READ_CELLS | READ_TEMPERATURE
            | crate::capabilities::READ_ALARMS | TOGGLE_CHARGE | TOGGLE_DISCHARGE | TOGGLE_BALANCER
            | WRITE_SETTINGS,
{
    Capabilities {
        bits: READ_BASIC | crate::capabilities::READ_CELLS | READ_TEMPERATURE
            | crate::capabilities::READ_ALARMS | TOGGLE_CHARGE | TOGGLE_DISCHARGE | TOGGLE_BALANCER
            | WRITE_SETTINGS,
    }
}

/// The write a command becomes on a JK BMS with capabilities `caps`: a toggle
/// writes `on`/`off` to its id, a set writes its value; each needs its
/// capability.
pub fn jk_write(caps: Capabilities, cmd: Command) -> (r: Result<SettingWrite, Error>)
    ensures
        match cmd {
            Command::Toggle { id, on } => if caps.has_all(
                Capabilities { bits: jk_toggle_cap(id@) },
            ) {
                r matches Ok(w) && w.id@ == id@ && w.value@ == switch_word(on) && w.refresh_settings
                    == !(id@ == "charging"@ || id@ == "discharging"@ || id@ == "balancer"@)
            } else {
                r == Err::<SettingWrite, Error>(Error::Unsupported)
            },
            Command::SetValue { id, value } => if caps.has_all(
                Capabilities { bits: WRITE_SETTINGS },
            ) {
                r matches Ok(w) && w.id@ == id@ && w.value@ == value@ && w.refresh_settings
            } else {
                r == Err::<SettingWrite, Error>(Error::Unsupported)
            },
        },
{
    match cmd {
        Command::Toggle { id, on } => {
            let main_switch = is(id.as_str(), "charging") || is(id.as_str(), "discharging") || is(
                id.as_str(),
                "balancer",
            );
            let cap = if is(id.as_str(), "charging") {
                TOGGLE_CHARGE
            } else if is(id.as_str(), "discharging") {
                TOGGLE_DISCHARGE
            } else if is(id.as_str(), "balancer") {
                TOGGLE_BALANCER
            } else {
                WRITE_SETTINGS
            };
            match require(caps, Capabilities { bits: cap }) {
                Ok(()) => {},
                Err(e) => {
                    return Err(e);
                },
            }
            let value = if on {
                "on".to_string()
            } else {
                "off".to_string()
            };
            Ok(SettingWrite { id, value, refresh_settings: !main_switch })
        },
        Command::SetValue { id, value } => {
            match require(caps, Capabilities { bits: WRITE_SETTINGS }) {
                Ok(()) => {},
                Err(e) => {
                    return Err(e);
                },
            }
            Ok(SettingWrite { id, value, refresh_settings: true })
        },
    }
}

/// The toggle a port-switching station (Bluetti, Jackery) accepts: any of its
/// port ids; other ids are refused by name and set commands are unsupported.
/// Toggling needs the port capability.
pub fn port_toggle(caps: Capabilities, ports: &[&str], cmd: Command) -> (r: Result<(String, bool), Error>)
    ensures
        match cmd {
            Command::Toggle { id, on } => if !caps.has_all(Capabilities { bits: READ_PORTS }) {
                r == Err::<(String, bool), Error>(Error::Unsupported)
            } else if exists|i: int| 0 <= i < ports@.len() && ports@[i]@ == id@ {
                r matches Ok((i, o)) && i@ == id@ && o == on
            } else {
                r matches Err(Error::InvalidArgument(m)) && m@ == not_controllable_message(id@)
            },
            Command::SetValue { .. } => r == Err::<(String, bool), Error>(Error::Unsupported),
        },
{
    match cmd {
        Command::Toggle { id, on } => {
            match require(caps, Capabilities { bits: READ_PORTS }) {
                Ok(()) => {},
                Err(e) => {
                    return Err(e);
                },
            }
            let mut i: usize = 0;
            while i < ports.len()
                invariant
                    cmd == (Command::Toggle { id, on }),
                    caps.has_all(Capabilities { bits: READ_PORTS }),
                    i <= ports@.len(),
                    forall|j: int| 0 <= j < i ==> ports@[j]@ != id@,
                decreases ports@.len() - i,
            {
                if is(id.as_str(), ports[i]) {
                    return Ok((id, on));
                }
                i = i + 1;
            }
            let e = not_controllable(id.as_str());
            Err(e)
        },
        Command::SetValue { .. } => Err(Error::Unsupported),
    }
}

/// The switch a JBD BMS toggles: only the charge and discharge MOSFETs, each
/// gated by its capability; anything else is unsupported.
pub fn jbd_toggle(caps: Capabilities, cmd: Command) -> (r: Result<(String, bool), Error>)
    ensures
        match cmd {
            Command::Toggle { id, on } => if id@ == "charging"@ || id@ == "discharging"@ {
                let cap = if id@ == "charging"@ {
                    TOGGLE_CHARGE
                } else {
                    TOGGLE_DISCHARGE
                };
                if caps.has_all(Capabilities { bits: cap }) {
                    r matches Ok((i, o)) && i@ == id@ && o == on
                } else {
                    r == Err::<(String, bool), Error>(Error::Unsupported)
                }
            } else {
                r == Err::<(String, bool), Error>(Error::Unsupported)
            },
            Command::SetValue { .. } => r == Err::<(String, bool), Error>(Error::Unsupported),
        },
{
    match cmd {
        Command::Toggle { id, on } => {
            let cap = if is(id.as_str(), "charging") {
                TOGGLE_CHARGE
            } else if is(id.as_str(), "discharging") {
                TOGGLE_DISCHARGE
            } else {
                return Err(Error::Unsupported);
            };
            match require(caps, Capabilities { bits: cap }) {
                Ok(()) => Ok((id, on)),
                Err(e) => Err(e),
            }
        },
        Command::SetValue { .. } => Err(Error::Unsupported),
    }
}

/// A Daly BMS request.
#[derive(Debug, Clone, PartialEq, Eq)]
pub enum DalyAction {
    /// Switch the charge MOSFET.
    Charge(bool),
    /// Switch the discharge MOSFET.
    Discharge(bool),
    /// Calibrate the state of charge to a percentage, given as typed.
    Soc(String),
}

/// What a command becomes on a Daly BMS: the MOSFET toggles (each gated by
/// its capability), a `charge_limit`/`soc` set (a SOC calibration, gated by
/// the charge-limit capability); other toggles are refused by name, other
/// sets are unsupported.
pub fn daly_action(caps: Capabilities, cmd: Command) -> (r: Result<DalyAction, Error>)
    ensures
        match cmd {
            Command::Toggle { id, on } => if id@ == "charging"@ {
                if caps.has_all(Capabilities { bits: TOGGLE_CHARGE }) {
                    r == Ok::<DalyAction, Error>(DalyAction::Charge(on))
                } else {
                    r == Err::<DalyAction, Error>(Error::Unsupported)
                }
            } else if id@ == "discharging"@ {
                if caps.has_all(Capabilities { bits: TOGGLE_DISCHARGE }) {
                    r == Ok::<DalyAction, Error>(DalyAction::Discharge(on))
                } else {
                    r == Err::<DalyAction, Error>(Error::Unsupported)
                }
            } else {
                r matches Err(Error::InvalidArgument(m)) && m@ == not_controllable_message(id@)
            },
            Command::SetValue { id, value } => if id@ == "charge_limit"@ || id@ == "soc"@ {
                if caps.has_all(Capabilities { bits: SET_CHARGE_LIMIT }) {
                    r matches Ok(DalyAction::Soc(v)) && v@ == value@
                } else {
                    r == Err::<DalyAction, Error>(Error::Unsupported)
                }
            } else {
                r == Err::<DalyAction, Error>(Error::Unsupported)
            },
        },
{
    match cmd {
        Command::Toggle { id, on } => {
            if is(id.as_str(), "charging") {
                match require(caps, Capabilities { bits: TOGGLE_CHARGE }) {
                    Ok(()) => Ok(DalyAction::Charge(on)),
                    Err(e) => Err(e),
                }
            } else if is(id.as_str(), "discharging") {
                match require(caps, Capabilities { bits: TOGGLE_DISCHARGE }) {
                    Ok(()) => Ok(DalyAction::Discharge(on)),
                    Err(e) => Err(e),
                }
            } else {
                Err(not_controllable(id.as_str()))
            }
        },
        Command::SetValue { id, value } => {
            if is(id.as_str(), "charge_limit") || is(id.as_str(), "soc") {
                match require(caps, Capabilities { bits: SET_CHARGE_LIMIT }) {
                    Ok(()) => Ok(DalyAction::Soc(value)),
                    Err(e) => Err(e),
                }
            } else {
                Err(Error::Unsupported)
            }
        },
    }
}

/// A Daly BMS's capabilities.
pub fn daly_capabilities() -> (c: Capabilities)
    ensures
        c.bits == READ_BASIC | TOGGLE_CHARGE | TOGGLE_DISCHARGE | SET_CHARGE_LIMIT,
{
    Capabilities { bits: READ_BASIC | TOGGLE_CHARGE | TOGGLE_DISCHARGE | SET_CHARGE_LIMIT }
}

/// The switches of an Anker SOLIX station.
#[derive(Debug, Clone, Copy, PartialEq, Eq, Structural)]
pub enum AnkerSwitch {
    Ac,
    Dc,
    Display,
    Light,
    SmartAc,
    CarSaving,
    PortMemory,
    Screensaver,
}

/// The switch an Anker toggle id names.
pub open spec fn anker_switch_of(id: Seq<char>) -> Option<AnkerSwitch> {
    if id == "ac"@ {
        Some(AnkerSwitch::Ac)
    } else if id == "dc"@ {
        Some(AnkerSwitch::Dc)
    } else if id == "display"@ {
        Some(AnkerSwitch::Display)
    } else if id == "light"@ {
        Some(AnkerSwitch::Light)
    } else if id == "smart_ac"@ {
        Some(AnkerSwitch::SmartAc)
    } else if id == "car_saving"@ {
        Some(AnkerSwitch::CarSaving)
    } else if id == "port_memory"@ {
        Some(AnkerSwitch::PortMemory)
    } else if id == "screensaver"@ {
        Some(AnkerSwitch::Screensaver)
    } else {
        None
    }
}

/// The toggle id of each Anker switch: the AC and DC outputs, the display,
/// the light, smart AC, car-saving, port memory and the screensaver.
pub open spec fn anker_switch_id(s: AnkerSwitch) -> Seq<char> {
    match s {
        AnkerSwitch::Ac => "ac"@,
        AnkerSwitch::Dc => "dc"@,
        AnkerSwitch::Display => "display"@,
        AnkerSwitch::Light => "light"@,
        AnkerSwitch::SmartAc => "smart_ac"@,
        AnkerSwitch::CarSaving => "car_saving"@,
        AnkerSwitch::PortMemory => "port_memory"@,
        AnkerSwitch::Screensaver => "screensaver"@,
    }
}

/// Toggle ids and Anker switches correspond one to one: an id names a switch
/// exactly when it is that switch's id, so distinct ids name distinct
/// switches.
pub proof fn lemma_anker_ids(id: Seq<char>, s: AnkerSwitch)
    ensures
        (anker_switch_of(id) == Some(s)) == (id == anker_switch_id(s)),
{
    reveal_strlit("ac");
    assert("ac"@.len() == 2);
    reveal_strlit("dc");
    assert("dc"@.len() == 2);
    reveal_strlit("display");
    assert("display"@.len() == 7);
    reveal_strlit("light");
    assert("light"@.len() == 5);
    reveal_strlit("smart_ac");
    assert("smart_ac"@.len() == 8);
    reveal_strlit("car_saving");
    assert("car_saving"@.len() == 10);
    reveal_strlit("port_memory");
    assert("port_memory"@.len() == 11);
    reveal_strlit("screensaver");
    assert("screensaver"@.len() == 11);
    assert("ac"@[0] != "dc"@[0]);
    assert("port_memory"@[0] != "screensaver"@[0]);
}

/// The switches that need the binding check are exactly those named by
/// `smart_ac`, `car_saving`, `port_memory` and `screensaver`.
pub proof fn lemma_anker_secure_ids(id: Seq<char>, s: AnkerSwitch)
    requires
        anker_switch_of(id) == Some(s),
    ensures
        s.secure() == (id == "smart_ac"@ || id == "car_saving"@ || id == "port_memory"@ || id
            == "screensaver"@),
{
    lemma_anker_ids(id, s);
    reveal_strlit("ac");
    assert("ac"@.len() == 2);
    reveal_strlit("dc");
    assert("dc"@.len() == 2);
    reveal_strlit("display");
    assert("display"@.len() == 7);
    reveal_strlit("light");
    assert("light"@.len() == 5);
    reveal_strlit("smart_ac");
    assert("smart_ac"@.len() == 8);
    reveal_strlit("car_saving");
    assert("car_saving"@.len() == 10);
    reveal_strlit("port_memory");
    assert("port_memory"@.len() == 11);
    reveal_strlit("screensaver");
    assert("screensaver"@.len() == 11);
    assert("port_memory"@[0] != "screensaver"@[0]);
}

impl AnkerSwitch {
    /// The settings switches write through the secure channel and need the
    /// binding check first.
    pub open spec fn secure(self) -> bool {
        self is SmartAc || self is CarSaving || self is PortMemory || self is Screensaver
    }

    /// Whether toggling this switch needs the binding check first.
    pub fn needs_auth(self) -> (r: bool)
        ensures
            r == self.secure(),
    {
        match self {
            AnkerSwitch::SmartAc | AnkerSwitch::CarSaving | AnkerSwitch::PortMemory
            | AnkerSwitch::Screensaver => true,
            _ => false,
        }
    }
}

/// The Anker switch a toggle id names; other ids are refused by name.
pub fn anker_switch(id: &str) -> (r: Result<AnkerSwitch, Error>)
    ensures
        match anker_switch_of(id@) {
            Some(s) => r == Ok::<AnkerSwitch, Error>(s),
            None => r matches Err(Error::InvalidArgument(m)) && m@ == not_controllable_message(id@),
        },
        forall|s: AnkerSwitch| (r == Ok::<AnkerSwitch, Error>(s)) == (id@ == anker_switch_id(s)),
{
    proof {
        assert forall|s: AnkerSwitch| (anker_switch_of(id@) == Some(s)) == (id@ == anker_switch_id(s)) by {
            lemma_anker_ids(id@, s);
        }
    }
    if is(id, "ac") {
        Ok(AnkerSwitch::Ac)
    } else if is(id, "dc") {
        Ok(AnkerSwitch::Dc)
    } else if is(id, "display") {
        Ok(AnkerSwitch::Display)
    } else if is(id, "light") {
        Ok(AnkerSwitch::Light)
    } else if is(id, "smart_ac") {
        Ok(AnkerSwitch::SmartAc)
    } else if is(id, "car_saving") {
        Ok(AnkerSwitch::CarSaving)
    } else if is(id, "port_memory") {
        Ok(AnkerSwitch::PortMemory)
    } else if is(id, "screensaver") {
        Ok(AnkerSwitch::Screensaver)
    } else {
        Err(not_controllable(id))
    }
}

/// An Anker station's capabilities: reads, settings writes, and on gen-2
/// units (secure channel) the one-time bind.
pub fn anker_capabilities(gen2: bool) -> (c: Capabilities)
    ensures
        c.bits == (READ_BASIC | READ_PORTS | READ_TEMPERATURE | WRITE_SETTINGS) | (if gen2 {
            REQUIRES_AUTH
        } else {
            0
        }),
{
    let base = READ_BASIC | READ_PORTS | READ_TEMPERATURE | WRITE_SETTINGS;
    if gen2 {
        Capabilities { bits: base | REQUIRES_AUTH }
    } else {
        assert(base | 0 == base) by (bit_vector);
        Capabilities { bits: base }
    }
}

/// The credential key of an Anker station's bind user id: `anker:` and the
/// serial, else the model, else `anker`.
pub fn anker_cred_key(serial: Option<&str>, model: Option<&str>) -> (k: String)
    ensures
        k@ == "anker:"@ + (match serial {
            Some(s) => s@,
            None => match model {
                Some(m) => m@,
                None => "anker"@,
            },
        }),
{
    let id: &str = match serial {
        Some(s) => s,
        None => match model {
            Some(m) => m,
            None => "anker",
        },
    };
    let mut k: Vec<char> = Vec::new();
    push_str(&mut k, "anker:");
    push_str(&mut k, id);
    string_from_chars(k.as_slice())
}


/// The next step of an Anker station's bind flow.
#[derive(Debug, Clone, Copy, PartialEq, Eq, Structural)]
pub enum BindStep {
    /// Nothing to bind (not a gen-2 unit, or no secure channel).
    Done,
    /// Ask the station whether the user id is bound.
    AskBinding,
    /// Send the bond (accepted only while the power button is held), then ask
    /// the station again.
    Bond,
    /// Bound: save the user id, mark the session authenticated, start
    /// telemetry.
    Bound,
    /// Still not bound: ask the user to hold the power button and retry.
    Prompt,
}

/// The first step of the bind flow.
pub fn bind_start(gen2: bool, secure: bool) -> (s: BindStep)
    ensures
        s == (if !gen2 || !secure {
            BindStep::Done
        } else {
            BindStep::AskBinding
        }),
{
    if !gen2 || !secure {
        BindStep::Done
    } else {
        BindStep::AskBinding
    }
}

/// The step after the station answered the binding check with `status` (`0` means bound); `bonded`
/// tells whether the bond was already sent in this attempt.
pub fn bind_after_check(status: u8, bonded: bool) -> (s: BindStep)
    ensures
        s == (if status == 0 {
            BindStep::Bound
        } else if !bonded {
            BindStep::Bond
        } else {
            BindStep::Prompt
        }),
{
    if status == 0 {
        BindStep::Bound
    } else if !bonded {
        BindStep::Bond
    } else {
        BindStep::Prompt
    }
}

/// The instruction shown while a station waits for its power button.
pub open spec fn bind_prompt() -> Seq<char> {
    "Press and hold the power button on your Anker for ~3s, then tap Retry."@
}

/// What the caller of the bind flow is told after a final step.
pub fn bind_outcome(step: BindStep) -> (r: Option<AuthState>)
    ensures
        match step {
            BindStep::Done | BindStep::Bound => r == Some(AuthState::Authed),
            BindStep::Prompt => r matches Some(AuthState::PendingApproval { message }) && message@
                == bind_prompt(),
            _ => r is None,
        },
{
    match step {
        BindStep::Done | BindStep::Bound => Some(AuthState::Authed),
        BindStep::Prompt => {
            let m = "Press and hold the power button on your Anker for ~3s, then tap Retry.";
            Some(AuthState::approval(m))
        },
        _ => None,
    }
}

/// Before a settings write: an authenticated session may write; a station
/// without a secure channel never can; otherwise the station must be asked
/// whether the user id is bound (`Ok(true)`).
pub fn settings_check(authed: bool, secure: bool) -> (r: Result<bool, Error>)
    ensures
        if authed {
            r == Ok::<bool, Error>(false)
        } else if !secure {
            r matches Err(Error::Backend(m)) && m@
                == "this Anker model has no secure channel for settings"@
        } else {
            r == Ok::<bool, Error>(true)
        },
{
    if authed {
        Ok(false)
    } else if !secure {
        Err(Error::Backend("this Anker model has no secure channel for settings".to_string()))
    } else {
        Ok(true)
    }
}

/// The station's binding answer before a settings write: bound (`0`) may proceed,
/// anything else must run the bind flow first.
pub fn settings_check_answer(status: u8) -> (r: Result<(), Error>)
    ensures
        if status == 0 {
            r == Ok::<(), Error>(())
        } else {
            r matches Err(Error::Backend(m)) && m@
                == "not bound — run authenticate() and press the power button"@
        },
{
    if status == 0 {
        Ok(())
    } else {
        Err(Error::Backend("not bound — run authenticate() and press the power button".to_string()))
    }
}

} // verus!
