//! Decoder for the **Pylontech CAN** protocol (500 kbps), the de-facto
//! standard spoken by EG4, SOK and a long tail of "Pylontech-compatible" rack
//! batteries when talking to an inverter.
//!
//! This is battery→inverter telemetry, so it is read-only: state of charge,
//! voltage/current/temperature and the BMS's recommended charge/discharge
//! limits and alarm flags.
//!
//! [`PylontechState`] is pure and transport-agnostic: feed it raw CAN frames
//! keyed by their 11-bit id. It keeps every quantity as the raw integer the
//! frame carried; the scale of each is given on its field.

use crate::sok::ee::{i16_le, le16, u16_le};
use vstd::prelude::*;

verus! {

/// Accumulates the periodic Pylontech CAN frames into a coherent snapshot.
#[derive(Debug, Clone)]
pub struct PylontechState {
    /// State of charge, whole %.
    pub soc: Option<u16>,
    /// State of health, whole %.
    pub soh: Option<u16>,
    /// Pack voltage, 0.01 V.
    pub voltage: Option<i16>,
    /// Pack current, 0.1 A (+ charging / - discharging).
    pub current: Option<i16>,
    /// Temperature, 0.1 °C.
    pub temperature: Option<i16>,
    /// Charge voltage limit, 0.1 V.
    pub charge_voltage_limit: Option<u16>,
    /// Discharge voltage limit, 0.1 V.
    pub discharge_voltage_limit: Option<u16>,
    /// Charge current limit, 0.1 A.
    pub charge_current_limit: Option<i16>,
    /// Discharge current limit, 0.1 A.
    pub discharge_current_limit: Option<i16>,
    pub charge_enabled: Option<bool>,
    pub discharge_enabled: Option<bool>,
    /// Active protection and warning flags, as text.
    pub alarms: Vec<String>,
}

/// The content of a [`PylontechState`].
pub struct PylontechModel {
    pub soc: Option<u16>,
    pub soh: Option<u16>,
    pub voltage: Option<i16>,
    pub current: Option<i16>,
    pub temperature: Option<i16>,
    pub charge_voltage_limit: Option<u16>,
    pub discharge_voltage_limit: Option<u16>,
    pub charge_current_limit: Option<i16>,
    pub discharge_current_limit: Option<i16>,
    pub charge_enabled: Option<bool>,
    pub discharge_enabled: Option<bool>,
    pub alarms: Seq<Seq<char>>,
}

/// The texts of a list of strings.
pub open spec fn texts(v: Seq<String>) -> Seq<Seq<char>> {
    v.map_values(|s: String| s@)
}

impl View for PylontechState {
    type V = PylontechModel;

    open spec fn view(&self) -> PylontechModel {
        PylontechModel {
            soc: self.soc,
            soh: self.soh,
            voltage: self.voltage,
            current: self.current,
            temperature: self.temperature,
            charge_voltage_limit: self.charge_voltage_limit,
            discharge_voltage_limit: self.discharge_voltage_limit,
            charge_current_limit: self.charge_current_limit,
            discharge_current_limit: self.discharge_current_limit,
            charge_enabled: self.charge_enabled,
            discharge_enabled: self.discharge_enabled,
            alarms: texts(self.alarms@),
        }
    }
}

/// A little-endian `u16` at `i`.
pub open spec fn u16_at(d: Seq<u8>, i: int) -> u16 {
    le16(d, i) as u16
}

/// A little-endian two's-complement `i16` at `i`.
pub open spec fn i16_at(d: Seq<u8>, i: int) -> i16 {
    (if le16(d, i) >= 0x8000 {
        le16(d, i) - 0x10000
    } else {
        le16(d, i)
    }) as i16
}

/// One flag: the alarm text when the masked bit is set.
pub open spec fn flag(byte: u8, mask: u8, text: Seq<char>) -> Seq<Seq<char>> {
    if byte & mask != 0 {
        seq![text]
    } else {
        Seq::empty()
    }
}

/// The alarms of a 0x359 frame: protection flags from byte 0 (bits 1 to 7),
/// then, when there is a byte 1, warning flags from it (bits 1, 2, 5, 7).
pub open spec fn alarms_of(d: Seq<u8>) -> Seq<Seq<char>> {
    let p = d[0];
    let protections = flag(p, 0x02, "protection: cell over-voltage"@) + flag(
        p,
        0x04,
        "protection: cell under-voltage"@,
    ) + flag(p, 0x08, "protection: pack over-voltage"@) + flag(
        p,
        0x10,
        "protection: pack under-voltage"@,
    ) + flag(p, 0x20, "protection: charge over-current"@) + flag(
        p,
        0x40,
        "protection: discharge over-current"@,
    ) + flag(p, 0x80, "protection: over-temperature"@);
    if d.len() >= 2 {
        let w = d[1];
        protections + flag(w, 0x02, "warning: cell high-voltage"@) + flag(
            w,
            0x04,
            "warning: cell low-voltage"@,
        ) + flag(w, 0x20, "warning: high current"@) + flag(w, 0x80, "warning: high temperature"@)
    } else {
        protections
    }
}

/// What one frame does to the state. Unknown ids and short frames change
/// nothing.
pub open spec fn fed(s: PylontechModel, id: u32, d: Seq<u8>) -> PylontechModel {
    if id == 0x351 && d.len() >= 8 {
        PylontechModel {
            charge_voltage_limit: Some(u16_at(d, 0)),
            charge_current_limit: Some(i16_at(d, 2)),
            discharge_current_limit: Some(i16_at(d, 4)),
            discharge_voltage_limit: Some(u16_at(d, 6)),
            ..s
        }
    } else if id == 0x355 && d.len() >= 4 {
        PylontechModel { soc: Some(u16_at(d, 0)), soh: Some(u16_at(d, 2)), ..s }
    } else if id == 0x356 && d.len() >= 6 {
        PylontechModel {
            voltage: Some(i16_at(d, 0)),
            current: Some(i16_at(d, 2)),
            temperature: Some(i16_at(d, 4)),
            ..s
        }
    } else if id == 0x359 && d.len() >= 4 {
        PylontechModel { alarms: alarms_of(d), ..s }
    } else if id == 0x35C && d.len() >= 1 {
        PylontechModel {
            charge_enabled: Some(d[0] & 0x80 != 0),
            discharge_enabled: Some(d[0] & 0x40 != 0),
            ..s
        }
    } else {
        s
    }
}

/// A frame that [`PylontechState::feed`] acts on.
pub open spec fn known_frame(id: u32, len: nat) -> bool {
    ||| id == 0x351 && len >= 8
    ||| id == 0x355 && len >= 4
    ||| id == 0x356 && len >= 6
    ||| id == 0x359 && len >= 4
    ||| id == 0x35C && len >= 1
}

fn push_flag(out: &mut Vec<String>, byte: u8, mask: u8, text: &str)
    ensures
        texts(final(out)@) == texts(old(out)@) + flag(byte, mask, text@),
{
    if byte & mask != 0 {
        let ghost before = out@;
        out.push(text.to_string());
        assert(texts(out@) == texts(before).push(text@));
    } else {
        assert(texts(out@) == texts(out@) + Seq::<Seq<char>>::empty());
    }
}

/// Decode the 0x359 protection/warning bits into human-readable strings.
pub fn decode_alarms(d: &[u8]) -> (out: Vec<String>)
    requires
        d.len() >= 1,
    ensures
        texts(out@) == alarms_of(d@),
{
    let mut out: Vec<String> = Vec::new();
    let p = d[0];
    push_flag(&mut out, p, 0x02, "protection: cell over-voltage");
    push_flag(&mut out, p, 0x04, "protection: cell under-voltage");
    push_flag(&mut out, p, 0x08, "protection: pack over-voltage");
    push_flag(&mut out, p, 0x10, "protection: pack under-voltage");
    push_flag(&mut out, p, 0x20, "protection: charge over-current");
    push_flag(&mut out, p, 0x40, "protection: discharge over-current");
    push_flag(&mut out, p, 0x80, "protection: over-temperature");
    if d.len() >= 2 {
        let w = d[1];
        push_flag(&mut out, w, 0x02, "warning: cell high-voltage");
        push_flag(&mut out, w, 0x04, "warning: cell low-voltage");
        push_flag(&mut out, w, 0x20, "warning: high current");
        push_flag(&mut out, w, 0x80, "warning: high temperature");
    }
    out
}

impl PylontechState {
    /// A state that has seen no frame.
    pub fn new() -> (s: Self)
        ensures
            s@ == (PylontechModel {
                soc: None,
                soh: None,
                voltage: None,
                current: None,
                temperature: None,
                charge_voltage_limit: None,
                discharge_voltage_limit: None,
                charge_current_limit: None,
                discharge_current_limit: None,
                charge_enabled: None,
                discharge_enabled: None,
                alarms: Seq::empty(),
            }),
    {
        let s = PylontechState {
            soc: None,
            soh: None,
            voltage: None,
            current: None,
            temperature: None,
            charge_voltage_limit: None,
            discharge_voltage_limit: None,
            charge_current_limit: None,
            discharge_current_limit: None,
            charge_enabled: None,
            discharge_enabled: None,
            alarms: Vec::new(),
        };
        assert(texts(s.alarms@) == Seq::<Seq<char>>::empty());
        s
    }

    /// Feed one CAN frame. Unknown ids and short frames are ignored.
    pub fn feed(&mut self, id: u32, data: &[u8])
        ensures
            final(self)@ == fed(old(self)@, id, data@),
    {
        if id == 0x351 && data.len() >= 8 {
            self.charge_voltage_limit = Some(u16_le(data, 0));
            self.charge_current_limit = Some(i16_le(data, 2));
            self.discharge_current_limit = Some(i16_le(data, 4));
            self.discharge_voltage_limit = Some(u16_le(data, 6));
        } else if id == 0x355 && data.len() >= 4 {
            self.soc = Some(u16_le(data, 0));
            self.soh = Some(u16_le(data, 2));
        } else if id == 0x356 && data.len() >= 6 {
            self.voltage = Some(i16_le(data, 0));
            self.current = Some(i16_le(data, 2));
            self.temperature = Some(i16_le(data, 4));
        } else if id == 0x359 && data.len() >= 4 {
            self.alarms = decode_alarms(data);
        } else if id == 0x35C && data.len() >= 1 {
            self.charge_enabled = Some(data[0] & 0x80 != 0);
            self.discharge_enabled = Some(data[0] & 0x40 != 0);
        }
    }

    /// True once enough frames were seen to report meaningful telemetry: a
    /// state of charge or a measured voltage.
    pub fn is_ready(&self) -> (r: bool)
        ensures
            r == (self.soc is Some || self.voltage is Some),
    {
        self.soc.is_some() || self.voltage.is_some()
    }
}

/// A frame with an unknown id, or too short for its id, leaves the state as
/// it was.
pub proof fn lemma_ignored_frames(s: PylontechModel, id: u32, d: Seq<u8>)
    requires
        !known_frame(id, d.len()),
    ensures
        fed(s, id, d) == s,
{
}

/// Readiness only ever grows: feeding any frame to a ready state leaves it
/// ready.
pub proof fn lemma_ready_stays(s: PylontechModel, id: u32, d: Seq<u8>)
    requires
        s.soc is Some || s.voltage is Some,
    ensures
        fed(s, id, d).soc is Some || fed(s, id, d).voltage is Some,
{
}

/// A 0x351 frame of at least 8 bytes sets the four limits from its
/// little-endian words, in order: charge voltage (unsigned, bytes 0..2),
/// charge current (signed, bytes 2..4), discharge current (signed, bytes
/// 4..6) and discharge voltage (unsigned, bytes 6..8); nothing else changes.
pub proof fn lemma_limits_frame(s: PylontechModel, d: Seq<u8>)
    requires
        d.len() >= 8,
    ensures
        fed(s, 0x351, d).charge_voltage_limit matches Some(v) && v == d[0] + 256 * d[1],
        fed(s, 0x351, d).charge_current_limit matches Some(v) && v == d[2] + 256 * d[3] - (
        if d[3] >= 128 {
            65536int
        } else {
            0int
        }),
        fed(s, 0x351, d).discharge_current_limit matches Some(v) && v == d[4] + 256 * d[5] - (
        if d[5] >= 128 {
            65536int
        } else {
            0int
        }),
        fed(s, 0x351, d).discharge_voltage_limit matches Some(v) && v == d[6] + 256 * d[7],
        fed(s, 0x351, d).soc == s.soc && fed(s, 0x351, d).soh == s.soh,
        fed(s, 0x351, d).voltage == s.voltage && fed(s, 0x351, d).current == s.current,
        fed(s, 0x351, d).temperature == s.temperature,
        fed(s, 0x351, d).charge_enabled == s.charge_enabled,
        fed(s, 0x351, d).discharge_enabled == s.discharge_enabled,
        fed(s, 0x351, d).alarms == s.alarms,
{
}

/// A 0x355 frame of at least 4 bytes sets the state of charge from bytes
/// 0..2 and the state of health from bytes 2..4 (little-endian, unsigned);
/// nothing else changes.
pub proof fn lemma_soc_frame(s: PylontechModel, d: Seq<u8>)
    requires
        d.len() >= 4,
    ensures
        fed(s, 0x355, d).soc matches Some(v) && v == d[0] + 256 * d[1],
        fed(s, 0x355, d).soh matches Some(v) && v == d[2] + 256 * d[3],
        fed(s, 0x355, d).voltage == s.voltage && fed(s, 0x355, d).current == s.current,
        fed(s, 0x355, d).temperature == s.temperature,
        fed(s, 0x355, d).charge_voltage_limit == s.charge_voltage_limit,
        fed(s, 0x355, d).charge_current_limit == s.charge_current_limit,
        fed(s, 0x355, d).discharge_current_limit == s.discharge_current_limit,
        fed(s, 0x355, d).discharge_voltage_limit == s.discharge_voltage_limit,
        fed(s, 0x355, d).charge_enabled == s.charge_enabled,
        fed(s, 0x355, d).discharge_enabled == s.discharge_enabled,
        fed(s, 0x355, d).alarms == s.alarms,
{
}

/// A 0x356 frame of at least 6 bytes sets voltage (bytes 0..2), current
/// (bytes 2..4) and temperature (bytes 4..6), each a little-endian signed
/// word; nothing else changes.
pub proof fn lemma_measurement_frame(s: PylontechModel, d: Seq<u8>)
    requires
        d.len() >= 6,
    ensures
        fed(s, 0x356, d).voltage matches Some(v) && v == d[0] + 256 * d[1] - (if d[1] >= 128 {
            65536int
        } else {
            0int
        }),
        fed(s, 0x356, d).current matches Some(v) && v == d[2] + 256 * d[3] - (if d[3] >= 128 {
            65536int
        } else {
            0int
        }),
        fed(s, 0x356, d).temperature matches Some(v) && v == d[4] + 256 * d[5] - (if d[5]
            >= 128 {
            65536int
        } else {
            0int
        }),
        fed(s, 0x356, d).soc == s.soc && fed(s, 0x356, d).soh == s.soh,
        fed(s, 0x356, d).charge_voltage_limit == s.charge_voltage_limit,
        fed(s, 0x356, d).charge_current_limit == s.charge_current_limit,
        fed(s, 0x356, d).discharge_current_limit == s.discharge_current_limit,
        fed(s, 0x356, d).discharge_voltage_limit == s.discharge_voltage_limit,
        fed(s, 0x356, d).charge_enabled == s.charge_enabled,
        fed(s, 0x356, d).discharge_enabled == s.discharge_enabled,
        fed(s, 0x356, d).alarms == s.alarms,
{
}

/// A 0x35C frame sets charging enabled from bit 7 of byte 0 and discharging
/// enabled from bit 6; nothing else changes.
pub proof fn lemma_request_frame(s: PylontechModel, d: Seq<u8>)
    requires
        d.len() >= 1,
    ensures
        fed(s, 0x35C, d).charge_enabled == Some(d[0] >= 128),
        fed(s, 0x35C, d).discharge_enabled == Some(d[0] % 128 >= 64),
        fed(s, 0x35C, d).soc == s.soc && fed(s, 0x35C, d).soh == s.soh,
        fed(s, 0x35C, d).voltage == s.voltage && fed(s, 0x35C, d).current == s.current,
        fed(s, 0x35C, d).temperature == s.temperature,
        fed(s, 0x35C, d).charge_voltage_limit == s.charge_voltage_limit,
        fed(s, 0x35C, d).charge_current_limit == s.charge_current_limit,
        fed(s, 0x35C, d).discharge_current_limit == s.discharge_current_limit,
        fed(s, 0x35C, d).discharge_voltage_limit == s.discharge_voltage_limit,
        fed(s, 0x35C, d).alarms == s.alarms,
{
    let b = d[0];
    assert((b & 0x80 != 0) == (b >= 128)) by (bit_vector);
    assert((b & 0x40 != 0) == (b % 128 >= 64)) by (bit_vector);
}






proof fn lemma_concat_contains(a: Seq<Seq<char>>, b: Seq<Seq<char>>, x: Seq<char>)
    ensures
        (a + b).contains(x) == (a.contains(x) || b.contains(x)),
{
    if a.contains(x) {
        let i = choose|i: int| 0 <= i < a.len() && a[i] == x;
        assert((a + b)[i] == x);
    }
    if b.contains(x) {
        let i = choose|i: int| 0 <= i < b.len() && b[i] == x;
        assert((a + b)[a.len() + i] == x);
    }
    if (a + b).contains(x) {
        let i = choose|i: int| 0 <= i < (a + b).len() && (a + b)[i] == x;
        if i < a.len() {
            assert(a[i] == x);
        } else {
            assert(b[i - a.len()] == x);
        }
    }
}

proof fn lemma_flag_contains(byte: u8, mask: u8, text: Seq<char>, x: Seq<char>)
    ensures
        flag(byte, mask, text).contains(x) == (byte & mask != 0 && x == text),
{
    if byte & mask != 0 {
        assert(seq![text][0] == text);
    }
}

/// The protection alarms of a 0x359 frame's first byte, in bit order.
#[verifier::opaque]
spec fn protection_alarms(p: u8) -> Seq<Seq<char>> {
    (flag(p, 0x02, "protection: cell over-voltage"@) + flag(p, 0x04, "protection: cell under-voltage"@) + flag(p, 0x08, "protection: pack over-voltage"@) + flag(p, 0x10, "protection: pack under-voltage"@) + flag(p, 0x20, "protection: charge over-current"@) + flag(p, 0x40, "protection: discharge over-current"@) + flag(p, 0x80, "protection: over-temperature"@))
}

/// The warning alarms of a 0x359 frame's second byte, in bit order.
#[verifier::opaque]
spec fn warning_alarms(w: u8) -> Seq<Seq<char>> {
    (flag(w, 0x02, "warning: cell high-voltage"@) + flag(w, 0x04, "warning: cell low-voltage"@) + flag(w, 0x20, "warning: high current"@) + flag(w, 0x80, "warning: high temperature"@))
}

/// Each protection text is listed exactly when its bit is set.
#[verifier::rlimit(50)]
proof fn lemma_protection_flags(p: u8)
    ensures
        protection_alarms(p).contains("protection: cell over-voltage"@) == (p / 2 % 2 == 1),
        protection_alarms(p).contains("protection: cell under-voltage"@) == (p / 4 % 2 == 1),
        protection_alarms(p).contains("protection: pack over-voltage"@) == (p / 8 % 2 == 1),
        protection_alarms(p).contains("protection: pack under-voltage"@) == (p / 16 % 2 == 1),
        protection_alarms(p).contains("protection: charge over-current"@) == (p / 32 % 2 == 1),
        protection_alarms(p).contains("protection: discharge over-current"@) == (p / 64 % 2 == 1),
        protection_alarms(p).contains("protection: over-temperature"@) == (p / 128 % 2 == 1),
        forall|x: Seq<char>| #[trigger] protection_alarms(p).contains(x) ==> x.len() > 0 && x[0] == 'p',
{
    reveal(protection_alarms);
    reveal_strlit("protection: cell over-voltage");
    assert("protection: cell over-voltage"@.len() == 29);
    reveal_strlit("protection: cell under-voltage");
    assert("protection: cell under-voltage"@.len() == 30);
    reveal_strlit("protection: pack over-voltage");
    assert("protection: pack over-voltage"@.len() == 29);
    reveal_strlit("protection: pack under-voltage");
    assert("protection: pack under-voltage"@.len() == 30);
    reveal_strlit("protection: charge over-current");
    assert("protection: charge over-current"@.len() == 31);
    reveal_strlit("protection: discharge over-current");
    assert("protection: discharge over-current"@.len() == 34);
    reveal_strlit("protection: over-temperature");
    assert("protection: over-temperature"@.len() == 28);
    assert("protection: cell over-voltage"@[12] != "protection: pack over-voltage"@[12]);
    assert("protection: cell under-voltage"@[12] != "protection: pack under-voltage"@[12]);
    assert((p & 0x02 != 0) == (p / 2 % 2 == 1)) by (bit_vector);
    assert((p & 0x04 != 0) == (p / 4 % 2 == 1)) by (bit_vector);
    assert((p & 0x08 != 0) == (p / 8 % 2 == 1)) by (bit_vector);
    assert((p & 0x10 != 0) == (p / 16 % 2 == 1)) by (bit_vector);
    assert((p & 0x20 != 0) == (p / 32 % 2 == 1)) by (bit_vector);
    assert((p & 0x40 != 0) == (p / 64 % 2 == 1)) by (bit_vector);
    assert((p & 0x80 != 0) == (p / 128 % 2 == 1)) by (bit_vector);
    assert((flag(p, 0x02, "protection: cell over-voltage"@) + flag(p, 0x04, "protection: cell under-voltage"@) + flag(p, 0x08, "protection: pack over-voltage"@) + flag(p, 0x10, "protection: pack under-voltage"@) + flag(p, 0x20, "protection: charge over-current"@) + flag(p, 0x40, "protection: discharge over-current"@) + flag(p, 0x80, "protection: over-temperature"@)).contains("protection: cell over-voltage"@) == (p & 0x02 != 0)) by {
        lemma_concat_contains((flag(p, 0x02, "protection: cell over-voltage"@)), flag(p, 0x04, "protection: cell under-voltage"@), "protection: cell over-voltage"@);
        lemma_concat_contains((flag(p, 0x02, "protection: cell over-voltage"@) + flag(p, 0x04, "protection: cell under-voltage"@)), flag(p, 0x08, "protection: pack over-voltage"@), "protection: cell over-voltage"@);
        lemma_concat_contains((flag(p, 0x02, "protection: cell over-voltage"@) + flag(p, 0x04, "protection: cell under-voltage"@) + flag(p, 0x08, "protection: pack over-voltage"@)), flag(p, 0x10, "protection: pack under-voltage"@), "protection: cell over-voltage"@);
        lemma_concat_contains((flag(p, 0x02, "protection: cell over-voltage"@) + flag(p, 0x04, "protection: cell under-voltage"@) + flag(p, 0x08, "protection: pack over-voltage"@) + flag(p, 0x10, "protection: pack under-voltage"@)), flag(p, 0x20, "protection: charge over-current"@), "protection: cell over-voltage"@);
        lemma_concat_contains((flag(p, 0x02, "protection: cell over-voltage"@) + flag(p, 0x04, "protection: cell under-voltage"@) + flag(p, 0x08, "protection: pack over-voltage"@) + flag(p, 0x10, "protection: pack under-voltage"@) + flag(p, 0x20, "protection: charge over-current"@)), flag(p, 0x40, "protection: discharge over-current"@), "protection: cell over-voltage"@);
        lemma_concat_contains((flag(p, 0x02, "protection: cell over-voltage"@) + flag(p, 0x04, "protection: cell under-voltage"@) + flag(p, 0x08, "protection: pack over-voltage"@) + flag(p, 0x10, "protection: pack under-voltage"@) + flag(p, 0x20, "protection: charge over-current"@) + flag(p, 0x40, "protection: discharge over-current"@)), flag(p, 0x80, "protection: over-temperature"@), "protection: cell over-voltage"@);
        lemma_flag_contains(p, 0x02, "protection: cell over-voltage"@, "protection: cell over-voltage"@);
        lemma_flag_contains(p, 0x04, "protection: cell under-voltage"@, "protection: cell over-voltage"@);
        lemma_flag_contains(p, 0x08, "protection: pack over-voltage"@, "protection: cell over-voltage"@);
        lemma_flag_contains(p, 0x10, "protection: pack under-voltage"@, "protection: cell over-voltage"@);
        lemma_flag_contains(p, 0x20, "protection: charge over-current"@, "protection: cell over-voltage"@);
        lemma_flag_contains(p, 0x40, "protection: discharge over-current"@, "protection: cell over-voltage"@);
        lemma_flag_contains(p, 0x80, "protection: over-temperature"@, "protection: cell over-voltage"@);
    }
    assert((flag(p, 0x02, "protection: cell over-voltage"@) + flag(p, 0x04, "protection: cell under-voltage"@) + flag(p, 0x08, "protection: pack over-voltage"@) + flag(p, 0x10, "protection: pack under-voltage"@) + flag(p, 0x20, "protection: charge over-current"@) + flag(p, 0x40, "protection: discharge over-current"@) + flag(p, 0x80, "protection: over-temperature"@)).contains("protection: cell under-voltage"@) == (p & 0x04 != 0)) by {
        lemma_concat_contains((flag(p, 0x02, "protection: cell over-voltage"@)), flag(p, 0x04, "protection: cell under-voltage"@), "protection: cell under-voltage"@);
        lemma_concat_contains((flag(p, 0x02, "protection: cell over-voltage"@) + flag(p, 0x04, "protection: cell under-voltage"@)), flag(p, 0x08, "protection: pack over-voltage"@), "protection: cell under-voltage"@);
        lemma_concat_contains((flag(p, 0x02, "protection: cell over-voltage"@) + flag(p, 0x04, "protection: cell under-voltage"@) + flag(p, 0x08, "protection: pack over-voltage"@)), flag(p, 0x10, "protection: pack under-voltage"@), "protection: cell under-voltage"@);
        lemma_concat_contains((flag(p, 0x02, "protection: cell over-voltage"@) + flag(p, 0x04, "protection: cell under-voltage"@) + flag(p, 0x08, "protection: pack over-voltage"@) + flag(p, 0x10, "protection: pack under-voltage"@)), flag(p, 0x20, "protection: charge over-current"@), "protection: cell under-voltage"@);
        lemma_concat_contains((flag(p, 0x02, "protection: cell over-voltage"@) + flag(p, 0x04, "protection: cell under-voltage"@) + flag(p, 0x08, "protection: pack over-voltage"@) + flag(p, 0x10, "protection: pack under-voltage"@) + flag(p, 0x20, "protection: charge over-current"@)), flag(p, 0x40, "protection: discharge over-current"@), "protection: cell under-voltage"@);
        lemma_concat_contains((flag(p, 0x02, "protection: cell over-voltage"@) + flag(p, 0x04, "protection: cell under-voltage"@) + flag(p, 0x08, "protection: pack over-voltage"@) + flag(p, 0x10, "protection: pack under-voltage"@) + flag(p, 0x20, "protection: charge over-current"@) + flag(p, 0x40, "protection: discharge over-current"@)), flag(p, 0x80, "protection: over-temperature"@), "protection: cell under-voltage"@);
        lemma_flag_contains(p, 0x02, "protection: cell over-voltage"@, "protection: cell under-voltage"@);
        lemma_flag_contains(p, 0x04, "protection: cell under-voltage"@, "protection: cell under-voltage"@);
        lemma_flag_contains(p, 0x08, "protection: pack over-voltage"@, "protection: cell under-voltage"@);
        lemma_flag_contains(p, 0x10, "protection: pack under-voltage"@, "protection: cell under-voltage"@);
        lemma_flag_contains(p, 0x20, "protection: charge over-current"@, "protection: cell under-voltage"@);
        lemma_flag_contains(p, 0x40, "protection: discharge over-current"@, "protection: cell under-voltage"@);
        lemma_flag_contains(p, 0x80, "protection: over-temperature"@, "protection: cell under-voltage"@);
    }
    assert((flag(p, 0x02, "protection: cell over-voltage"@) + flag(p, 0x04, "protection: cell under-voltage"@) + flag(p, 0x08, "protection: pack over-voltage"@) + flag(p, 0x10, "protection: pack under-voltage"@) + flag(p, 0x20, "protection: charge over-current"@) + flag(p, 0x40, "protection: discharge over-current"@) + flag(p, 0x80, "protection: over-temperature"@)).contains("protection: pack over-voltage"@) == (p & 0x08 != 0)) by {
        lemma_concat_contains((flag(p, 0x02, "protection: cell over-voltage"@)), flag(p, 0x04, "protection: cell under-voltage"@), "protection: pack over-voltage"@);
        lemma_concat_contains((flag(p, 0x02, "protection: cell over-voltage"@) + flag(p, 0x04, "protection: cell under-voltage"@)), flag(p, 0x08, "protection: pack over-voltage"@), "protection: pack over-voltage"@);
        lemma_concat_contains((flag(p, 0x02, "protection: cell over-voltage"@) + flag(p, 0x04, "protection: cell under-voltage"@) + flag(p, 0x08, "protection: pack over-voltage"@)), flag(p, 0x10, "protection: pack under-voltage"@), "protection: pack over-voltage"@);
        lemma_concat_contains((flag(p, 0x02, "protection: cell over-voltage"@) + flag(p, 0x04, "protection: cell under-voltage"@) + flag(p, 0x08, "protection: pack over-voltage"@) + flag(p, 0x10, "protection: pack under-voltage"@)), flag(p, 0x20, "protection: charge over-current"@), "protection: pack over-voltage"@);
        lemma_concat_contains((flag(p, 0x02, "protection: cell over-voltage"@) + flag(p, 0x04, "protection: cell under-voltage"@) + flag(p, 0x08, "protection: pack over-voltage"@) + flag(p, 0x10, "protection: pack under-voltage"@) + flag(p, 0x20, "protection: charge over-current"@)), flag(p, 0x40, "protection: discharge over-current"@), "protection: pack over-voltage"@);
        lemma_concat_contains((flag(p, 0x02, "protection: cell over-voltage"@) + flag(p, 0x04, "protection: cell under-voltage"@) + flag(p, 0x08, "protection: pack over-voltage"@) + flag(p, 0x10, "protection: pack under-voltage"@) + flag(p, 0x20, "protection: charge over-current"@) + flag(p, 0x40, "protection: discharge over-current"@)), flag(p, 0x80, "protection: over-temperature"@), "protection: pack over-voltage"@);
        lemma_flag_contains(p, 0x02, "protection: cell over-voltage"@, "protection: pack over-voltage"@);
        lemma_flag_contains(p, 0x04, "protection: cell under-voltage"@, "protection: pack over-voltage"@);
        lemma_flag_contains(p, 0x08, "protection: pack over-voltage"@, "protection: pack over-voltage"@);
        lemma_flag_contains(p, 0x10, "protection: pack under-voltage"@, "protection: pack over-voltage"@);
        lemma_flag_contains(p, 0x20, "protection: charge over-current"@, "protection: pack over-voltage"@);
        lemma_flag_contains(p, 0x40, "protection: discharge over-current"@, "protection: pack over-voltage"@);
        lemma_flag_contains(p, 0x80, "protection: over-temperature"@, "protection: pack over-voltage"@);
    }
    assert((flag(p, 0x02, "protection: cell over-voltage"@) + flag(p, 0x04, "protection: cell under-voltage"@) + flag(p, 0x08, "protection: pack over-voltage"@) + flag(p, 0x10, "protection: pack under-voltage"@) + flag(p, 0x20, "protection: charge over-current"@) + flag(p, 0x40, "protection: discharge over-current"@) + flag(p, 0x80, "protection: over-temperature"@)).contains("protection: pack under-voltage"@) == (p & 0x10 != 0)) by {
        lemma_concat_contains((flag(p, 0x02, "protection: cell over-voltage"@)), flag(p, 0x04, "protection: cell under-voltage"@), "protection: pack under-voltage"@);
        lemma_concat_contains((flag(p, 0x02, "protection: cell over-voltage"@) + flag(p, 0x04, "protection: cell under-voltage"@)), flag(p, 0x08, "protection: pack over-voltage"@), "protection: pack under-voltage"@);
        lemma_concat_contains((flag(p, 0x02, "protection: cell over-voltage"@) + flag(p, 0x04, "protection: cell under-voltage"@) + flag(p, 0x08, "protection: pack over-voltage"@)), flag(p, 0x10, "protection: pack under-voltage"@), "protection: pack under-voltage"@);
        lemma_concat_contains((flag(p, 0x02, "protection: cell over-voltage"@) + flag(p, 0x04, "protection: cell under-voltage"@) + flag(p, 0x08, "protection: pack over-voltage"@) + flag(p, 0x10, "protection: pack under-voltage"@)), flag(p, 0x20, "protection: charge over-current"@), "protection: pack under-voltage"@);
        lemma_concat_contains((flag(p, 0x02, "protection: cell over-voltage"@) + flag(p, 0x04, "protection: cell under-voltage"@) + flag(p, 0x08, "protection: pack over-voltage"@) + flag(p, 0x10, "protection: pack under-voltage"@) + flag(p, 0x20, "protection: charge over-current"@)), flag(p, 0x40, "protection: discharge over-current"@), "protection: pack under-voltage"@);
        lemma_concat_contains((flag(p, 0x02, "protection: cell over-voltage"@) + flag(p, 0x04, "protection: cell under-voltage"@) + flag(p, 0x08, "protection: pack over-voltage"@) + flag(p, 0x10, "protection: pack under-voltage"@) + flag(p, 0x20, "protection: charge over-current"@) + flag(p, 0x40, "protection: discharge over-current"@)), flag(p, 0x80, "protection: over-temperature"@), "protection: pack under-voltage"@);
        lemma_flag_contains(p, 0x02, "protection: cell over-voltage"@, "protection: pack under-voltage"@);
        lemma_flag_contains(p, 0x04, "protection: cell under-voltage"@, "protection: pack under-voltage"@);
        lemma_flag_contains(p, 0x08, "protection: pack over-voltage"@, "protection: pack under-voltage"@);
        lemma_flag_contains(p, 0x10, "protection: pack under-voltage"@, "protection: pack under-voltage"@);
        lemma_flag_contains(p, 0x20, "protection: charge over-current"@, "protection: pack under-voltage"@);
        lemma_flag_contains(p, 0x40, "protection: discharge over-current"@, "protection: pack under-voltage"@);
        lemma_flag_contains(p, 0x80, "protection: over-temperature"@, "protection: pack under-voltage"@);
    }
    assert((flag(p, 0x02, "protection: cell over-voltage"@) + flag(p, 0x04, "protection: cell under-voltage"@) + flag(p, 0x08, "protection: pack over-voltage"@) + flag(p, 0x10, "protection: pack under-voltage"@) + flag(p, 0x20, "protection: charge over-current"@) + flag(p, 0x40, "protection: discharge over-current"@) + flag(p, 0x80, "protection: over-temperature"@)).contains("protection: charge over-current"@) == (p & 0x20 != 0)) by {
        lemma_concat_contains((flag(p, 0x02, "protection: cell over-voltage"@)), flag(p, 0x04, "protection: cell under-voltage"@), "protection: charge over-current"@);
        lemma_concat_contains((flag(p, 0x02, "protection: cell over-voltage"@) + flag(p, 0x04, "protection: cell under-voltage"@)), flag(p, 0x08, "protection: pack over-voltage"@), "protection: charge over-current"@);
        lemma_concat_contains((flag(p, 0x02, "protection: cell over-voltage"@) + flag(p, 0x04, "protection: cell under-voltage"@) + flag(p, 0x08, "protection: pack over-voltage"@)), flag(p, 0x10, "protection: pack under-voltage"@), "protection: charge over-current"@);
        lemma_concat_contains((flag(p, 0x02, "protection: cell over-voltage"@) + flag(p, 0x04, "protection: cell under-voltage"@) + flag(p, 0x08, "protection: pack over-voltage"@) + flag(p, 0x10, "protection: pack under-voltage"@)), flag(p, 0x20, "protection: charge over-current"@), "protection: charge over-current"@);
        lemma_concat_contains((flag(p, 0x02, "protection: cell over-voltage"@) + flag(p, 0x04, "protection: cell under-voltage"@) + flag(p, 0x08, "protection: pack over-voltage"@) + flag(p, 0x10, "protection: pack under-voltage"@) + flag(p, 0x20, "protection: charge over-current"@)), flag(p, 0x40, "protection: discharge over-current"@), "protection: charge over-current"@);
        lemma_concat_contains((flag(p, 0x02, "protection: cell over-voltage"@) + flag(p, 0x04, "protection: cell under-voltage"@) + flag(p, 0x08, "protection: pack over-voltage"@) + flag(p, 0x10, "protection: pack under-voltage"@) + flag(p, 0x20, "protection: charge over-current"@) + flag(p, 0x40, "protection: discharge over-current"@)), flag(p, 0x80, "protection: over-temperature"@), "protection: charge over-current"@);
        lemma_flag_contains(p, 0x02, "protection: cell over-voltage"@, "protection: charge over-current"@);
        lemma_flag_contains(p, 0x04, "protection: cell under-voltage"@, "protection: charge over-current"@);
        lemma_flag_contains(p, 0x08, "protection: pack over-voltage"@, "protection: charge over-current"@);
        lemma_flag_contains(p, 0x10, "protection: pack under-voltage"@, "protection: charge over-current"@);
        lemma_flag_contains(p, 0x20, "protection: charge over-current"@, "protection: charge over-current"@);
        lemma_flag_contains(p, 0x40, "protection: discharge over-current"@, "protection: charge over-current"@);
        lemma_flag_contains(p, 0x80, "protection: over-temperature"@, "protection: charge over-current"@);
    }
    assert((flag(p, 0x02, "protection: cell over-voltage"@) + flag(p, 0x04, "protection: cell under-voltage"@) + flag(p, 0x08, "protection: pack over-voltage"@) + flag(p, 0x10, "protection: pack under-voltage"@) + flag(p, 0x20, "protection: charge over-current"@) + flag(p, 0x40, "protection: discharge over-current"@) + flag(p, 0x80, "protection: over-temperature"@)).contains("protection: discharge over-current"@) == (p & 0x40 != 0)) by {
        lemma_concat_contains((flag(p, 0x02, "protection: cell over-voltage"@)), flag(p, 0x04, "protection: cell under-voltage"@), "protection: discharge over-current"@);
        lemma_concat_contains((flag(p, 0x02, "protection: cell over-voltage"@) + flag(p, 0x04, "protection: cell under-voltage"@)), flag(p, 0x08, "protection: pack over-voltage"@), "protection: discharge over-current"@);
        lemma_concat_contains((flag(p, 0x02, "protection: cell over-voltage"@) + flag(p, 0x04, "protection: cell under-voltage"@) + flag(p, 0x08, "protection: pack over-voltage"@)), flag(p, 0x10, "protection: pack under-voltage"@), "protection: discharge over-current"@);
        lemma_concat_contains((flag(p, 0x02, "protection: cell over-voltage"@) + flag(p, 0x04, "protection: cell under-voltage"@) + flag(p, 0x08, "protection: pack over-voltage"@) + flag(p, 0x10, "protection: pack under-voltage"@)), flag(p, 0x20, "protection: charge over-current"@), "protection: discharge over-current"@);
        lemma_concat_contains((flag(p, 0x02, "protection: cell over-voltage"@) + flag(p, 0x04, "protection: cell under-voltage"@) + flag(p, 0x08, "protection: pack over-voltage"@) + flag(p, 0x10, "protection: pack under-voltage"@) + flag(p, 0x20, "protection: charge over-current"@)), flag(p, 0x40, "protection: discharge over-current"@), "protection: discharge over-current"@);
        lemma_concat_contains((flag(p, 0x02, "protection: cell over-voltage"@) + flag(p, 0x04, "protection: cell under-voltage"@) + flag(p, 0x08, "protection: pack over-voltage"@) + flag(p, 0x10, "protection: pack under-voltage"@) + flag(p, 0x20, "protection: charge over-current"@) + flag(p, 0x40, "protection: discharge over-current"@)), flag(p, 0x80, "protection: over-temperature"@), "protection: discharge over-current"@);
        lemma_flag_contains(p, 0x02, "protection: cell over-voltage"@, "protection: discharge over-current"@);
        lemma_flag_contains(p, 0x04, "protection: cell under-voltage"@, "protection: discharge over-current"@);
        lemma_flag_contains(p, 0x08, "protection: pack over-voltage"@, "protection: discharge over-current"@);
        lemma_flag_contains(p, 0x10, "protection: pack under-voltage"@, "protection: discharge over-current"@);
        lemma_flag_contains(p, 0x20, "protection: charge over-current"@, "protection: discharge over-current"@);
        lemma_flag_contains(p, 0x40, "protection: discharge over-current"@, "protection: discharge over-current"@);
        lemma_flag_contains(p, 0x80, "protection: over-temperature"@, "protection: discharge over-current"@);
    }
    assert((flag(p, 0x02, "protection: cell over-voltage"@) + flag(p, 0x04, "protection: cell under-voltage"@) + flag(p, 0x08, "protection: pack over-voltage"@) + flag(p, 0x10, "protection: pack under-voltage"@) + flag(p, 0x20, "protection: charge over-current"@) + flag(p, 0x40, "protection: discharge over-current"@) + flag(p, 0x80, "protection: over-temperature"@)).contains("protection: over-temperature"@) == (p & 0x80 != 0)) by {
        lemma_concat_contains((flag(p, 0x02, "protection: cell over-voltage"@)), flag(p, 0x04, "protection: cell under-voltage"@), "protection: over-temperature"@);
        lemma_concat_contains((flag(p, 0x02, "protection: cell over-voltage"@) + flag(p, 0x04, "protection: cell under-voltage"@)), flag(p, 0x08, "protection: pack over-voltage"@), "protection: over-temperature"@);
        lemma_concat_contains((flag(p, 0x02, "protection: cell over-voltage"@) + flag(p, 0x04, "protection: cell under-voltage"@) + flag(p, 0x08, "protection: pack over-voltage"@)), flag(p, 0x10, "protection: pack under-voltage"@), "protection: over-temperature"@);
        lemma_concat_contains((flag(p, 0x02, "protection: cell over-voltage"@) + flag(p, 0x04, "protection: cell under-voltage"@) + flag(p, 0x08, "protection: pack over-voltage"@) + flag(p, 0x10, "protection: pack under-voltage"@)), flag(p, 0x20, "protection: charge over-current"@), "protection: over-temperature"@);
        lemma_concat_contains((flag(p, 0x02, "protection: cell over-voltage"@) + flag(p, 0x04, "protection: cell under-voltage"@) + flag(p, 0x08, "protection: pack over-voltage"@) + flag(p, 0x10, "protection: pack under-voltage"@) + flag(p, 0x20, "protection: charge over-current"@)), flag(p, 0x40, "protection: discharge over-current"@), "protection: over-temperature"@);
        lemma_concat_contains((flag(p, 0x02, "protection: cell over-voltage"@) + flag(p, 0x04, "protection: cell under-voltage"@) + flag(p, 0x08, "protection: pack over-voltage"@) + flag(p, 0x10, "protection: pack under-voltage"@) + flag(p, 0x20, "protection: charge over-current"@) + flag(p, 0x40, "protection: discharge over-current"@)), flag(p, 0x80, "protection: over-temperature"@), "protection: over-temperature"@);
        lemma_flag_contains(p, 0x02, "protection: cell over-voltage"@, "protection: over-temperature"@);
        lemma_flag_contains(p, 0x04, "protection: cell under-voltage"@, "protection: over-temperature"@);
        lemma_flag_contains(p, 0x08, "protection: pack over-voltage"@, "protection: over-temperature"@);
        lemma_flag_contains(p, 0x10, "protection: pack under-voltage"@, "protection: over-temperature"@);
        lemma_flag_contains(p, 0x20, "protection: charge over-current"@, "protection: over-temperature"@);
        lemma_flag_contains(p, 0x40, "protection: discharge over-current"@, "protection: over-temperature"@);
        lemma_flag_contains(p, 0x80, "protection: over-temperature"@, "protection: over-temperature"@);
    }
    assert forall|x: Seq<char>| #[trigger] (flag(p, 0x02, "protection: cell over-voltage"@) + flag(p, 0x04, "protection: cell under-voltage"@) + flag(p, 0x08, "protection: pack over-voltage"@) + flag(p, 0x10, "protection: pack under-voltage"@) + flag(p, 0x20, "protection: charge over-current"@) + flag(p, 0x40, "protection: discharge over-current"@) + flag(p, 0x80, "protection: over-temperature"@)).contains(x) implies x.len() > 0 && x[0] == 'p' by {
        lemma_concat_contains((flag(p, 0x02, "protection: cell over-voltage"@)), flag(p, 0x04, "protection: cell under-voltage"@), x);
        lemma_concat_contains((flag(p, 0x02, "protection: cell over-voltage"@) + flag(p, 0x04, "protection: cell under-voltage"@)), flag(p, 0x08, "protection: pack over-voltage"@), x);
        lemma_concat_contains((flag(p, 0x02, "protection: cell over-voltage"@) + flag(p, 0x04, "protection: cell under-voltage"@) + flag(p, 0x08, "protection: pack over-voltage"@)), flag(p, 0x10, "protection: pack under-voltage"@), x);
        lemma_concat_contains((flag(p, 0x02, "protection: cell over-voltage"@) + flag(p, 0x04, "protection: cell under-voltage"@) + flag(p, 0x08, "protection: pack over-voltage"@) + flag(p, 0x10, "protection: pack under-voltage"@)), flag(p, 0x20, "protection: charge over-current"@), x);
        lemma_concat_contains((flag(p, 0x02, "protection: cell over-voltage"@) + flag(p, 0x04, "protection: cell under-voltage"@) + flag(p, 0x08, "protection: pack over-voltage"@) + flag(p, 0x10, "protection: pack under-voltage"@) + flag(p, 0x20, "protection: charge over-current"@)), flag(p, 0x40, "protection: discharge over-current"@), x);
        lemma_concat_contains((flag(p, 0x02, "protection: cell over-voltage"@) + flag(p, 0x04, "protection: cell under-voltage"@) + flag(p, 0x08, "protection: pack over-voltage"@) + flag(p, 0x10, "protection: pack under-voltage"@) + flag(p, 0x20, "protection: charge over-current"@) + flag(p, 0x40, "protection: discharge over-current"@)), flag(p, 0x80, "protection: over-temperature"@), x);
        lemma_flag_contains(p, 0x02, "protection: cell over-voltage"@, x);
        lemma_flag_contains(p, 0x04, "protection: cell under-voltage"@, x);
        lemma_flag_contains(p, 0x08, "protection: pack over-voltage"@, x);
        lemma_flag_contains(p, 0x10, "protection: pack under-voltage"@, x);
        lemma_flag_contains(p, 0x20, "protection: charge over-current"@, x);
        lemma_flag_contains(p, 0x40, "protection: discharge over-current"@, x);
        lemma_flag_contains(p, 0x80, "protection: over-temperature"@, x);
    }
}

/// Each warning text is listed exactly when its bit is set.
#[verifier::rlimit(50)]
proof fn lemma_warning_flags(w: u8)
    ensures
        warning_alarms(w).contains("warning: cell high-voltage"@) == (w / 2 % 2 == 1),
        warning_alarms(w).contains("warning: cell low-voltage"@) == (w / 4 % 2 == 1),
        warning_alarms(w).contains("warning: high current"@) == (w / 32 % 2 == 1),
        warning_alarms(w).contains("warning: high temperature"@) == (w / 128 % 2 == 1),
        forall|x: Seq<char>| #[trigger] warning_alarms(w).contains(x) ==> x.len() > 0 && x[0] == 'w',
{
    reveal(warning_alarms);
    reveal_strlit("warning: cell high-voltage");
    assert("warning: cell high-voltage"@.len() == 26);
    reveal_strlit("warning: cell low-voltage");
    assert("warning: cell low-voltage"@.len() == 25);
    reveal_strlit("warning: high current");
    assert("warning: high current"@.len() == 21);
    reveal_strlit("warning: high temperature");
    assert("warning: high temperature"@.len() == 25);
    assert("warning: cell low-voltage"@[9] != "warning: high temperature"@[9]);
    assert((w & 0x02 != 0) == (w / 2 % 2 == 1)) by (bit_vector);
    assert((w & 0x04 != 0) == (w / 4 % 2 == 1)) by (bit_vector);
    assert((w & 0x20 != 0) == (w / 32 % 2 == 1)) by (bit_vector);
    assert((w & 0x80 != 0) == (w / 128 % 2 == 1)) by (bit_vector);
    assert((flag(w, 0x02, "warning: cell high-voltage"@) + flag(w, 0x04, "warning: cell low-voltage"@) + flag(w, 0x20, "warning: high current"@) + flag(w, 0x80, "warning: high temperature"@)).contains("warning: cell high-voltage"@) == (w & 0x02 != 0)) by {
        lemma_concat_contains((flag(w, 0x02, "warning: cell high-voltage"@)), flag(w, 0x04, "warning: cell low-voltage"@), "warning: cell high-voltage"@);
        lemma_concat_contains((flag(w, 0x02, "warning: cell high-voltage"@) + flag(w, 0x04, "warning: cell low-voltage"@)), flag(w, 0x20, "warning: high current"@), "warning: cell high-voltage"@);
        lemma_concat_contains((flag(w, 0x02, "warning: cell high-voltage"@) + flag(w, 0x04, "warning: cell low-voltage"@) + flag(w, 0x20, "warning: high current"@)), flag(w, 0x80, "warning: high temperature"@), "warning: cell high-voltage"@);
        lemma_flag_contains(w, 0x02, "warning: cell high-voltage"@, "warning: cell high-voltage"@);
        lemma_flag_contains(w, 0x04, "warning: cell low-voltage"@, "warning: cell high-voltage"@);
        lemma_flag_contains(w, 0x20, "warning: high current"@, "warning: cell high-voltage"@);
        lemma_flag_contains(w, 0x80, "warning: high temperature"@, "warning: cell high-voltage"@);
    }
    assert((flag(w, 0x02, "warning: cell high-voltage"@) + flag(w, 0x04, "warning: cell low-voltage"@) + flag(w, 0x20, "warning: high current"@) + flag(w, 0x80, "warning: high temperature"@)).contains("warning: cell low-voltage"@) == (w & 0x04 != 0)) by {
        lemma_concat_contains((flag(w, 0x02, "warning: cell high-voltage"@)), flag(w, 0x04, "warning: cell low-voltage"@), "warning: cell low-voltage"@);
        lemma_concat_contains((flag(w, 0x02, "warning: cell high-voltage"@) + flag(w, 0x04, "warning: cell low-voltage"@)), flag(w, 0x20, "warning: high current"@), "warning: cell low-voltage"@);
        lemma_concat_contains((flag(w, 0x02, "warning: cell high-voltage"@) + flag(w, 0x04, "warning: cell low-voltage"@) + flag(w, 0x20, "warning: high current"@)), flag(w, 0x80, "warning: high temperature"@), "warning: cell low-voltage"@);
        lemma_flag_contains(w, 0x02, "warning: cell high-voltage"@, "warning: cell low-voltage"@);
        lemma_flag_contains(w, 0x04, "warning: cell low-voltage"@, "warning: cell low-voltage"@);
        lemma_flag_contains(w, 0x20, "warning: high current"@, "warning: cell low-voltage"@);
        lemma_flag_contains(w, 0x80, "warning: high temperature"@, "warning: cell low-voltage"@);
    }
    assert((flag(w, 0x02, "warning: cell high-voltage"@) + flag(w, 0x04, "warning: cell low-voltage"@) + flag(w, 0x20, "warning: high current"@) + flag(w, 0x80, "warning: high temperature"@)).contains("warning: high current"@) == (w & 0x20 != 0)) by {
        lemma_concat_contains((flag(w, 0x02, "warning: cell high-voltage"@)), flag(w, 0x04, "warning: cell low-voltage"@), "warning: high current"@);
        lemma_concat_contains((flag(w, 0x02, "warning: cell high-voltage"@) + flag(w, 0x04, "warning: cell low-voltage"@)), flag(w, 0x20, "warning: high current"@), "warning: high current"@);
        lemma_concat_contains((flag(w, 0x02, "warning: cell high-voltage"@) + flag(w, 0x04, "warning: cell low-voltage"@) + flag(w, 0x20, "warning: high current"@)), flag(w, 0x80, "warning: high temperature"@), "warning: high current"@);
        lemma_flag_contains(w, 0x02, "warning: cell high-voltage"@, "warning: high current"@);
        lemma_flag_contains(w, 0x04, "warning: cell low-voltage"@, "warning: high current"@);
        lemma_flag_contains(w, 0x20, "warning: high current"@, "warning: high current"@);
        lemma_flag_contains(w, 0x80, "warning: high temperature"@, "warning: high current"@);
    }
    assert((flag(w, 0x02, "warning: cell high-voltage"@) + flag(w, 0x04, "warning: cell low-voltage"@) + flag(w, 0x20, "warning: high current"@) + flag(w, 0x80, "warning: high temperature"@)).contains("warning: high temperature"@) == (w & 0x80 != 0)) by {
        lemma_concat_contains((flag(w, 0x02, "warning: cell high-voltage"@)), flag(w, 0x04, "warning: cell low-voltage"@), "warning: high temperature"@);
        lemma_concat_contains((flag(w, 0x02, "warning: cell high-voltage"@) + flag(w, 0x04, "warning: cell low-voltage"@)), flag(w, 0x20, "warning: high current"@), "warning: high temperature"@);
        lemma_concat_contains((flag(w, 0x02, "warning: cell high-voltage"@) + flag(w, 0x04, "warning: cell low-voltage"@) + flag(w, 0x20, "warning: high current"@)), flag(w, 0x80, "warning: high temperature"@), "warning: high temperature"@);
        lemma_flag_contains(w, 0x02, "warning: cell high-voltage"@, "warning: high temperature"@);
        lemma_flag_contains(w, 0x04, "warning: cell low-voltage"@, "warning: high temperature"@);
        lemma_flag_contains(w, 0x20, "warning: high current"@, "warning: high temperature"@);
        lemma_flag_contains(w, 0x80, "warning: high temperature"@, "warning: high temperature"@);
    }
    assert forall|x: Seq<char>| #[trigger] (flag(w, 0x02, "warning: cell high-voltage"@) + flag(w, 0x04, "warning: cell low-voltage"@) + flag(w, 0x20, "warning: high current"@) + flag(w, 0x80, "warning: high temperature"@)).contains(x) implies x.len() > 0 && x[0] == 'w' by {
        lemma_concat_contains((flag(w, 0x02, "warning: cell high-voltage"@)), flag(w, 0x04, "warning: cell low-voltage"@), x);
        lemma_concat_contains((flag(w, 0x02, "warning: cell high-voltage"@) + flag(w, 0x04, "warning: cell low-voltage"@)), flag(w, 0x20, "warning: high current"@), x);
        lemma_concat_contains((flag(w, 0x02, "warning: cell high-voltage"@) + flag(w, 0x04, "warning: cell low-voltage"@) + flag(w, 0x20, "warning: high current"@)), flag(w, 0x80, "warning: high temperature"@), x);
        lemma_flag_contains(w, 0x02, "warning: cell high-voltage"@, x);
        lemma_flag_contains(w, 0x04, "warning: cell low-voltage"@, x);
        lemma_flag_contains(w, 0x20, "warning: high current"@, x);
        lemma_flag_contains(w, 0x80, "warning: high temperature"@, x);
    }
}

/// A 0x359 frame of at least 4 bytes replaces the alarms: each protection
/// text is present exactly when its bit of byte 0 is set (bits 1 to 7), and
/// each warning text exactly when its bit of byte 1 is set (bits 1, 2, 5, 7).
pub proof fn lemma_alarm_frame(s: PylontechModel, d: Seq<u8>)
    requires
        d.len() >= 4,
    ensures
        fed(s, 0x359, d).alarms.contains("protection: cell over-voltage"@) == (d[0] / 2 % 2 == 1),
        fed(s, 0x359, d).alarms.contains("protection: cell under-voltage"@) == (d[0] / 4 % 2 == 1),
        fed(s, 0x359, d).alarms.contains("protection: pack over-voltage"@) == (d[0] / 8 % 2 == 1),
        fed(s, 0x359, d).alarms.contains("protection: pack under-voltage"@) == (d[0] / 16 % 2 == 1),
        fed(s, 0x359, d).alarms.contains("protection: charge over-current"@) == (d[0] / 32 % 2 == 1),
        fed(s, 0x359, d).alarms.contains("protection: discharge over-current"@) == (d[0] / 64 % 2 == 1),
        fed(s, 0x359, d).alarms.contains("protection: over-temperature"@) == (d[0] / 128 % 2 == 1),
        fed(s, 0x359, d).alarms.contains("warning: cell high-voltage"@) == (d[1] / 2 % 2 == 1),
        fed(s, 0x359, d).alarms.contains("warning: cell low-voltage"@) == (d[1] / 4 % 2 == 1),
        fed(s, 0x359, d).alarms.contains("warning: high current"@) == (d[1] / 32 % 2 == 1),
        fed(s, 0x359, d).alarms.contains("warning: high temperature"@) == (d[1] / 128 % 2 == 1),
        fed(s, 0x359, d).soc == s.soc && fed(s, 0x359, d).voltage == s.voltage,
        fed(s, 0x359, d).charge_current_limit == s.charge_current_limit,
        fed(s, 0x359, d).discharge_current_limit == s.discharge_current_limit,
{
    let p = d[0];
    let w = d[1];
    let pr = protection_alarms(p);
    let wr = warning_alarms(w);
    lemma_protection_flags(p);
    lemma_warning_flags(w);
    assert(alarms_of(d) == pr + wr) by {
        reveal(protection_alarms);
        reveal(warning_alarms);
    }
    reveal_strlit("protection: cell over-voltage");
    reveal_strlit("protection: cell under-voltage");
    reveal_strlit("protection: pack over-voltage");
    reveal_strlit("protection: pack under-voltage");
    reveal_strlit("protection: charge over-current");
    reveal_strlit("protection: discharge over-current");
    reveal_strlit("protection: over-temperature");
    reveal_strlit("warning: cell high-voltage");
    reveal_strlit("warning: cell low-voltage");
    reveal_strlit("warning: high current");
    reveal_strlit("warning: high temperature");
    lemma_concat_contains(pr, wr, "protection: cell over-voltage"@);
    lemma_concat_contains(pr, wr, "protection: cell under-voltage"@);
    lemma_concat_contains(pr, wr, "protection: pack over-voltage"@);
    lemma_concat_contains(pr, wr, "protection: pack under-voltage"@);
    lemma_concat_contains(pr, wr, "protection: charge over-current"@);
    lemma_concat_contains(pr, wr, "protection: discharge over-current"@);
    lemma_concat_contains(pr, wr, "protection: over-temperature"@);
    lemma_concat_contains(pr, wr, "warning: cell high-voltage"@);
    lemma_concat_contains(pr, wr, "warning: cell low-voltage"@);
    lemma_concat_contains(pr, wr, "warning: high current"@);
    lemma_concat_contains(pr, wr, "warning: high temperature"@);
}

} // verus!
