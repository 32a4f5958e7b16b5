//! Seplos BMS V3 register map (RS485, Modbus RTU function 0x04, read input
//! registers). Two blocks are read: PIA (`0x1000`×18, status) and PIB
//! (`0x1100`×26, cells and temperatures). Offsets index the verified response
//! frame (`unit, func, byte_count, data…`), so register `r` is at byte
//! `3 + 2r`, big-endian.
//!
//! The decoders keep the raw register integers; the scale of each is given on
//! its field.

use crate::text::{push_decimal, push_str, string_from_chars};
use vstd::prelude::*;

verus! {

/// Pack Info A: basic status.
pub const PIA_START: u16 = 0x1000;

pub const PIA_COUNT: u16 = 0x12;

/// Pack Info B: cell voltages and temperatures.
pub const PIB_START: u16 = 0x1100;

pub const PIB_COUNT: u16 = 0x1A;

/// Register `r` of a verified frame.
pub open spec fn reg(frame: Seq<u8>, r: int) -> u16 {
    (frame[3 + 2 * r] * 256 + frame[4 + 2 * r]) as u16
}

/// Register `r` read as two's complement.
pub open spec fn reg_signed(frame: Seq<u8>, r: int) -> i16 {
    let v = frame[3 + 2 * r] * 256 + frame[4 + 2 * r];
    (if v >= 0x8000 {
        v - 0x10000
    } else {
        v
    }) as i16
}

/// Big-endian `u16` at byte `i`.
pub fn be_u16(frame: &[u8], i: usize) -> (v: u16)
    requires
        i + 1 < frame@.len(),
    ensures
        v == frame@[i as int] * 256 + frame@[i + 1],
{
    frame[i] as u16 * 256 + frame[i + 1] as u16
}

/// Register `r`.
pub fn u16r(frame: &[u8], r: usize) -> (v: u16)
    requires
        4 + 2 * r < frame@.len(),
    ensures
        v == reg(frame@, r as int),
{
    let n = frame.len();
    assert(4 + 2 * r < n);
    be_u16(frame, 3 + 2 * r)
}

/// Register `r` as a signed value.
pub fn i16r(frame: &[u8], r: usize) -> (v: i16)
    requires
        4 + 2 * r < frame@.len(),
    ensures
        v == reg_signed(frame@, r as int),
{
    let u = u16r(frame, r);
    if u >= 0x8000 {
        (u as i32 - 0x10000) as i16
    } else {
        u as i16
    }
}

/// The PIA block: basic status.
#[derive(Debug, Clone, Copy, Default, PartialEq, Eq, Structural)]
pub struct PackStatus {
    /// Pack voltage, 0.01 V.
    pub voltage: u16,
    /// Pack current, 0.01 A (+ charge / − discharge).
    pub current: i16,
    /// Remaining capacity, 0.01 Ah.
    pub remaining: u16,
    /// Full capacity, 0.01 Ah.
    pub total: u16,
    /// State of charge, 0.1 %.
    pub soc: u16,
    /// State of health, 0.1 %.
    pub soh: u16,
    pub cycles: u16,
}

/// Decode a verified PIA block (registers `0x1000..`).
pub fn decode_pia(frame: &[u8]) -> (s: PackStatus)
    requires
        frame@.len() >= 3 + 2 * 8,
    ensures
        s.voltage == reg(frame@, 0),
        s.current == reg_signed(frame@, 1),
        s.remaining == reg(frame@, 2),
        s.total == reg(frame@, 3),
        s.soc == reg(frame@, 5),
        s.soh == reg(frame@, 6),
        s.cycles == reg(frame@, 7),
{
    PackStatus {
        voltage: u16r(frame, 0),
        current: i16r(frame, 1),
        remaining: u16r(frame, 2),
        total: u16r(frame, 3),
        soc: u16r(frame, 5),
        soh: u16r(frame, 6),
        cycles: u16r(frame, 7),
    }
}

/// The PIB block: cells and temperatures.
#[derive(Debug, Clone, Default)]
pub struct PackCells {
    /// Cell voltages in mV; cells above the pack's series count read 0 and
    /// are left out.
    pub cells: Vec<u16>,
    /// Cell temperature sensors 1..4, 0.1 K.
    pub cell_temps: Vec<u16>,
    /// Ambient temperature, 0.1 K.
    pub ambient_temp: u16,
    /// Power (MOSFET) temperature, 0.1 K.
    pub power_temp: u16,
}

/// The non-zero registers among `0..n`, in order.
pub open spec fn nonzero_regs(frame: Seq<u8>, n: int) -> Seq<u16>
    decreases n,
{
    if n <= 0 {
        Seq::empty()
    } else {
        let r = nonzero_regs(frame, n - 1);
        if reg(frame, n - 1) != 0 {
            r.push(reg(frame, n - 1))
        } else {
            r
        }
    }
}

/// Decode a verified PIB block (registers `0x1100..`).
pub fn decode_pib(frame: &[u8]) -> (c: PackCells)
    requires
        frame@.len() >= 3 + 2 * 26,
    ensures
        c.cells@ == nonzero_regs(frame@, 16),
        c.cell_temps@ == seq![reg(frame@, 16), reg(frame@, 17), reg(frame@, 18), reg(frame@, 19)],
        c.ambient_temp == reg(frame@, 24),
        c.power_temp == reg(frame@, 25),
{
    let mut cells: Vec<u16> = Vec::new();
    let mut r: usize = 0;
    while r < 16
        invariant
            frame@.len() >= 3 + 2 * 26,
            r <= 16,
            cells@ == nonzero_regs(frame@, r as int),
        decreases 16 - r,
    {
        let mv = u16r(frame, r);
        if mv != 0 {
            cells.push(mv);
        }
        r = r + 1;
    }
    let cell_temps = vec![u16r(frame, 16), u16r(frame, 17), u16r(frame, 18), u16r(frame, 19)];
    PackCells { cells, cell_temps, ambient_temp: u16r(frame, 24), power_temp: u16r(frame, 25) }
}

/// The model name of a pack with `cells` cells in series: `Seplos <n>S`.
pub fn model_name(cells: usize) -> (s: String)
    ensures
        s@ == "Seplos "@ + crate::text::decimal(cells as nat) + "S"@,
{
    let mut out: Vec<char> = Vec::new();
    push_str(&mut out, "Seplos ");
    push_decimal(&mut out, cells as u64);
    push_str(&mut out, "S");
    string_from_chars(out.as_slice())
}

} // verus!
