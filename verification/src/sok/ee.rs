//! SOK `0xEE`-command wire protocol (older 12V packs). A request is six
//! bytes:
//!
//! ```text
//!   EE <cmd> 00 00 00 <crc8>
//! ```
//!
//! where `crc8` is CRC-8/MAXIM (Dallas) over the five preceding bytes. The
//! device answers with frames tagged by a 2-byte big-endian header (`0xCCF0`
//! info, `0xCCF2` temperature, `0xCCF3` capacity, `0xCCF4` cells).
//!
//! The field decoders here return the raw wire integers; scaling to volts,
//! amps and amp-hours is a unit conversion left to the caller.

use std::collections::HashMap;
use vstd::prelude::*;
use vstd::std_specs::hash::group_hash_axioms;

verus! {

broadcast use group_hash_axioms;

/// Read info (current, cycles, SOC): answers `0xCCF0` and `0xCCF2`.
pub const CMD_INFO: u8 = 0xC1;

/// Read detail (capacity, cells): answers `0xCCF3` and `0xCCF4`.
pub const CMD_DETAIL: u8 = 0xC2;

pub const HDR_INFO: u16 = 0xCCF0;

pub const HDR_TEMP: u16 = 0xCCF2;

pub const HDR_CAP: u16 = 0xCCF3;

pub const HDR_CELLS: u16 = 0xCCF4;

/// One shift step of CRC-8/MAXIM (poly 0x31 reflected = 0x8C).
pub open spec fn crc8_shift(c: u8) -> u8 {
    if c & 1 != 0 {
        (c >> 1) ^ 0x8C
    } else {
        c >> 1
    }
}

pub open spec fn crc8_shifts(c: u8, k: nat) -> u8
    decreases k,
{
    if k == 0 {
        c
    } else {
        crc8_shift(crc8_shifts(c, (k - 1) as nat))
    }
}

/// CRC-8/MAXIM (init 0, no final xor) of a byte sequence.
pub open spec fn crc8_of(s: Seq<u8>) -> u8
    decreases s.len(),
{
    if s.len() == 0 {
        0
    } else {
        crc8_shifts(crc8_of(s.drop_last()) ^ s.last(), 8)
    }
}

/// CRC-8/MAXIM (Dallas): poly 0x31 reflected (0x8C), init 0, no final xor.
pub fn crc8(data: &[u8]) -> (crc: u8)
    ensures
        crc == crc8_of(data@),
{
    let mut crc: u8 = 0;
    let mut i: usize = 0;
    while i < data.len()
        invariant
            i <= data.len(),
            crc == crc8_of(data@.subrange(0, i as int)),
        decreases data.len() - i,
    {
        crc ^= data[i];
        let ghost start = crc;
        let mut k: usize = 0;
        while k < 8
            invariant
                k <= 8,
                crc == crc8_shifts(start, k as nat),
            decreases 8 - k,
        {
            crc = if crc & 1 != 0 {
                (crc >> 1) ^ 0x8C
            } else {
                crc >> 1
            };
            k = k + 1;
        }
        assert(data@.subrange(0, i + 1).drop_last() == data@.subrange(0, i as int));
        i = i + 1;
    }
    assert(data@.subrange(0, data.len() as int) == data@);
    crc
}

/// The six-byte request for `cmd`.
pub open spec fn command_frame(cmd: u8) -> Seq<u8> {
    let head = seq![0xEEu8, cmd, 0u8, 0u8, 0u8];
    head.push(crc8_of(head))
}

/// Build a six-byte command frame with its CRC.
pub fn command(cmd: u8) -> (frame: [u8; 6])
    ensures
        frame@ == command_frame(cmd),
{
    let head: [u8; 5] = [0xEE, cmd, 0x00, 0x00, 0x00];
    let crc = crc8(&head);
    let frame: [u8; 6] = [0xEE, cmd, 0x00, 0x00, 0x00, crc];
    assert(head@ == seq![0xEEu8, cmd, 0u8, 0u8, 0u8]);
    assert(frame@ == command_frame(cmd));
    frame
}

/// The 2-byte big-endian header of a frame.
pub open spec fn header_of(frame: Seq<u8>) -> Option<u16> {
    if frame.len() >= 2 {
        Some((((frame[0] as u16) << 8) | (frame[1] as u16)) as u16)
    } else {
        None
    }
}

/// The 2-byte big-endian response header, if the frame is long enough.
pub fn header(frame: &[u8]) -> (r: Option<u16>)
    ensures
        r == header_of(frame@),
{
    if frame.len() >= 2 {
        Some(((frame[0] as u16) << 8) | frame[1] as u16)
    } else {
        None
    }
}

/// Little-endian unsigned 16-bit value at `i`.
pub open spec fn le16(d: Seq<u8>, i: int) -> int {
    d[i] + 256 * d[i + 1]
}

/// Little-endian signed 24-bit value at `i` (two's complement).
pub open spec fn le24_signed(d: Seq<u8>, i: int) -> int {
    let v = d[i] + 256 * d[i + 1] + 65536 * d[i + 2];
    if v >= 0x80_0000 {
        v - 0x100_0000
    } else {
        v
    }
}

/// Big-endian unsigned 24-bit value at `i`.
pub open spec fn be24(d: Seq<u8>, i: int) -> int {
    65536 * d[i] + 256 * d[i + 1] + d[i + 2]
}

pub fn u16_le(d: &[u8], i: usize) -> (r: u16)
    requires
        i + 1 < d.len(),
    ensures
        r == le16(d@, i as int),
{
    let lo = d[i] as u16;
    let hi = d[i + 1] as u16;
    let r = lo | (hi << 8);
    assert(r == lo + 256 * hi) by (bit_vector)
        requires
            lo < 256,
            hi < 256,
            r == lo | (hi << 8),
    ;
    r
}

pub fn i16_le(d: &[u8], i: usize) -> (r: i16)
    requires
        i + 1 < d.len(),
    ensures
        r == (if le16(d@, i as int) >= 0x8000 {
            le16(d@, i as int) - 0x10000
        } else {
            le16(d@, i as int)
        }),
{
    let v = u16_le(d, i);
    let r = v as i16;
    assert(r == (if v >= 0x8000 { v - 0x10000 } else { v as int })) by (bit_vector)
        requires
            r == v as i16,
    ;
    r
}

pub fn i24_le(d: &[u8], i: usize) -> (r: i32)
    requires
        i + 2 < d.len(),
    ensures
        r == le24_signed(d@, i as int),
{
    let b0 = d[i] as i32;
    let b1 = d[i + 1] as i32;
    let b2 = d[i + 2] as i32;
    let v = b0 | (b1 << 8) | (b2 << 16);
    assert(v == b0 + 256 * b1 + 65536 * b2) by (bit_vector)
        requires
            0 <= b0 < 256,
            0 <= b1 < 256,
            0 <= b2 < 256,
            v == b0 | (b1 << 8) | (b2 << 16),
    ;
    assert((v & 0x0080_0000 != 0) == (v >= 0x80_0000)) by (bit_vector)
        requires
            0 <= v < 0x100_0000,
    ;
    if v & 0x0080_0000 != 0 {
        v - 0x0100_0000
    } else {
        v
    }
}

pub fn u24_be(d: &[u8], i: usize) -> (r: u32)
    requires
        i + 2 < d.len(),
    ensures
        r == be24(d@, i as int),
{
    let b0 = d[i] as u32;
    let b1 = d[i + 1] as u32;
    let b2 = d[i + 2] as u32;
    let r = (b0 << 16) | (b1 << 8) | b2;
    assert(r == 65536 * b0 + 256 * b1 + b2) by (bit_vector)
        requires
            b0 < 256,
            b1 < 256,
            b2 < 256,
            r == (b0 << 16) | (b1 << 8) | b2,
    ;
    r
}

/// Info frame (`0xCCF0`) fields: current in mA (signed 24-bit LE at byte 5),
/// cycles (LE at 14) and SOC in % (LE at 16). Frames shorter than 20 bytes
/// are rejected.
pub fn info_fields(buf: &[u8]) -> (r: Option<(i32, u16, u16)>)
    ensures
        match r {
            Some((ma, cycles, soc)) => buf.len() >= 20 && ma == le24_signed(buf@, 5) && cycles
                == le16(buf@, 14) && soc == le16(buf@, 16),
            None => buf.len() < 20,
        },
{
    if buf.len() < 20 {
        return None;
    }
    Some((i24_le(buf, 5), u16_le(buf, 14), u16_le(buf, 16)))
}

/// Temperature frame (`0xCCF2`): whole °C as a signed 16-bit LE at byte 5.
pub fn temp_field(buf: &[u8]) -> (r: Option<i16>)
    ensures
        match r {
            Some(t) => buf.len() >= 20 && t == (if le16(buf@, 5) >= 0x8000 {
                le16(buf@, 5) - 0x10000
            } else {
                le16(buf@, 5)
            }),
            None => buf.len() < 20,
        },
{
    if buf.len() < 20 {
        return None;
    }
    Some(i16_le(buf, 5))
}

/// Capacity frame (`0xCCF3`): rated capacity in 1/128 Ah, big-endian 24-bit
/// at byte 5.
pub fn capacity_field(buf: &[u8]) -> (r: Option<u32>)
    ensures
        match r {
            Some(c) => buf.len() >= 20 && c == be24(buf@, 5),
            None => buf.len() < 20,
        },
{
    if buf.len() < 20 {
        return None;
    }
    Some(u24_be(buf, 5))
}

/// Cell `k` (0..4) in mV after reading blocks `0..x` of a cells frame: each
/// block is `[_, idx, mv_lo, mv_hi]` from byte 2, `idx` in 1..=4 names the
/// cell it fills; later blocks win.
pub open spec fn cells_after(buf: Seq<u8>, x: int, k: int) -> u16
    decreases x,
{
    if x <= 0 {
        0
    } else {
        let idx = buf[2 + (x - 1) * 4] as int;
        if 1 <= idx <= 4 && idx - 1 == k {
            le16(buf, 3 + (x - 1) * 4) as u16
        } else {
            cells_after(buf, x - 1, k)
        }
    }
}

/// Cells frame (`0xCCF4`): four cell voltages in mV, each tagged by its
/// index; cells no block names stay 0.
pub fn cells_field(buf: &[u8]) -> (r: Option<[u16; 4]>)
    ensures
        match r {
            Some(cells) => buf.len() >= 20 && forall|k: int|
                0 <= k < 4 ==> cells@[k] == cells_after(buf@, 4, k),
            None => buf.len() < 20,
        },
{
    if buf.len() < 20 {
        return None;
    }
    let mut cells: [u16; 4] = [0u16; 4];
    let mut x: usize = 0;
    while x < 4
        invariant
            buf.len() >= 20,
            x <= 4,
            forall|k: int| 0 <= k < 4 ==> cells@[k] == cells_after(buf@, x as int, k),
        decreases 4 - x,
    {
        let idx = buf[2 + x * 4] as usize;
        if 1 <= idx && idx <= 4 {
            let v = u16_le(buf, 3 + x * 4);
            cells[idx - 1] = v;
        }
        x = x + 1;
    }
    Some(cells)
}

/// The response frames captured for the requests of one read, keyed by
/// their header; a later frame with the same header replaces the earlier one.
pub struct FrameSet {
    frames: HashMap<u16, Vec<u8>>,
}

impl View for FrameSet {
    type V = Map<u16, Seq<u8>>;

    closed spec fn view(&self) -> Map<u16, Seq<u8>> {
        self.frames@.map_values(|v: Vec<u8>| v@)
    }
}

/// Every wanted header has a frame.
pub open spec fn has_all_spec(m: Map<u16, Seq<u8>>, wanted: Seq<u16>) -> bool {
    forall|i: int| 0 <= i < wanted.len() ==> m.contains_key(#[trigger] wanted[i])
}

impl FrameSet {
    pub fn new() -> (s: Self)
        ensures
            s@ == Map::<u16, Seq<u8>>::empty(),
    {
        let s = FrameSet { frames: HashMap::new() };
        assert(s@ =~= Map::<u16, Seq<u8>>::empty());
        s
    }

    /// Keep a received frame when its header is one of `wanted`; anything
    /// else (an empty or unrelated frame) is dropped.
    pub fn offer(&mut self, frame: Vec<u8>, wanted: &[u16])
        ensures
            final(self)@ == (match header_of(frame@) {
                Some(h) => if wanted@.contains(h) {
                    old(self)@.insert(h, frame@)
                } else {
                    old(self)@
                },
                None => old(self)@,
            }),
    {
        match header(frame.as_slice()) {
            Some(h) => {
                let mut i: usize = 0;
                let mut found = false;
                while i < wanted.len()
                    invariant
                        i <= wanted@.len(),
                        found == exists|j: int| 0 <= j < i && wanted@[j] == h,
                    decreases wanted@.len() - i,
                {
                    if wanted[i] == h {
                        found = true;
                    }
                    i = i + 1;
                }
                if found {
                    let ghost f = frame@;
                    self.frames.insert(h, frame);
                    assert(self@ =~= old(self)@.insert(h, f));
                } else {
                    assert(!wanted@.contains(h));
                }
            },
            None => {},
        }
    }

    /// Whether every wanted header has been captured.
    pub fn has_all(&self, wanted: &[u16]) -> (r: bool)
        ensures
            r == has_all_spec(self@, wanted@),
    {
        let mut i: usize = 0;
        while i < wanted.len()
            invariant
                i <= wanted@.len(),
                forall|j: int| 0 <= j < i ==> self@.contains_key(#[trigger] wanted@[j]),
            decreases wanted@.len() - i,
        {
            if !self.frames.contains_key(&wanted[i]) {
                return false;
            }
            i = i + 1;
        }
        true
    }

    /// The frame captured under a header.
    pub fn get(&self, hdr: u16) -> (r: Option<&Vec<u8>>)
        ensures
            match r {
                Some(f) => self@.contains_key(hdr) && f@ == self@[hdr],
                None => !self@.contains_key(hdr),
            },
    {
        self.frames.get(&hdr)
    }
}

/// The raw quantities of one `0xEE` snapshot.
#[derive(Debug, Clone, Copy)]
pub struct EeSnapshot {
    /// Current in mA (+ charge / − discharge).
    pub current_ma: i32,
    pub cycles: u16,
    /// State of charge, %.
    pub soc: u16,
    /// Temperature, whole °C.
    pub temperature: i16,
    /// Rated capacity, 1/128 Ah.
    pub capacity: u32,
    /// Cell voltages, mV.
    pub cells: [u16; 4],
}

/// Assemble a snapshot from the four collected response frames: `None` when
/// any of them is shorter than 20 bytes.
pub fn snapshot(info: &[u8], temp: &[u8], capacity: &[u8], cells: &[u8]) -> (r: Option<EeSnapshot>)
    ensures
        match r {
            Some(s) => {
                &&& info.len() >= 20 && temp.len() >= 20 && capacity.len() >= 20 && cells.len()
                    >= 20
                &&& s.current_ma == le24_signed(info@, 5)
                &&& s.cycles == le16(info@, 14)
                &&& s.soc == le16(info@, 16)
                &&& s.temperature == (if le16(temp@, 5) >= 0x8000 {
                    le16(temp@, 5) - 0x10000
                } else {
                    le16(temp@, 5)
                })
                &&& s.capacity == be24(capacity@, 5)
                &&& forall|k: int| 0 <= k < 4 ==> s.cells@[k] == cells_after(cells@, 4, k)
            },
            None => info.len() < 20 || temp.len() < 20 || capacity.len() < 20 || cells.len() < 20,
        },
{
    let (current_ma, cycles, soc) = match info_fields(info) {
        Some(t) => t,
        None => {
            return None;
        },
    };
    let temperature = match temp_field(temp) {
        Some(t) => t,
        None => {
            return None;
        },
    };
    let cap = match capacity_field(capacity) {
        Some(c) => c,
        None => {
            return None;
        },
    };
    let cv = match cells_field(cells) {
        Some(c) => c,
        None => {
            return None;
        },
    };
    Some(EeSnapshot { current_ma, cycles, soc, temperature, capacity: cap, cells: cv })
}

} // verus!
