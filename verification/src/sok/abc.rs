//! ABC-BMS wire protocol (the "ABC BMS" app): Modbus RTU over BLE (service
//! `FFF0`, notify `FFF1`, write `FFF2`), slave `0x01`, function `0x03` (read
//! holding registers), CRC-16/MODBUS on the wire (little-endian), big-endian
//! 16-bit registers.


use crate::text::{
    opt_text, remove_char, remove_chars, string_from_chars, trim, trim_chars, utf8_lossy, utf8_lossy_string,
};
use std::collections::HashMap;
use vstd::prelude::*;
use vstd::std_specs::hash::group_hash_axioms;

verus! {

broadcast use group_hash_axioms;

pub const UNIT: u8 = 0x01;

pub const FUNC_READ: u8 = 0x03;

/// The telemetry register block: current/voltage/SOC/capacity/cells/temps/id.
pub const TELEMETRY_START: u16 = 0x0080;

pub const TELEMETRY_COUNT: u16 = 0x007a;

/// One shift step of CRC-16/MODBUS (poly 0xA001 reflected).
pub open spec fn crc16_shift(c: u16) -> u16 {
    if c & 1 != 0 {
        (c >> 1) ^ 0xA001
    } else {
        c >> 1
    }
}

/// `k` shift steps.
pub open spec fn crc16_shifts(c: u16, k: nat) -> u16
    decreases k,
{
    if k == 0 {
        c
    } else {
        crc16_shift(crc16_shifts(c, (k - 1) as nat))
    }
}

/// CRC-16/MODBUS register after absorbing one byte.
pub open spec fn crc16_byte(c: u16, b: u8) -> u16 {
    crc16_shifts(c ^ (b as u16), 8)
}

/// CRC-16/MODBUS (init 0xFFFF, no final xor) of a byte sequence.
pub open spec fn crc16_of(s: Seq<u8>) -> u16
    decreases s.len(),
{
    if s.len() == 0 {
        0xFFFF
    } else {
        crc16_byte(crc16_of(s.drop_last()), s.last())
    }
}

/// CRC-16/MODBUS (poly 0xA001 reflected, init 0xFFFF, no final xor).
pub fn crc16(data: &[u8]) -> (crc: u16)
    ensures
        crc == crc16_of(data@),
{
    let mut crc: u16 = 0xFFFF;
    let mut i: usize = 0;
    while i < data.len()
        invariant
            i <= data.len(),
            crc == crc16_of(data@.subrange(0, i as int)),
        decreases data.len() - i,
    {
        let ghost before = crc;
        crc ^= data[i] as u16;
        let ghost start = crc;
        let mut k: usize = 0;
        while k < 8
            invariant
                k <= 8,
                crc == crc16_shifts(start, k as nat),
            decreases 8 - k,
        {
            crc = if crc & 1 != 0 {
                (crc >> 1) ^ 0xA001
            } else {
                crc >> 1
            };
            k = k + 1;
        }
        assert(data@.subrange(0, i + 1).drop_last() == data@.subrange(0, i as int));
        i = i + 1;
    }
    assert(data@.subrange(0, data.len() as int) == data@);
    crc
}

/// The request frame for `count` holding registers from `start`.
pub open spec fn read_request(start: u16, count: u16) -> Seq<u8> {
    let head = seq![UNIT, FUNC_READ, (start >> 8) as u8, start as u8, (count >> 8) as u8, count as u8];
    let crc = crc16_of(head);
    head + seq![crc as u8, (crc >> 8) as u8]
}

/// Build a "read holding registers" request with the CRC appended
/// little-endian.
pub fn build_read(start: u16, count: u16) -> (f: [u8; 8])
    ensures
        f@ == read_request(start, count),
{
    let head: [u8; 6] = [UNIT, FUNC_READ, (start >> 8) as u8, start as u8, (count >> 8) as u8, count as u8];
    let crc = crc16(&head);
    let f: [u8; 8] = [head[0], head[1], head[2], head[3], head[4], head[5], crc as u8, (crc >> 8) as u8];
    assert(head@ == seq![UNIT, FUNC_READ, (start >> 8) as u8, start as u8, (count >> 8) as u8, count as u8]);
    assert(f@ == read_request(start, count));
    f
}

/// Total expected length of a response, once enough of it is buffered to
/// tell: an exception frame is 5 bytes, a data frame `3 + byte count + 2`.
pub open spec fn expected_len(buf: Seq<u8>) -> Option<int> {
    if buf.len() < 2 {
        None
    } else if buf[1] & 0x80 != 0 {
        Some(5)
    } else if buf.len() < 3 {
        None
    } else {
        Some(3 + buf[2] + 2)
    }
}

/// Total expected length of a response, or `None` while the byte-count byte
/// is still missing.
pub fn response_len(buf: &[u8]) -> (r: Option<usize>)
    ensures
        match r {
            Some(n) => expected_len(buf@) == Some(n as int),
            None => expected_len(buf@) is None,
        },
{
    if buf.len() < 2 {
        return None;
    }
    if buf[1] & 0x80 != 0 {
        return Some(5);
    }
    if buf.len() < 3 {
        return None;
    }
    Some(3 + buf[2] as usize + 2)
}

/// The CRC carried by the last two bytes of a frame (little-endian).
pub open spec fn carried_crc(frame: Seq<u8>) -> u16 {
    ((frame[frame.len() - 2] as u16) | ((frame[frame.len() - 1] as u16) << 8)) as u16
}

/// The frame's CRC matches its content.
pub open spec fn crc_ok(frame: Seq<u8>) -> bool {
    crc16_of(frame.subrange(0, frame.len() - 2)) == carried_crc(frame)
}

/// Register data bytes of a response: `byte count` bytes after the header,
/// capped by what the frame actually holds.
pub open spec fn data_len(frame: Seq<u8>) -> int {
    let bc = frame[2] as int;
    let avail = frame.len() - 5;
    if bc < avail {
        bc
    } else {
        avail
    }
}

/// Why a response is rejected, in the order the checks are made.
pub open spec fn response_error(frame: Seq<u8>) -> Option<Seq<char>> {
    if frame.len() < 5 {
        Some("frame too short"@)
    } else if !crc_ok(frame) {
        Some("crc mismatch"@)
    } else if frame[1] & 0x80 != 0 {
        Some("modbus exception"@)
    } else if frame[1] != FUNC_READ {
        Some("unexpected function code"@)
    } else if data_len(frame) % 2 != 0 {
        Some("odd register byte count"@)
    } else {
        None
    }
}

/// Register `i` of the response data (big-endian).
pub open spec fn register_at(frame: Seq<u8>, i: int) -> u16 {
    (((frame[3 + 2 * i] as u16) << 8) | (frame[3 + 2 * i + 1] as u16)) as u16
}

/// The registers of an accepted response, keyed by address.
pub open spec fn response_registers(frame: Seq<u8>, start: u16) -> Map<u16, u16> {
    Map::new(
        |a: u16| start <= a && (a - start) < data_len(frame) / 2,
        |a: u16| register_at(frame, a - start),
    )
}

/// Verify the CRC and decode a response frame into `address -> value`, where
/// the first register is at `start`.
pub fn parse_response(frame: &[u8], start: u16) -> (r: Result<HashMap<u16, u16>, &'static str>)
    requires
        frame.len() >= 5 && response_error(frame@) is None ==> start + data_len(frame@) / 2
            <= 0x10000,
    ensures
        match r {
            Ok(regs) => response_error(frame@) is None && regs@ == response_registers(frame@, start),
            Err(e) => response_error(frame@) == Some(e@),
        },
{
    proof {
        reveal_strlit("frame too short");
    }
    if frame.len() < 5 {
        return Err("frame too short");
    }
    let n = frame.len();
    let expected = crc16(crate::text::slice_range(frame, 0, n - 2));
    let got: u16 = (frame[n - 2] as u16) | ((frame[n - 1] as u16) << 8);
    if expected != got {
        return Err("crc mismatch");
    }
    if frame[1] & 0x80 != 0 {
        return Err("modbus exception");
    }
    if frame[1] != FUNC_READ {
        return Err("unexpected function code");
    }
    let byte_count = frame[2] as usize;
    let avail = n - 5;
    let len = if byte_count < avail {
        byte_count
    } else {
        avail
    };
    if len % 2 != 0 {
        return Err("odd register byte count");
    }
    let mut regs: HashMap<u16, u16> = HashMap::new();
    let pairs = len / 2;
    let mut i: usize = 0;
    while i < pairs
        invariant
            n == frame.len(),
            n >= 5,
            len == data_len(frame@),
            pairs == len / 2,
            start + pairs <= 0x10000,
            i <= pairs,
            regs@ == Map::new(
                |a: u16| start <= a && (a - start) < i,
                |a: u16| register_at(frame@, a - start),
            ),
        decreases pairs - i,
    {
        let addr: u16 = start + i as u16;
        let val: u16 = ((frame[3 + 2 * i] as u16) << 8) | frame[3 + 2 * i + 1] as u16;
        regs.insert(addr, val);
        i = i + 1;
        assert(regs@ =~= Map::new(
            |a: u16| start <= a && (a - start) < i,
            |a: u16| register_at(frame@, a - start),
        ));
    }
    assert(regs@ =~= response_registers(frame@, start));
    Ok(regs)
}

/// An unsigned register, `0xFFFF` meaning "not available".
pub open spec fn reg_u(regs: Map<u16, u16>, addr: u16) -> Option<u16> {
    if regs.contains_key(addr) && regs[addr] != 0xFFFF {
        Some(regs[addr])
    } else {
        None
    }
}

/// A signed register (two's complement).
pub open spec fn reg_i(regs: Map<u16, u16>, addr: u16) -> Option<i16> {
    if regs.contains_key(addr) {
        Some(regs[addr] as i16)
    } else {
        None
    }
}

/// Unsigned register value, `None` when absent or `0xFFFF`.
pub fn u(regs: &HashMap<u16, u16>, addr: u16) -> (r: Option<u16>)
    ensures
        r == reg_u(regs@, addr),
{
    match regs.get(&addr) {
        Some(v) => if *v != 0xFFFF {
            Some(*v)
        } else {
            None
        },
        None => None,
    }
}

/// Signed register value, `None` when absent.
pub fn i(regs: &HashMap<u16, u16>, addr: u16) -> (r: Option<i16>)
    ensures
        r == reg_i(regs@, addr),
{
    match regs.get(&addr) {
        Some(v) => Some(*v as i16),
        None => None,
    }
}

/// A register that holds a plausible cell voltage in mV.
pub open spec fn valid_cell(regs: Map<u16, u16>, a: int) -> bool {
    0 <= a <= 0xFFFF && regs.contains_key(a as u16) && regs[a as u16] != 0xFFFF && regs[a
        as u16] != 0x8000 && regs[a as u16] >= 1000
}

/// Length of the run of valid cell registers from `start`, at most `count`.
pub open spec fn cell_run_len(regs: Map<u16, u16>, start: int, count: nat) -> nat
    decreases count,
{
    if count == 0 {
        0
    } else {
        let k = cell_run_len(regs, start, (count - 1) as nat);
        if k == count - 1 && valid_cell(regs, start + count - 1) {
            count
        } else {
            k
        }
    }
}

/// The run of cell voltages (mV) from `start`, stopping at the first invalid
/// entry or after `count` cells.
pub open spec fn cell_run(regs: Map<u16, u16>, start: int, count: nat) -> Seq<u16> {
    Seq::new(cell_run_len(regs, start, count), |j: int| regs[(start + j) as u16])
}

proof fn lemma_cell_run_len(regs: Map<u16, u16>, start: int, count: nat)
    ensures
        cell_run_len(regs, start, count) <= count,
        cell_run_len(regs, start, count) < count ==> !valid_cell(
            regs,
            start + cell_run_len(regs, start, count),
        ),
    decreases count,
{
    if count > 0 {
        lemma_cell_run_len(regs, start, (count - 1) as nat);
    }
}

/// Read a run of cell voltages (mV) from `start`, stopping at the first
/// invalid entry.
pub fn read_cells(regs: &HashMap<u16, u16>, start: u16, count: usize) -> (cells: Vec<u16>)
    requires
        start + count <= 0x10000,
    ensures
        cells@ == cell_run(regs@, start as int, count as nat),
{
    let mut cells: Vec<u16> = Vec::new();
    let mut idx: usize = 0;
    while idx < count
        invariant
            start + count <= 0x10000,
            idx <= count,
            cell_run_len(regs@, start as int, idx as nat) == idx,
            cells@ == cell_run(regs@, start as int, idx as nat),
        ensures
            idx <= count,
            cell_run_len(regs@, start as int, idx as nat) == idx,
            cells@ == cell_run(regs@, start as int, idx as nat),
            idx < count ==> !valid_cell(regs@, start + idx),
        decreases count - idx,
    {
        let a: u16 = start + idx as u16;
        match regs.get(&a) {
            Some(v) => {
                if *v != 0xFFFF && *v != 0x8000 && *v >= 1000 {
                    cells.push(*v);
                    idx = idx + 1;
                    assert(cells@ =~= cell_run(regs@, start as int, idx as nat));
                } else {
                    break;
                }
            },
            None => {
                break;
            },
        }
    }
    proof {
        lemma_cell_run_len(regs@, start as int, count as nat);
        if idx < count {
            assert(!valid_cell(regs@, start + idx));
            lemma_run_len_stops(regs@, start as int, idx as nat, count as nat);
        }
    }
    cells
}

proof fn lemma_run_len_stops(regs: Map<u16, u16>, start: int, k: nat, count: nat)
    requires
        k < count,
        cell_run_len(regs, start, k) == k,
        !valid_cell(regs, start + k),
    ensures
        cell_run_len(regs, start, count) == k,
    decreases count - k,
{
    if count == k + 1 {
    } else {
        lemma_run_len_stops(regs, start, k, (count - 1) as nat);
    }
}

/// A temperature probe register in 0.1 °C; `-1` means "not fitted".
pub open spec fn probe(regs: Map<u16, u16>, a: u16) -> Option<i16> {
    match reg_i(regs, a) {
        Some(v) => if v != -1 {
            Some(v)
        } else {
            None
        },
        None => None,
    }
}

pub open spec fn probe_list(p: Option<i16>) -> Seq<i16> {
    match p {
        Some(v) => seq![v],
        None => Seq::empty(),
    }
}

/// A temperature probe value, `None` when absent or `-1`.
pub fn probe_value(regs: &HashMap<u16, u16>, a: u16) -> (r: Option<i16>)
    ensures
        r == probe(regs@, a),
{
    match i(regs, a) {
        Some(v) => if v != -1 {
            Some(v)
        } else {
            None
        },
        None => None,
    }
}

/// Number of registers of an ASCII run from `start`: registers are taken until
/// one is absent or `0xFFFF`, at most `max`.
pub open spec fn ascii_run_len(regs: Map<u16, u16>, start: int, max: nat) -> nat
    decreases max,
{
    if max == 0 {
        0
    } else {
        let k = ascii_run_len(regs, start, (max - 1) as nat);
        let a = start + max - 1;
        if k == max - 1 && 0 <= a <= 0xFFFF && reg_u(regs, a as u16) is Some {
            max
        } else {
            k
        }
    }
}

/// The bytes of the registers `start..start+n`, high byte first.
pub open spec fn register_bytes(regs: Map<u16, u16>, start: int, n: nat) -> Seq<u8>
    decreases n,
{
    if n == 0 {
        Seq::empty()
    } else {
        let v = regs[(start + n - 1) as u16];
        register_bytes(regs, start, (n - 1) as nat) + seq![(v >> 8) as u8, v as u8]
    }
}

/// A decoded register text with its NULs dropped and surrounding whitespace
/// trimmed; `None` when nothing is left.
pub open spec fn ascii_field_text(s: Seq<char>) -> Option<Seq<char>> {
    let t = trim(remove_char(s, '\0'));
    if t.len() > 0 {
        Some(t)
    } else {
        None
    }
}

/// The text of an ASCII register run: decoded leniently, then cleaned as
/// [`ascii_field_text`] says.
pub open spec fn ascii_text(regs: Map<u16, u16>, start: int, max: nat) -> Option<Seq<char>> {
    ascii_field_text(utf8_lossy(register_bytes(regs, start, ascii_run_len(regs, start, max))))
}

/// Clean a decoded register text: drop NULs, trim whitespace, and give
/// nothing when no text is left.
pub fn ascii_field(text: &str) -> (r: Option<String>)
    ensures
        opt_text(r) == ascii_field_text(text@),
{
    let chars = crate::text::chars_of(text);
    let no_nul = remove_chars(chars.as_slice(), '\0');
    let t = trim_chars(no_nul.as_slice());
    if t.len() > 0 {
        Some(string_from_chars(t.as_slice()))
    } else {
        None
    }
}

proof fn lemma_ascii_run_stops(regs: Map<u16, u16>, start: int, k: nat, max: nat)
    requires
        k < max,
        ascii_run_len(regs, start, k) == k,
        !(0 <= start + k <= 0xFFFF && reg_u(regs, (start + k) as u16) is Some),
    ensures
        ascii_run_len(regs, start, max) == k,
    decreases max - k,
{
    if max > k + 1 {
        lemma_ascii_run_stops(regs, start, k, (max - 1) as nat);
    }
}

/// Read an ASCII string packed two bytes per register.
pub fn read_ascii(regs: &HashMap<u16, u16>, start: u16, max: u16) -> (r: Option<String>)
    requires
        start + max <= 0x10000,
    ensures
        match r {
            Some(s) => ascii_text(regs@, start as int, max as nat) == Some(s@),
            None => ascii_text(regs@, start as int, max as nat) is None,
        },
{
    let mut bytes: Vec<u8> = Vec::new();
    let mut off: u16 = 0;
    while off < max
        invariant
            start + max <= 0x10000,
            off <= max,
            ascii_run_len(regs@, start as int, off as nat) == off,
            bytes@ == register_bytes(regs@, start as int, off as nat),
        ensures
            off <= max,
            ascii_run_len(regs@, start as int, off as nat) == off,
            bytes@ == register_bytes(regs@, start as int, off as nat),
            off < max ==> reg_u(regs@, (start + off) as u16) is None,
        decreases max - off,
    {
        match u(regs, start + off) {
            Some(v) => {
                bytes.push((v >> 8) as u8);
                bytes.push(v as u8);
                off = off + 1;
                assert(bytes@ =~= register_bytes(regs@, start as int, off as nat));
            },
            None => {
                break;
            },
        }
    }
    proof {
        if off < max {
            lemma_ascii_run_stops(regs@, start as int, off as nat, max as nat);
        }
    }
    let text = utf8_lossy_string(bytes.as_slice());
    ascii_field(text.as_str())
}

/// The raw registers of the ABC telemetry block that the pack snapshot is
/// made of. Values are in wire units: centi-amps, centi-volts, %, centi-Ah,
/// mV and 0.1 °C.
pub struct AbcRegisters {
    /// `0x0080`, signed centi-amps; `-1` means "not available".
    pub current: Option<i16>,
    /// `0x0081`, centi-volts.
    pub voltage: Option<u16>,
    /// The pack voltage in mV: `0x0081` when present, else the sum of the
    /// cell voltages (0 with no cells).
    pub pack_mv: u32,
    /// `0x0082`, %.
    pub soc: Option<u16>,
    /// `0x0084`, centi-Ah.
    pub remaining: Option<u16>,
    /// `0x0085`, centi-Ah.
    pub capacity: Option<u16>,
    /// Per-cell mV: the run at `0x009b`, or at `0x0092` when that is empty.
    pub cells: Vec<u16>,
    /// The first probe (`0x0095`), 0.1 °C.
    pub t1: Option<i16>,
    /// Every fitted probe among `0x0095..=0x0098`, in order.
    pub temps: Vec<i16>,
    pub model: Option<String>,
    pub serial: Option<String>,
}

/// The number of cells the pack reports (`0x0091`, at most 32), else 4.
pub open spec fn cell_count(regs: Map<u16, u16>) -> nat {
    match reg_u(regs, 0x0091) {
        Some(v) => if v < 32 {
            v as nat
        } else {
            32
        },
        None => 4,
    }
}

/// The sum of a list of millivolt values.
pub open spec fn mv_sum(s: Seq<u16>) -> int
    decreases s.len(),
{
    if s.len() == 0 {
        0
    } else {
        mv_sum(s.drop_last()) + s.last()
    }
}

/// The pack voltage in mV: the voltage register (centi-volts) when present,
/// else the sum of the cell voltages.
pub open spec fn pack_voltage_mv(regs: Map<u16, u16>) -> int {
    match reg_u(regs, 0x0081) {
        Some(v) => v * 10,
        None => mv_sum(telemetry_cells(regs)),
    }
}

proof fn lemma_mv_sum_bound(s: Seq<u16>)
    ensures
        0 <= mv_sum(s) <= s.len() * 0xFFFF,
    decreases s.len(),
{
    if s.len() > 0 {
        lemma_mv_sum_bound(s.drop_last());
    }
}

/// The sum of cell voltages (mV) of at most 32 cells.
fn cells_sum(cells: &Vec<u16>) -> (t: u32)
    requires
        cells@.len() <= 32,
    ensures
        t == mv_sum(cells@),
{
    let mut t: u32 = 0;
    let mut i: usize = 0;
    while i < cells.len()
        invariant
            i <= cells@.len() <= 32,
            t == mv_sum(cells@.subrange(0, i as int)),
        decreases cells@.len() - i,
    {
        proof {
            assert(cells@.subrange(0, i + 1).drop_last() == cells@.subrange(0, i as int));
            lemma_mv_sum_bound(cells@.subrange(0, i as int));
        }
        t = t + cells[i] as u32;
        i = i + 1;
    }
    assert(cells@.subrange(0, cells@.len() as int) == cells@);
    t
}

pub open spec fn telemetry_cells(regs: Map<u16, u16>) -> Seq<u16> {
    let first = cell_run(regs, 0x009b, cell_count(regs));
    if first.len() == 0 {
        cell_run(regs, 0x0092, cell_count(regs))
    } else {
        first
    }
}

proof fn lemma_full_run(regs: Map<u16, u16>, start: int, count: nat)
    requires
        forall|j: int| 0 <= j < count ==> #[trigger] valid_cell(regs, start + j),
    ensures
        cell_run_len(regs, start, count) == count,
    decreases count,
{
    if count > 0 {
        lemma_full_run(regs, start, (count - 1) as nat);
        assert(valid_cell(regs, start + (count - 1)));
    }
}

/// The registers from 0x009b that register 0x0091 announces all hold
/// plausible cell voltages: present, not 0xFFFF or 0x8000, at least 1000 mV.
pub open spec fn announced_cells_valid(regs: Map<u16, u16>) -> bool {
    &&& regs.contains_key(0x0091)
    &&& regs[0x0091] <= 32
    &&& forall|j: int|
        0 <= j < regs[0x0091] ==> {
            let v = #[trigger] regs[(0x009b + j) as u16];
            regs.contains_key((0x009b + j) as u16) && v != 0xFFFF && v != 0x8000 && v >= 1000
        }
}

/// When register 0x0091 announces `n <= 32` cells and the `n` registers from
/// 0x009b all hold plausible cell voltages, the cells are exactly those `n`
/// registers, in order. In every case at most 32 cells are reported.
pub proof fn lemma_announced_cells(regs: Map<u16, u16>)
    ensures
        telemetry_cells(regs).len() <= 32,
        announced_cells_valid(regs) ==> telemetry_cells(regs).len() == regs[0x0091],
        announced_cells_valid(regs) ==> forall|j: int|
            0 <= j < regs[0x0091] ==> #[trigger] telemetry_cells(regs)[j] == regs[(0x009b
                + j) as u16],
{
    lemma_cell_run_len(regs, 0x009b, cell_count(regs));
    lemma_cell_run_len(regs, 0x0092, cell_count(regs));
    if announced_cells_valid(regs) {
        let n = regs[0x0091] as nat;
        assert(cell_count(regs) == n);
        assert forall|j: int| 0 <= j < n implies #[trigger] valid_cell(regs, 0x009b + j) by {
            let v = regs[(0x009b + j) as u16];
            assert((0x009b + j) as u16 == 0x009b + j);
        }
        lemma_full_run(regs, 0x009b, n);
        if n == 0 {
            assert(cell_run(regs, 0x0092, 0) =~= Seq::<u16>::empty());
        }
        assert(telemetry_cells(regs) =~= Seq::new(n, |j: int| regs[(0x009b + j) as u16]));
    }
}

/// The pack voltage is ten times the voltage register (centi-volts to mV)
/// when that register is present and not 0xFFFF; otherwise it is the sum of
/// the reported cell voltages, 0 with no cells.
pub proof fn lemma_pack_voltage(regs: Map<u16, u16>)
    ensures
        regs.contains_key(0x0081) && regs[0x0081] != 0xFFFF ==> pack_voltage_mv(regs) == 10
            * regs[0x0081],
        !(regs.contains_key(0x0081) && regs[0x0081] != 0xFFFF) ==> pack_voltage_mv(regs)
            == mv_sum(telemetry_cells(regs)),
        telemetry_cells(regs).len() == 0 && !(regs.contains_key(0x0081) && regs[0x0081]
            != 0xFFFF) ==> pack_voltage_mv(regs) == 0,
{
}

/// `mv_sum` adds up its values: nothing sums to 0, and appending a value
/// adds it.
pub proof fn lemma_mv_sum(s: Seq<u16>, x: u16)
    ensures
        mv_sum(Seq::<u16>::empty()) == 0,
        mv_sum(s.push(x)) == mv_sum(s) + x,
{
    assert(s.push(x).drop_last() == s);
}

/// Pick the telemetry registers out of a decoded register map.
pub fn decode_registers(regs: &HashMap<u16, u16>) -> (t: AbcRegisters)
    ensures
        t.current == probe(regs@, 0x0080),
        t.voltage == reg_u(regs@, 0x0081),
        t.pack_mv == pack_voltage_mv(regs@),
        t.soc == reg_u(regs@, 0x0082),
        t.remaining == reg_u(regs@, 0x0084),
        t.capacity == reg_u(regs@, 0x0085),
        t.cells@ == telemetry_cells(regs@),
        t.t1 == probe(regs@, 0x0095),
        t.temps@ == probe_list(probe(regs@, 0x0095)) + probe_list(probe(regs@, 0x0096))
            + probe_list(probe(regs@, 0x0097)) + probe_list(probe(regs@, 0x0098)),
        opt_text(t.model) == ascii_text(regs@, 0x00dc, 10),
        opt_text(t.serial) == ascii_text(regs@, 0x00e6, 21),
{
    let count: usize = match u(regs, 0x0091) {
        Some(v) => if v < 32 {
            v as usize
        } else {
            32
        },
        None => 4,
    };
    let mut cells = read_cells(regs, 0x009b, count);
    if cells.len() == 0 {
        cells = read_cells(regs, 0x0092, count);
    }
    proof {
        lemma_cell_run_len(regs@, 0x009b, count as nat);
        lemma_cell_run_len(regs@, 0x0092, count as nat);
    }
    let voltage = u(regs, 0x0081);
    let pack_mv: u32 = match voltage {
        Some(v) => v as u32 * 10,
        None => cells_sum(&cells),
    };
    let mut temps: Vec<i16> = Vec::new();
    let addrs: [u16; 4] = [0x0095, 0x0096, 0x0097, 0x0098];
    let mut k: usize = 0;
    while k < 4
        invariant
            k <= 4,
            addrs@ == seq![0x0095u16, 0x0096u16, 0x0097u16, 0x0098u16],
            temps@ == (if k == 0 {
                Seq::<i16>::empty()
            } else if k == 1 {
                probe_list(probe(regs@, 0x0095))
            } else if k == 2 {
                probe_list(probe(regs@, 0x0095)) + probe_list(probe(regs@, 0x0096))
            } else if k == 3 {
                probe_list(probe(regs@, 0x0095)) + probe_list(probe(regs@, 0x0096)) + probe_list(
                    probe(regs@, 0x0097),
                )
            } else {
                probe_list(probe(regs@, 0x0095)) + probe_list(probe(regs@, 0x0096)) + probe_list(
                    probe(regs@, 0x0097),
                ) + probe_list(probe(regs@, 0x0098))
            }),
        decreases 4 - k,
    {
        let a = addrs[k];
        let ghost before = temps@;
        match probe_value(regs, a) {
            Some(v) => {
                temps.push(v);
            },
            None => {},
        }
        assert(temps@ =~= before + probe_list(probe(regs@, a)));
        k = k + 1;
    }
    AbcRegisters {
        current: probe_value(regs, 0x0080),
        voltage,
        pack_mv,
        soc: u(regs, 0x0082),
        remaining: u(regs, 0x0084),
        capacity: u(regs, 0x0085),
        cells,
        t1: probe_value(regs, 0x0095),
        temps,
        model: read_ascii(regs, 0x00dc, 10),
        serial: read_ascii(regs, 0x00e6, 21),
    }
}


/// A request built by [`build_read`] carries the CRC of its content.
pub proof fn lemma_request_crc_ok(start: u16, count: u16)
    ensures
        crc_ok(read_request(start, count)),
{
    let f = read_request(start, count);
    let head = seq![UNIT, FUNC_READ, (start >> 8) as u8, start as u8, (count >> 8) as u8, count as u8];
    let crc = crc16_of(head);
    assert(f.subrange(0, 6) == head);
    let lo = crc as u8;
    let hi = (crc >> 8) as u8;
    assert(f[6] == lo && f[7] == hi);
    assert(((lo as u16) | ((hi as u16) << 8)) as u16 == crc) by (bit_vector)
        requires
            lo == crc as u8,
            hi == (crc >> 8) as u8,
    ;
}

/// A response whose last byte was corrupted (any bit flipped) is rejected
/// for its CRC.
pub proof fn lemma_corrupted_response_rejected(frame: Seq<u8>, mask: u8)
    requires
        frame.len() >= 5,
        crc_ok(frame),
        mask != 0,
    ensures
        response_error(frame.update(frame.len() - 1, frame.last() ^ mask)) == Some("crc mismatch"@),
{
    let n = frame.len();
    let g = frame.update(n - 1, frame.last() ^ mask);
    assert(g.subrange(0, n - 2) == frame.subrange(0, n - 2));
    let lo = frame[n - 2];
    let hi = frame[n - 1];
    let hi2 = (hi ^ mask) as u8;
    assert(g[n - 2] == lo && g[n - 1] == hi2);
    assert(((lo as u16) | ((hi as u16) << 8)) as u16 != ((lo as u16) | ((hi2 as u16) << 8)) as u16)
        by (bit_vector)
        requires
            mask != 0,
            hi2 == hi ^ mask,
    ;
}


/// A well-formed read response carrying the register bytes `d`: unit, read
/// function, byte count, the data, and the CRC of all of it little-endian.
pub open spec fn read_response(d: Seq<u8>) -> Seq<u8> {
    let body = seq![UNIT, FUNC_READ, d.len() as u8] + d;
    let crc = crc16_of(body);
    body + seq![crc as u8, (crc >> 8) as u8]
}

proof fn lemma_addr_range(start: u16, k: nat)
    requires
        start + k <= 0x10000,
    ensures
        Set::new(|a: u16| start <= a && (a - start) < k).finite(),
        Set::new(|a: u16| start <= a && (a - start) < k).len() == k,
    decreases k,
{
    let s = Set::new(|a: u16| start <= a && (a - start) < k);
    if k == 0 {
        assert(s =~= Set::empty());
    } else {
        let prev = Set::new(|a: u16| start <= a && (a - start) < (k - 1) as nat);
        lemma_addr_range(start, (k - 1) as nat);
        let last = (start + k - 1) as u16;
        assert(s =~= prev.insert(last));
        assert(!prev.contains(last));
    }
}

/// A well-formed response with `k` registers is accepted whole: the length
/// announced by its header is its own length, it passes every check, and it
/// decodes into exactly `k` registers, the `i`-th at `start + i`, read
/// big-endian from the data.
pub proof fn lemma_response_roundtrip(d: Seq<u8>, start: u16)
    requires
        d.len() % 2 == 0,
        d.len() <= 254,
        start + d.len() / 2 <= 0x10000,
    ensures
        expected_len(read_response(d)) == Some(read_response(d).len() as int),
        response_error(read_response(d)) is None,
        response_registers(read_response(d), start).dom().finite(),
        response_registers(read_response(d), start).len() == d.len() / 2,
        forall|i: int|
            0 <= i < d.len() / 2 ==> #[trigger] response_registers(read_response(d), start)[(
            start + i) as u16] == (((d[2 * i] as u16) << 8) | (d[2 * i + 1] as u16)) as u16,
{
    let f = read_response(d);
    let n = d.len();
    let body = seq![UNIT, FUNC_READ, n as u8] + d;
    let crc = crc16_of(body);
    assert(f.len() == n + 5);
    assert(f[1] == FUNC_READ);
    assert(f[2] == n as u8);
    assert(f[2] == n);
    let three: u8 = 3;
    assert(three & 0x80 == 0) by (bit_vector)
        requires
            three == 3,
    ;
    assert(f[1] & 0x80 == 0);
    assert(f.subrange(0, f.len() - 2) =~= body);
    let lo = crc as u8;
    let hi = (crc >> 8) as u8;
    assert(f[f.len() - 2] == lo && f[f.len() - 1] == hi);
    assert(((lo as u16) | ((hi as u16) << 8)) as u16 == crc) by (bit_vector)
        requires
            lo == crc as u8,
            hi == (crc >> 8) as u8,
    ;
    assert(crc_ok(f));
    assert(data_len(f) == n);
    let k = (n / 2) as nat;
    lemma_addr_range(start, k);
    assert(response_registers(f, start).dom() =~= Set::new(|a: u16| start <= a && (a - start) < k));
    assert forall|i: int| 0 <= i < d.len() / 2 implies #[trigger] response_registers(f, start)[(
    start + i) as u16] == (((d[2 * i] as u16) << 8) | (d[2 * i + 1] as u16)) as u16 by {
        let a = (start + i) as u16;
        assert(a - start == i);
        assert(f[3 + 2 * i] == d[2 * i]);
        assert(f[3 + 2 * i + 1] == d[2 * i + 1]);
    }
}

} // verus!
