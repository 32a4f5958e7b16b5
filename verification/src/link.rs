//! Link-layer targets of the JK transports: how a target string names a CAN
//! interface and ids, a serial port and baud rate, or a BLE peripheral and the
//! characteristic to talk through; how a CAN frame is framed and filtered; and
//! the per-pack address that JK-PB units advertise in their BLE names.
//!
//! Opening sockets, ports and peripherals is the host's business.

use crate::error::Error;
use crate::text::{
    chars_of, parse_unsigned, parse_unsigned_chars, push_all, push_str, runs_view, split_at_char,
    split_char, starts_with, starts_with_chars, string_from_chars, trim, trim_chars,
    trim_start_matches, trim_start_matching,
};
use vstd::prelude::*;
use vstd::string::StringSliceAdditionalSpecFns;

verus! {

/// 29-bit extended CAN identifier mask.
pub const CAN_EFF_MASK: u32 = 0x1FFF_FFFF;

/// A SocketCAN target: interface and the BMS's response / request ids.
#[derive(Debug, Clone)]
pub struct CanTarget {
    pub interface: String,
    pub rx_id: u32,
    pub tx_id: u32,
}

/// The error text of a CAN target with fewer than three parts.
pub open spec fn can_format_message() -> Seq<char> {
    "Invalid CAN target format. Use: can:can0,rx_id,tx_id"@
}

/// A CAN id field: hex digits after any number of leading `0x`.
pub open spec fn can_id_value(field: Seq<char>) -> Option<nat> {
    parse_unsigned(trim_start_matches(field, seq!['0', 'x']), 16, 0xFFFF_FFFF)
}

fn parse_can_id(field: &[char]) -> (r: Option<u32>)
    ensures
        match r {
            Some(v) => can_id_value(field@) == Some(v as nat),
            None => can_id_value(field@) is None,
        },
{
    let ox: [char; 2] = ['0', 'x'];
    assert(ox@ == seq!['0', 'x']);
    let digits = trim_start_matching(field, &ox);
    match parse_unsigned_chars(digits, 16, 0xFFFF_FFFF) {
        Some(v) => Some(v as u32),
        None => None,
    }
}

impl CanTarget {
    pub fn new(interface: &str, rx_id: u32, tx_id: u32) -> (t: Self)
        ensures
            t.interface@ == interface@,
            t.rx_id == rx_id,
            t.tx_id == tx_id,
    {
        CanTarget { interface: interface.to_string(), rx_id, tx_id }
    }

    /// Parse a `can:can0,rx_id,tx_id` (or `can0,rx_id,tx_id`) target: the
    /// interface loses every leading `can:`, the ids are hex with optional
    /// `0x` prefixes; parts after the third are ignored.
    pub fn from_target(target: &str) -> (r: Result<Self, Error>)
        ensures
            ({
                let parts = split_at_char(target@, ',');
                if parts.len() < 3 {
                    r matches Err(Error::Transport(m)) && m@ == can_format_message()
                } else if can_id_value(parts[1]) is None {
                    r matches Err(Error::Transport(m)) && m@ == "Invalid RX CAN ID"@
                } else if can_id_value(parts[2]) is None {
                    r matches Err(Error::Transport(m)) && m@ == "Invalid TX CAN ID"@
                } else {
                    r matches Ok(t) && t.interface@ == trim_start_matches(
                        parts[0],
                        seq!['c', 'a', 'n', ':'],
                    ) && t.rx_id == can_id_value(parts[1]).unwrap() && t.tx_id == can_id_value(
                        parts[2],
                    ).unwrap()
                }
            }),
    {
        let chars = chars_of(target);
        let parts = split_char(chars.as_slice(), ',');
        assert(runs_view(parts@).len() == parts@.len());
        if parts.len() < 3 {
            return Err(Error::Transport("Invalid CAN target format. Use: can:can0,rx_id,tx_id".to_string()));
        }
        assert(runs_view(parts@)[0] == parts@[0]@);
        assert(runs_view(parts@)[1] == parts@[1]@);
        assert(runs_view(parts@)[2] == parts@[2]@);
        let prefix: [char; 4] = ['c', 'a', 'n', ':'];
        assert(prefix@ == seq!['c', 'a', 'n', ':']);
        let iface = trim_start_matching(parts[0].as_slice(), &prefix);
        let rx = match parse_can_id(parts[1].as_slice()) {
            Some(v) => v,
            None => {
                return Err(Error::Transport("Invalid RX CAN ID".to_string()));
            },
        };
        let tx = match parse_can_id(parts[2].as_slice()) {
            Some(v) => v,
            None => {
                return Err(Error::Transport("Invalid TX CAN ID".to_string()));
            },
        };
        Ok(CanTarget { interface: string_from_chars(iface), rx_id: rx, tx_id: tx })
    }

    /// The frame that carries a write: the request id in the 29-bit space and
    /// at most the first 8 bytes (a CAN frame's payload limit).
    pub fn tx_frame(&self, data: &[u8]) -> (f: (u32, Vec<u8>))
        ensures
            f.0 == self.tx_id & CAN_EFF_MASK,
            f.1@ == data@.subrange(0, if data@.len() < 8 { data@.len() as int } else { 8 }),
    {
        let n: usize = if data.len() < 8 { data.len() } else { 8 };
        let mut payload: Vec<u8> = Vec::new();
        let mut i: usize = 0;
        while i < n
            invariant
                n <= data@.len(),
                i <= n,
                payload@ == data@.subrange(0, i as int),
            decreases n - i,
        {
            payload.push(data[i]);
            i = i + 1;
            assert(payload@ == data@.subrange(0, i as int));
        }
        (self.tx_id & CAN_EFF_MASK, payload)
    }

    /// Only frames from the BMS's response id are read.
    pub fn accepts(&self, frame_id: u32) -> (r: bool)
        ensures
            r == (frame_id & CAN_EFF_MASK == self.rx_id & CAN_EFF_MASK),
    {
        frame_id & CAN_EFF_MASK == self.rx_id & CAN_EFF_MASK
    }
}

/// A serial target: port and baud rate.
#[derive(Debug, Clone)]
pub struct SerialTarget {
    pub port: String,
    pub baud: u32,
}

impl SerialTarget {
    pub fn new(port: &str, baud: u32) -> (t: Self)
        ensures
            t.port@ == port@,
            t.baud == baud,
    {
        SerialTarget { port: port.to_string(), baud }
    }

    /// Parse a `port[,baud]` target; a missing or unreadable baud rate is
    /// 9600.
    pub fn from_target(target: &str) -> (t: Self)
        ensures
            ({
                let parts = split_at_char(target@, ',');
                &&& t.port@ == parts[0]
                &&& t.baud == (if parts.len() >= 2 {
                    match parse_unsigned(parts[1], 10, 0xFFFF_FFFF) {
                        Some(b) => b,
                        None => 9600,
                    }
                } else {
                    9600
                })
            }),
    {
        let chars = chars_of(target);
        let parts = split_char(chars.as_slice(), ',');
        assert(runs_view(parts@).len() == parts@.len());
        assert(runs_view(parts@)[0] == parts@[0]@);
        let port = string_from_chars(parts[0].as_slice());
        let mut baud: u32 = 9600;
        if parts.len() >= 2 {
            assert(runs_view(parts@)[1] == parts@[1]@);
            match parse_unsigned_chars(parts[1].as_slice(), 10, 0xFFFF_FFFF) {
                Some(b) => {
                    baud = b as u32;
                },
                None => {},
            }
        }
        SerialTarget { port, baud }
    }
}

/// The Bluetooth SIG base UUID tail that completes a 16-bit alias.
pub open spec fn uuid_tail() -> Seq<char> {
    "-0000-1000-8000-00805f9b34fb"@
}

/// The UTF-8 length of a text.
pub open spec fn byte_len(s: Seq<char>) -> nat {
    vstd::utf8::encode_utf8(s).len()
}

/// The notify/write characteristic a transport option names: a 16-bit alias
/// (`ffe1` or `0xffe1`) completed with the base UUID, a full 36-character
/// UUID as given, and `0000ffe1-…` (the JK default) when there is no option.
pub open spec fn char_uuid_spec(topts: Option<Seq<char>>) -> Seq<char> {
    match topts {
        None => "0000ffe1-0000-1000-8000-00805f9b34fb"@,
        Some(o) => {
            let t = trim(o);
            if starts_with(t, seq!['0', 'x']) {
                let hex = t.subrange(2, t.len() as int);
                if byte_len(hex) <= 4 {
                    "0000"@ + hex + uuid_tail()
                } else {
                    t
                }
            } else if byte_len(t) == 36 && t.contains('-') {
                t
            } else {
                "0000"@ + t + uuid_tail()
            }
        },
    }
}

fn has_char(s: &[char], c: char) -> (r: bool)
    ensures
        r == s@.contains(c),
{
    let mut i: usize = 0;
    while i < s.len()
        invariant
            i <= s@.len(),
            forall|j: int| 0 <= j < i ==> s@[j] != c,
        decreases s@.len() - i,
    {
        if s[i] == c {
            return true;
        }
        i = i + 1;
    }
    false
}

fn utf8_len(s: &[char]) -> (n: usize)
    ensures
        n == byte_len(s@),
{
    let t = string_from_chars(s);
    let r = t.as_str();
    assert(r.spec_bytes() == vstd::utf8::encode_utf8(s@));
    r.as_bytes().len()
}

fn completed_alias(alias: &[char]) -> (s: String)
    ensures
        s@ == "0000"@ + alias@ + uuid_tail(),
{
    let mut out: Vec<char> = Vec::new();
    push_str(&mut out, "0000");
    push_all(&mut out, alias);
    push_str(&mut out, "-0000-1000-8000-00805f9b34fb");
    string_from_chars(out.as_slice())
}

/// The characteristic UUID text for a transport option.
pub fn char_uuid(topts: Option<&str>) -> (s: String)
    ensures
        s@ == char_uuid_spec(match topts {
            Some(o) => Some(o@),
            None => None,
        }),
{
    match topts {
        None => "0000ffe1-0000-1000-8000-00805f9b34fb".to_string(),
        Some(o) => {
            let t = trim_chars(chars_of(o).as_slice());
            let ox: [char; 2] = ['0', 'x'];
            assert(ox@ == seq!['0', 'x']);
            if starts_with_chars(t.as_slice(), &ox) {
                let hex = crate::text::slice_range(t.as_slice(), 2, t.len());
                if utf8_len(hex) <= 4 {
                    completed_alias(hex)
                } else {
                    string_from_chars(t.as_slice())
                }
            } else if utf8_len(t.as_slice()) == 36 && has_char(t.as_slice(), '-') {
                string_from_chars(t.as_slice())
            } else {
                completed_alias(t.as_slice())
            }
        },
    }
}

/// A BLE target: the peripheral and the characteristic to talk through.
#[derive(Debug, Clone)]
pub struct BluetoothTarget {
    pub target: String,
    pub char_uuid: String,
}

impl BluetoothTarget {
    pub fn new(target: &str, topts: Option<&str>) -> (t: Self)
        ensures
            t.target@ == target@,
            t.char_uuid@ == char_uuid_spec(match topts {
                Some(o) => Some(o@),
                None => None,
            }),
    {
        BluetoothTarget { target: target.to_string(), char_uuid: char_uuid(topts) }
    }

    /// Parse a `peripheral[,characteristic]` target.
    pub fn from_target(target: &str) -> (t: Self)
        ensures
            ({
                let parts = split_at_char(target@, ',');
                &&& t.target@ == parts[0]
                &&& t.char_uuid@ == char_uuid_spec(
                    if parts.len() >= 2 {
                        Some(parts[1])
                    } else {
                        None
                    },
                )
            }),
    {
        let chars = chars_of(target);
        let parts = split_char(chars.as_slice(), ',');
        assert(runs_view(parts@).len() == parts@.len());
        assert(runs_view(parts@)[0] == parts@[0]@);
        let mac = string_from_chars(parts[0].as_slice());
        if parts.len() >= 2 {
            assert(runs_view(parts@)[1] == parts@[1]@);
            let o = string_from_chars(parts[1].as_slice());
            BluetoothTarget::new(mac.as_str(), Some(o.as_str()))
        } else {
            BluetoothTarget::new(mac.as_str(), None)
        }
    }
}

/// The last `-` of a name.
pub open spec fn last_dash(name: Seq<char>) -> Option<int> {
    if exists|i: int| 0 <= i < name.len() && name[i] == '-' {
        Some(choose|i: int| 0 <= i < name.len() && name[i] == '-' && forall|j: int| i < j < name.len() ==> name[j] != '-')
    } else {
        None
    }
}

/// An ASCII digit.
pub open spec fn is_digit(c: char) -> bool {
    '0' <= c && c <= '9'
}

/// The per-pack address of a name's trailing `-NN` suffix (exactly two ASCII
/// digits after the last `-`), e.g. `"REPT280-00"` → `0`.
pub open spec fn pack_address(name: Seq<char>) -> Option<u8> {
    match last_dash(name) {
        Some(i) => {
            let s = name.subrange(i + 1, name.len() as int);
            if s.len() == 2 && is_digit(s[0]) && is_digit(s[1]) {
                Some((10 * ((s[0] as u32) - 48) + ((s[1] as u32) - 48)) as u8)
            } else {
                None
            }
        },
        None => None,
    }
}

/// Parse the per-pack address from a device name's trailing `-NN` suffix.
pub fn parse_pack_address(name: &str) -> (r: Option<u8>)
    ensures
        r == pack_address(name@),
{
    let c = chars_of(name);
    let mut i: usize = c.len();
    while i > 0
        invariant
            i <= c@.len(),
            c@ == name@,
            forall|j: int| i <= j < c@.len() ==> c@[j] != '-',
        decreases i,
    {
        if c[i - 1] == '-' {
            let k: usize = i - 1;
            proof {
                let w = choose|m: int| 0 <= m < c@.len() && c@[m] == '-' && forall|j: int| m < j < c@.len() ==> c@[j] != '-';
                assert(0 <= k < c@.len() && c@[k as int] == '-' && forall|j: int| k < j < c@.len() ==> c@[j] != '-');
                if w < k {
                    assert(c@[k as int] != '-');
                } else if w > k {
                }
                assert(last_dash(name@) == Some(k as int));
            }
            let n = c.len();
            if n - i == 2 && '0' <= c[i] && c[i] <= '9' && '0' <= c[i + 1] && c[i + 1] <= '9' {
                let d0: u32 = c[i] as u32 - 48;
                let d1: u32 = c[i + 1] as u32 - 48;
                let ghost s = name@.subrange(k + 1, n as int);
                assert(s[0] == c@[i as int]);
                assert(s[1] == c@[i + 1]);
                return Some((10 * d0 + d1) as u8);
            }
            return None;
        }
        i = i - 1;
    }
    None
}

/// A discovered BLE device.
#[derive(Debug, Clone)]
pub struct BtDevice {
    pub name: Option<String>,
    /// Stable, platform-independent identifier of the peripheral. Use this
    /// string as the transport target: unlike the MAC address it is not
    /// zeroed out on macOS.
    pub id: String,
    pub rssi: Option<i16>,
    /// Per-pack address parsed from the `-NN` name suffix JK-PB units
    /// advertise (`"REPT280-00"` → `0`): a user-assigned label; every pack
    /// advertises and answers BLE independently. `None` without a two-digit
    /// suffix.
    pub address: Option<u8>,
}

impl BtDevice {
    /// The entry for a scanned peripheral.
    pub fn scanned(name: Option<String>, id: String, rssi: Option<i16>) -> (d: Self)
        ensures
            d.name == name,
            d.id == id,
            d.rssi == rssi,
            d.address == (match name {
                Some(n) => pack_address(n@),
                None => None,
            }),
    {
        let address = match &name {
            Some(n) => parse_pack_address(n.as_str()),
            None => None,
        };
        BtDevice { name, id, rssi, address }
    }
}


/// A peripheral is a JK BMS when it advertises the JK serial service
/// (`0xFFE0`) or carries the default `JK` name prefix (ASCII case ignored);
/// names are user-customisable, so the service is the reliable signal.
pub open spec fn is_jk(name: Seq<char>, jk_service: bool) -> bool {
    jk_service || starts_with(name.map_values(|c: char| crate::text::upper(c)), seq!['J', 'K'])
}

/// The scan entry for a peripheral, when it looks like a JK BMS; an empty
/// advertised name counts as none.
pub fn jk_scanned(name: Option<String>, id: String, rssi: Option<i16>, jk_service: bool) -> (r: Option<BtDevice>)
    ensures
        ({
            let n = match name {
                Some(s) => s@,
                None => Seq::<char>::empty(),
            };
            if is_jk(n, jk_service) {
                r matches Some(d) && d.id == id && d.rssi == rssi && d.address.is_none() && match d.name {
                    Some(x) => n.len() > 0 && x@ == n,
                    None => n.len() == 0,
                }
            } else {
                r is None
            }
        }),
{
    let n: String = match name {
        Some(s) => s,
        None => String::new(),
    };
    let c = chars_of(n.as_str());
    let ghost nv = n@;
    let mut u: Vec<char> = Vec::new();
    let mut i: usize = 0;
    while i < c.len()
        invariant
            c@ == nv,
            i <= c@.len(),
            u@ == c@.subrange(0, i as int).map_values(|c: char| crate::text::upper(c)),
        decreases c@.len() - i,
    {
        u.push(crate::cli::upper_char(c[i]));
        i = i + 1;
        assert(u@ == c@.subrange(0, i as int).map_values(|c: char| crate::text::upper(c)));
    }
    assert(c@.subrange(0, c@.len() as int) == c@);
    let jk: [char; 2] = ['J', 'K'];
    assert(jk@ == seq!['J', 'K']);
    if !(jk_service || starts_with_chars(u.as_slice(), &jk)) {
        return None;
    }
    let name = if c.len() > 0 {
        Some(n)
    } else {
        None
    };
    Some(BtDevice { name, id, rssi, address: None })
}

} // verus!
