//! Backend-agnostic discovery and universal identification.
//!
//! Every battery is identified by a **hardware id**: the BLE address/UUID
//! (`ble:<id>`) or the serial port (`serial:<port>`), never by name. Users
//! refer to a battery by this id, an unambiguous prefix of it, or an
//! unambiguous part of its label; the backend is inferred, never specified.
//!
//! The scans and probes themselves are I/O and belong to the host; this module
//! holds what they decide: which probes to run on a serial port and in what
//! order, which ports are worth probing, how a scan or probe result becomes a
//! [`Discovered`], how the per-transport lists are merged, and how a query
//! resolves to one device.

use crate::error::Error;
use crate::text::{
    chars_eq, chars_of, contains, contains_chars, decimal, lower_all, lower_chars, push_decimal,
    push_str, starts_with, starts_with_chars, string_from_chars,
};
use vstd::prelude::*;

verus! {

/// Loose device class, for display and grouping.
#[derive(Debug, Clone, Copy, PartialEq, Eq, Structural)]
pub enum DeviceClass {
    Bms,
    PowerStation,
    Monitor,
}

/// How to (re)connect to a discovered device.
#[derive(Debug, Clone)]
pub enum Locator {
    /// An Anker SOLIX station, found again among the scanned peripherals by
    /// its id.
    Anker { id: String },
    JkSerial { port: String, baud: u32 },
    JkBle { id: String },
    JbdSerial { port: String, baud: u32 },
    JbdBle { id: String },
    SokBle { id: String },
    RenogyBle { id: String },
    DalySerial { port: String },
    PaceSerial { port: String, baud: u32, address: u8 },
    Vedirect { port: String },
}

/// A battery found during discovery, keyed by its hardware id.
#[derive(Debug, Clone)]
pub struct Discovered {
    /// Universal hardware id, e.g. `ble:<addr-or-uuid>` or `serial:/dev/ttyUSB0`.
    pub id: String,
    /// Friendly, non-unique label (model/advertised name).
    pub label: String,
    /// Backend that handles this device (informational only).
    pub backend: &'static str,
    pub class: DeviceClass,
    /// How to reach it again.
    pub locator: Locator,
}

/// Options controlling discovery.
#[derive(Debug, Clone)]
pub struct DiscoverOptions {
    /// Seconds to scan BLE.
    pub ble_secs: u64,
    /// Whether to enumerate and probe serial ports.
    pub probe_serial: bool,
    /// Baud rates to try when probing serial ports.
    pub serial_bauds: Vec<u32>,
    /// Per-port probe timeout (seconds).
    pub probe_timeout_secs: u64,
}

impl Default for DiscoverOptions {
    fn default() -> (o: Self)
        ensures
            o.ble_secs == 6,
            o.probe_serial,
            o.serial_bauds@ == seq![9600u32, 115200u32],
            o.probe_timeout_secs == 4,
    {
        DiscoverOptions {
            ble_secs: 6,
            probe_serial: true,
            serial_bauds: vec![9600, 115200],
            probe_timeout_secs: 4,
        }
    }
}

// --- BLE scan results --------------------------------------------------------

/// The BLE-scanned device families.
#[derive(Debug, Clone, Copy, PartialEq, Eq, Structural)]
pub enum BleFamily {
    Anker,
    Sok,
    Renogy,
    Jk,
    Jbd,
}

/// The backend name of a BLE family.
pub open spec fn ble_backend(f: BleFamily) -> Seq<char> {
    match f {
        BleFamily::Anker => "anker"@,
        BleFamily::Sok => "sok"@,
        BleFamily::Renogy => "renogy"@,
        BleFamily::Jk => "jk"@,
        BleFamily::Jbd => "jbd"@,
    }
}

/// The label of a BLE device that advertised no name.
pub open spec fn ble_default_label(f: BleFamily) -> Seq<char> {
    match f {
        BleFamily::Anker => ""@,
        BleFamily::Sok => "SOK"@,
        BleFamily::Renogy => "Renogy"@,
        BleFamily::Jk => "JK BMS"@,
        BleFamily::Jbd => "JBD BMS"@,
    }
}

/// The locator of a BLE device.
pub open spec fn ble_locator(f: BleFamily, id: Seq<char>, l: Locator) -> bool {
    match f {
        BleFamily::Anker => l matches Locator::Anker { id: i } && i@ == id,
        BleFamily::Sok => l matches Locator::SokBle { id: i } && i@ == id,
        BleFamily::Renogy => l matches Locator::RenogyBle { id: i } && i@ == id,
        BleFamily::Jk => l matches Locator::JkBle { id: i } && i@ == id,
        BleFamily::Jbd => l matches Locator::JbdBle { id: i } && i@ == id,
    }
}

/// A device seen by a BLE scan: id `ble:<peripheral id>`, labelled by its
/// advertised name or its family's default.
pub fn from_ble(family: BleFamily, id: String, name: Option<String>) -> (d: Discovered)
    ensures
        d.id@ == "ble:"@ + id@,
        d.label@ == (match name {
            Some(n) => n@,
            None => ble_default_label(family),
        }),
        d.backend@ == ble_backend(family),
        d.class == (if family == BleFamily::Anker {
            DeviceClass::PowerStation
        } else {
            DeviceClass::Bms
        }),
        ble_locator(family, id@, d.locator),
{
    let mut out: Vec<char> = Vec::new();
    push_str(&mut out, "ble:");
    push_str(&mut out, id.as_str());
    let full = string_from_chars(out.as_slice());
    let (backend, default, class): (&'static str, &'static str, DeviceClass) = match family {
        BleFamily::Anker => ("anker", "", DeviceClass::PowerStation),
        BleFamily::Sok => ("sok", "SOK", DeviceClass::Bms),
        BleFamily::Renogy => ("renogy", "Renogy", DeviceClass::Bms),
        BleFamily::Jk => ("jk", "JK BMS", DeviceClass::Bms),
        BleFamily::Jbd => ("jbd", "JBD BMS", DeviceClass::Bms),
    };
    let label = match name {
        Some(n) => n,
        None => default.to_string(),
    };
    let locator = match family {
        BleFamily::Anker => Locator::Anker { id },
        BleFamily::Sok => Locator::SokBle { id },
        BleFamily::Renogy => Locator::RenogyBle { id },
        BleFamily::Jk => Locator::JkBle { id },
        BleFamily::Jbd => Locator::JbdBle { id },
    };
    Discovered { id: full, label, backend, class, locator }
}

// --- Serial probing ------------------------------------------------------------

/// One attempt to identify what is attached to a serial port.
#[derive(Debug, Clone, Copy, PartialEq, Eq, Structural)]
pub enum Probe {
    /// JK BMS (RS-485 / UART) at a baud rate.
    Jk { baud: u32 },
    /// JBD BMS (UART) at a baud rate.
    Jbd { baud: u32 },
    /// Daly BMS (UART, fixed rate).
    Daly,
    /// PACE BMS: Modbus RTU at a baud rate and bus address.
    Pace { baud: u32, address: u8 },
    /// Victron VE.Direct, a fixed 19200 baud text stream.
    Vedirect,
}

/// The probes for a port, in order: JK at each baud rate, JBD at each baud
/// rate, then Daly, then a stand-alone PACE pack (9600 baud, address 1),
/// then VE.Direct. The first probe that reads a status wins.
pub open spec fn probe_plan_spec(bauds: Seq<u32>) -> Seq<Probe> {
    bauds.map_values(|b: u32| Probe::Jk { baud: b }) + bauds.map_values(
        |b: u32| Probe::Jbd { baud: b },
    ) + seq![Probe::Daly, Probe::Pace { baud: 9600, address: 1 }, Probe::Vedirect]
}

/// The ordered probes to run on one serial port.
pub fn probe_plan(serial_bauds: &[u32]) -> (plan: Vec<Probe>)
    ensures
        plan@ == probe_plan_spec(serial_bauds@),
{
    let mut plan: Vec<Probe> = Vec::new();
    let mut i: usize = 0;
    while i < serial_bauds.len()
        invariant
            i <= serial_bauds@.len(),
            plan@ == serial_bauds@.subrange(0, i as int).map_values(|b: u32| Probe::Jk { baud: b }),
        decreases serial_bauds@.len() - i,
    {
        plan.push(Probe::Jk { baud: serial_bauds[i] });
        i = i + 1;
        assert(plan@ == serial_bauds@.subrange(0, i as int).map_values(
            |b: u32| Probe::Jk { baud: b },
        ));
    }
    let ghost jk = plan@;
    let mut j: usize = 0;
    while j < serial_bauds.len()
        invariant
            j <= serial_bauds@.len(),
            plan@ == jk + serial_bauds@.subrange(0, j as int).map_values(
                |b: u32| Probe::Jbd { baud: b },
            ),
        decreases serial_bauds@.len() - j,
    {
        plan.push(Probe::Jbd { baud: serial_bauds[j] });
        j = j + 1;
        assert(plan@ == jk + serial_bauds@.subrange(0, j as int).map_values(
            |b: u32| Probe::Jbd { baud: b },
        ));
    }
    plan.push(Probe::Daly);
    plan.push(Probe::Pace { baud: 9600, address: 1 });
    plan.push(Probe::Vedirect);
    assert(serial_bauds@.subrange(0, serial_bauds@.len() as int) == serial_bauds@);
    plan
}

/// The backend name of a probe.
pub open spec fn probe_backend(p: Probe) -> Seq<char> {
    match p {
        Probe::Jk { .. } => "jk"@,
        Probe::Jbd { .. } => "jbd"@,
        Probe::Daly => "daly"@,
        Probe::Pace { .. } => "pace"@,
        Probe::Vedirect => "vedirect"@,
    }
}

/// The label of a probed device that reported no model.
pub open spec fn probe_default_label(p: Probe) -> Seq<char> {
    match p {
        Probe::Jk { .. } => "JK BMS"@,
        Probe::Jbd { .. } => "JBD BMS"@,
        Probe::Daly => "Daly BMS"@,
        Probe::Pace { .. } => "PACE BMS"@,
        Probe::Vedirect => "Victron VE.Direct"@,
    }
}

/// The locator of a probed device.
pub open spec fn probe_locator(p: Probe, port: Seq<char>, l: Locator) -> bool {
    match p {
        Probe::Jk { baud } => l matches Locator::JkSerial { port: q, baud: b } && q@ == port && b
            == baud,
        Probe::Jbd { baud } => l matches Locator::JbdSerial { port: q, baud: b } && q@ == port && b
            == baud,
        Probe::Daly => l matches Locator::DalySerial { port: q } && q@ == port,
        Probe::Pace { baud, address } => l matches Locator::PaceSerial {
            port: q,
            baud: b,
            address: a,
        } && q@ == port && b == baud && a == address,
        Probe::Vedirect => l matches Locator::Vedirect { port: q } && q@ == port,
    }
}

/// The device a successful probe found on `port`: id `serial:<port>`,
/// labelled by the model it reported or the probe's default.
pub fn from_probe(port: &str, probe: Probe, model: Option<String>) -> (d: Discovered)
    ensures
        d.id@ == "serial:"@ + port@,
        d.label@ == (match model {
            Some(m) => m@,
            None => probe_default_label(probe),
        }),
        d.backend@ == probe_backend(probe),
        d.class == (if probe == Probe::Vedirect {
            DeviceClass::Monitor
        } else {
            DeviceClass::Bms
        }),
        probe_locator(probe, port@, d.locator),
{
    let mut out: Vec<char> = Vec::new();
    push_str(&mut out, "serial:");
    push_str(&mut out, port);
    let id = string_from_chars(out.as_slice());
    let p = port.to_string();
    let (backend, default, class, locator): (&'static str, &'static str, DeviceClass, Locator) =
        match probe {
        Probe::Jk { baud } => ("jk", "JK BMS", DeviceClass::Bms, Locator::JkSerial { port: p, baud }),
        Probe::Jbd { baud } => (
            "jbd",
            "JBD BMS",
            DeviceClass::Bms,
            Locator::JbdSerial { port: p, baud },
        ),
        Probe::Daly => ("daly", "Daly BMS", DeviceClass::Bms, Locator::DalySerial { port: p }),
        Probe::Pace { baud, address } => (
            "pace",
            "PACE BMS",
            DeviceClass::Bms,
            Locator::PaceSerial { port: p, baud, address },
        ),
        Probe::Vedirect => (
            "vedirect",
            "Victron VE.Direct",
            DeviceClass::Monitor,
            Locator::Vedirect { port: p },
        ),
    };
    let label = match model {
        Some(m) => m,
        None => default.to_string(),
    };
    Discovered { id, label, backend, class, locator }
}

/// The name patterns of real USB/UART adapters.
pub open spec fn uart_patterns() -> Seq<Seq<char>> {
    seq!["ttyusb"@, "ttyacm"@, "usbserial"@, "usbmodem"@, "slab"@, "wchusbserial"@]
}

/// Only real USB/UART adapters are worth probing: the lower-cased port name
/// contains one of the adapter patterns. Broad patterns like `cu.` would match
/// every macOS Bluetooth serial alias and `ttys` matches pseudo-terminals;
/// probing those wastes seconds each and can never find a BMS.
pub fn looks_like_uart(name: &str) -> (r: bool)
    ensures
        r == exists|i: int|
            0 <= i < uart_patterns().len() && contains(
                lower_all(name@),
                #[trigger] uart_patterns()[i],
            ),
        r == (contains(lower_all(name@), "ttyusb"@) || contains(lower_all(name@), "ttyacm"@) || contains(lower_all(name@), "usbserial"@) || contains(lower_all(name@), "usbmodem"@) || contains(lower_all(name@), "slab"@) || contains(lower_all(name@), "wchusbserial"@)),
{
    proof {
        lemma_uart_names(name@);
    }
    let n = lower_chars(chars_of(name).as_slice());
    let pats: [&'static str; 6] = ["ttyusb", "ttyacm", "usbserial", "usbmodem", "slab", "wchusbserial"];
    assert(pats@.map_values(|s: &'static str| s@) == uart_patterns());
    let mut i: usize = 0;
    while i < 6
        invariant
            i <= 6,
            n@ == lower_all(name@),
            pats@.map_values(|s: &'static str| s@) == uart_patterns(),
            forall|j: int| 0 <= j < i ==> !contains(n@, #[trigger] uart_patterns()[j]),
        decreases 6 - i,
    {
        let p = chars_of(pats[i]);
        assert(p@ == uart_patterns()[i as int]);
        if contains_chars(n.as_slice(), p.as_slice()) {
            return true;
        }
        i = i + 1;
    }
    false
}

/// A port is probed exactly when its lower-cased name contains one of
/// `ttyusb`, `ttyacm`, `usbserial`, `usbmodem`, `slab` or `wchusbserial`.
pub proof fn lemma_uart_names(name: Seq<char>)
    ensures
        (exists|i: int|
            0 <= i < uart_patterns().len() && contains(lower_all(name), #[trigger] uart_patterns()[i]))
            <==> (contains(lower_all(name), "ttyusb"@) || contains(lower_all(name), "ttyacm"@) || contains(lower_all(name), "usbserial"@) || contains(lower_all(name), "usbmodem"@) || contains(lower_all(name), "slab"@) || contains(lower_all(name), "wchusbserial"@)),
{
    assert(uart_patterns().len() == 6);
    assert(uart_patterns()[0] == "ttyusb"@);
    assert(uart_patterns()[1] == "ttyacm"@);
    assert(uart_patterns()[2] == "usbserial"@);
    assert(uart_patterns()[3] == "usbmodem"@);
    assert(uart_patterns()[4] == "slab"@);
    assert(uart_patterns()[5] == "wchusbserial"@);
    if contains(lower_all(name), "ttyusb"@) || contains(lower_all(name), "ttyacm"@) || contains(lower_all(name), "usbserial"@) || contains(lower_all(name), "usbmodem"@) || contains(lower_all(name), "slab"@) || contains(lower_all(name), "wchusbserial"@) {
        if contains(lower_all(name), "ttyusb"@) {
            assert(contains(lower_all(name), uart_patterns()[0]));
        } else if contains(lower_all(name), "ttyacm"@) {
            assert(contains(lower_all(name), uart_patterns()[1]));
        } else if contains(lower_all(name), "usbserial"@) {
            assert(contains(lower_all(name), uart_patterns()[2]));
        } else if contains(lower_all(name), "usbmodem"@) {
            assert(contains(lower_all(name), uart_patterns()[3]));
        } else if contains(lower_all(name), "slab"@) {
            assert(contains(lower_all(name), uart_patterns()[4]));
        } else {
            assert(contains(lower_all(name), uart_patterns()[5]));
        }
    }
}

// --- Merging ---------------------------------------------------------------------

/// The ids of a device list.
pub open spec fn ids(devs: Seq<Discovered>) -> Seq<Seq<char>> {
    devs.map_values(|d: Discovered| d.id@)
}

/// Keep the first device of each id, in order.
pub open spec fn first_of_each_id(devs: Seq<Discovered>) -> Seq<Discovered>
    decreases devs.len(),
{
    if devs.len() == 0 {
        Seq::empty()
    } else {
        let kept = first_of_each_id(devs.drop_last());
        if ids(kept).contains(devs.last().id@) {
            kept
        } else {
            kept.push(devs.last())
        }
    }
}

/// Merge the per-transport scan results (in listing order) into one list with
/// one device per hardware id: the first listed wins.
pub fn merge_discovered(all: Vec<Discovered>) -> (found: Vec<Discovered>)
    ensures
        found@ == first_of_each_id(all@),
{
    let mut found: Vec<Discovered> = Vec::new();
    let mut rest = all;
    let ghost orig = rest@;
    assert(orig.len() == rest.len());
    let mut i: usize = 0;
    while rest.len() > 0
        invariant
            i + rest@.len() == orig.len(),
            orig.len() <= usize::MAX,
            rest@ == orig.subrange(i as int, orig.len() as int),
            found@ == first_of_each_id(orig.subrange(0, i as int)),
        decreases rest@.len(),
    {
        let d = rest.remove(0);
        let ghost pre = orig.subrange(0, i as int);
        assert(orig.subrange(0, i + 1).drop_last() == pre);
        assert(orig.subrange(0, i + 1).last() == d);
        let dc = chars_of(d.id.as_str());
        let mut seen = false;
        let mut j: usize = 0;
        while j < found.len()
            invariant
                j <= found@.len(),
                dc@ == d.id@,
                seen == exists|m: int| 0 <= m < j && found@[m].id@ == d.id@,
            decreases found@.len() - j,
        {
            let fc = chars_of(found[j].id.as_str());
            if chars_eq(fc.as_slice(), dc.as_slice()) {
                seen = true;
            }
            j = j + 1;
        }
        proof {
            if seen {
                let m = choose|m: int| 0 <= m < j && found@[m].id@ == d.id@;
                assert(ids(found@)[m] == d.id@);
            } else {
                assert forall|m: int| 0 <= m < ids(found@).len() implies ids(found@)[m] != d.id@ by {
                    assert(found@[m].id@ != d.id@);
                }
            }
        }
        if !seen {
            found.push(d);
        }
        i = i + 1;
        assert(rest@ == orig.subrange(i as int, orig.len() as int));
    }
    assert(orig.subrange(0, orig.len() as int) == orig);
    found
}

/// No two devices of a merged list share an id.
pub proof fn lemma_merged_ids_unique(all: Seq<Discovered>)
    ensures
        forall|i: int, j: int|
            0 <= i < j < first_of_each_id(all).len() ==> #[trigger] first_of_each_id(all)[i].id@
                != #[trigger] first_of_each_id(all)[j].id@,
        forall|i: int|
            0 <= i < all.len() ==> ids(first_of_each_id(all)).contains(#[trigger] all[i].id@),
    decreases all.len(),
{
    if all.len() > 0 {
        let d = all.drop_last();
        lemma_merged_ids_unique(d);
        let kept = first_of_each_id(d);
        let x = all.last();
        if !ids(kept).contains(x.id@) {
            let r = kept.push(x);
            assert forall|i: int, j: int| 0 <= i < j < r.len() implies #[trigger] r[i].id@
                != #[trigger] r[j].id@ by {
                if j == r.len() - 1 {
                    assert(ids(kept)[i] == kept[i].id@);
                }
            }
            assert forall|i: int| 0 <= i < all.len() implies ids(r).contains(#[trigger] all[i].id@) by {
                if i < all.len() - 1 {
                    assert(d[i] == all[i]);
                    let m = choose|m: int| 0 <= m < ids(kept).len() && ids(kept)[m] == d[i].id@;
                    assert(ids(r)[m] == ids(kept)[m]);
                } else {
                    assert(ids(r)[r.len() - 1] == x.id@);
                }
            }
        } else {
            assert forall|i: int| 0 <= i < all.len() implies ids(kept).contains(#[trigger] all[i].id@) by {
                if i < all.len() - 1 {
                    assert(d[i] == all[i]);
                }
            }
        }
    }
}


// --- Resolution --------------------------------------------------------------------

/// The first device whose id is exactly `q`.
pub open spec fn exact_hit(devs: Seq<Discovered>, q: Seq<char>) -> Option<int>
    decreases devs.len(),
{
    if devs.len() == 0 {
        None
    } else {
        match exact_hit(devs.drop_last(), q) {
            Some(i) => Some(i),
            None => if devs.last().id@ == q {
                Some(devs.len() - 1)
            } else {
                None
            },
        }
    }
}

/// Positions, in order, among the first `n` devices, of those whose id starts
/// with `q`.
pub open spec fn id_hits(devs: Seq<Discovered>, q: Seq<char>, n: nat) -> Seq<int>
    decreases n,
{
    if n == 0 {
        Seq::empty()
    } else {
        let r = id_hits(devs, q, (n - 1) as nat);
        if starts_with(devs[n - 1].id@, q) {
            r.push(n - 1)
        } else {
            r
        }
    }
}

/// Positions, in order, among the first `n` devices, of those whose label
/// contains `q`, ignoring ASCII case.
pub open spec fn label_hits(devs: Seq<Discovered>, q: Seq<char>, n: nat) -> Seq<int>
    decreases n,
{
    if n == 0 {
        Seq::empty()
    } else {
        let r = label_hits(devs, q, (n - 1) as nat);
        if contains(lower_all(devs[n - 1].label@), lower_all(q)) {
            r.push(n - 1)
        } else {
            r
        }
    }
}

/// The error text for an id prefix that matches several devices.
pub open spec fn ambiguous_id_message(q: Seq<char>, n: nat) -> Seq<char> {
    "ambiguous id prefix '"@ + q + "' matches "@ + decimal(n) + " devices"@
}

/// The error text for a label part that matches several devices.
pub open spec fn ambiguous_name_message(q: Seq<char>, n: nat) -> Seq<char> {
    "'"@ + q + "' matches "@ + decimal(n) + " devices by name; use a hardware id instead"@
}

proof fn lemma_hits_bounded(devs: Seq<Discovered>, q: Seq<char>, n: nat)
    requires
        n <= devs.len(),
    ensures
        forall|k: int| 0 <= k < id_hits(devs, q, n).len() ==> 0 <= #[trigger] id_hits(devs, q, n)[k] < n,
        forall|k: int| 0 <= k < label_hits(devs, q, n).len() ==> 0 <= #[trigger] label_hits(devs, q, n)[k] < n,
        id_hits(devs, q, n).len() <= n,
        label_hits(devs, q, n).len() <= n,
    decreases n,
{
    if n > 0 {
        lemma_hits_bounded(devs, q, (n - 1) as nat);
    }
}

proof fn lemma_exact_absent(devs: Seq<Discovered>, q: Seq<char>)
    requires
        forall|i: int| 0 <= i < devs.len() ==> #[trigger] devs[i].id@ != q,
    ensures
        exact_hit(devs, q) is None,
    decreases devs.len(),
{
    if devs.len() > 0 {
        lemma_exact_absent(devs.drop_last(), q);
    }
}

proof fn lemma_exact_first(devs: Seq<Discovered>, q: Seq<char>, i: int)
    requires
        0 <= i < devs.len(),
        devs[i].id@ == q,
        forall|j: int| 0 <= j < i ==> #[trigger] devs[j].id@ != q,
    ensures
        exact_hit(devs, q) == Some(i),
    decreases devs.len(),
{
    if i < devs.len() - 1 {
        lemma_exact_first(devs.drop_last(), q, i);
    } else {
        lemma_exact_absent(devs.drop_last(), q);
    }
}

/// The positions of a hit list, as integers.
pub open spec fn positions(v: Seq<usize>) -> Seq<int> {
    v.map_values(|x: usize| x as int)
}

/// Resolve a user query to exactly one discovered device.
///
/// Matching precedence: exact id, then unique id prefix, then unique
/// case-insensitive label substring. Ambiguous or missing matches error.
pub fn resolve<'a>(devices: &'a [Discovered], query: &str) -> (r: Result<&'a Discovered, Error>)
    ensures
        match exact_hit(devices@, query@) {
            Some(i) => r matches Ok(d) && *d == devices@[i],
            None => {
                let by_id = id_hits(devices@, query@, devices@.len());
                let by_label = label_hits(devices@, query@, devices@.len());
                if by_id.len() == 1 {
                    r matches Ok(d) && *d == devices@[by_id[0]]
                } else if by_id.len() > 1 {
                    r matches Err(Error::InvalidArgument(m)) && m@ == ambiguous_id_message(
                        query@,
                        by_id.len(),
                    )
                } else if by_label.len() == 1 {
                    r matches Ok(d) && *d == devices@[by_label[0]]
                } else if by_label.len() == 0 {
                    r matches Err(Error::NotFound(m)) && m@ == query@
                } else {
                    r matches Err(Error::InvalidArgument(m)) && m@ == ambiguous_name_message(
                        query@,
                        by_label.len(),
                    )
                }
            },
        },
{
    let q = chars_of(query);
    let mut i: usize = 0;
    while i < devices.len()
        invariant
            i <= devices@.len(),
            q@ == query@,
            forall|j: int| 0 <= j < i ==> #[trigger] devices@[j].id@ != query@,
        decreases devices@.len() - i,
    {
        let id = chars_of(devices[i].id.as_str());
        if chars_eq(id.as_slice(), q.as_slice()) {
            proof {
                lemma_exact_first(devices@, query@, i as int);
            }
            return Ok(&devices[i]);
        }
        i = i + 1;
    }
    proof {
        lemma_exact_absent(devices@, query@);
    }
    let mut by_id: Vec<usize> = Vec::new();
    let mut k: usize = 0;
    while k < devices.len()
        invariant
            k <= devices@.len(),
            q@ == query@,
            positions(by_id@) == id_hits(devices@, query@, k as nat),
        decreases devices@.len() - k,
    {
        let id = chars_of(devices[k].id.as_str());
        if starts_with_chars(id.as_slice(), q.as_slice()) {
            by_id.push(k);
            assert(positions(by_id@) == id_hits(devices@, query@, (k + 1) as nat));
        }
        k = k + 1;
    }
    proof {
        lemma_hits_bounded(devices@, query@, devices@.len());
        assert(by_id@.len() == positions(by_id@).len());
    }
    if by_id.len() == 1 {
        assert(positions(by_id@)[0] == by_id@[0] as int);
        return Ok(&devices[by_id[0]]);
    }
    if by_id.len() > 1 {
        let mut m: Vec<char> = Vec::new();
        push_str(&mut m, "ambiguous id prefix '");
        push_str(&mut m, query);
        push_str(&mut m, "' matches ");
        push_decimal(&mut m, by_id.len() as u64);
        push_str(&mut m, " devices");
        return Err(Error::InvalidArgument(string_from_chars(m.as_slice())));
    }
    let lq = lower_chars(q.as_slice());
    let mut by_label: Vec<usize> = Vec::new();
    let mut k: usize = 0;
    while k < devices.len()
        invariant
            k <= devices@.len(),
            lq@ == lower_all(query@),
            positions(by_label@) == label_hits(devices@, query@, k as nat),
        decreases devices@.len() - k,
    {
        let label = lower_chars(chars_of(devices[k].label.as_str()).as_slice());
        if contains_chars(label.as_slice(), lq.as_slice()) {
            by_label.push(k);
            assert(positions(by_label@) == label_hits(devices@, query@, (k + 1) as nat));
        }
        k = k + 1;
    }
    proof {
        lemma_hits_bounded(devices@, query@, devices@.len());
        assert(by_label@.len() == positions(by_label@).len());
    }
    if by_label.len() == 1 {
        assert(positions(by_label@)[0] == by_label@[0] as int);
        Ok(&devices[by_label[0]])
    } else if by_label.len() == 0 {
        Err(Error::NotFound(query.to_string()))
    } else {
        let mut m: Vec<char> = Vec::new();
        push_str(&mut m, "'");
        push_str(&mut m, query);
        push_str(&mut m, "' matches ");
        push_decimal(&mut m, by_label.len() as u64);
        push_str(&mut m, " devices by name; use a hardware id instead");
        Err(Error::InvalidArgument(string_from_chars(m.as_slice())))
    }
}


/// Every device of a list with distinct hardware ids is found by its own id:
/// an exact id always wins over prefixes and labels.
pub proof fn lemma_resolve_own_id(devices: Seq<Discovered>, i: int)
    requires
        0 <= i < devices.len(),
        forall|a: int, b: int|
            0 <= a < b < devices.len() ==> #[trigger] devices[a].id@ != #[trigger] devices[b].id@,
    ensures
        exact_hit(devices, devices[i].id@) == Some(i),
{
    assert forall|j: int| 0 <= j < i implies #[trigger] devices[j].id@ != devices[i].id@ by {
        assert(devices[j].id@ != devices[i].id@);
    }
    lemma_exact_first(devices, devices[i].id@, i);
}

} // verus!
