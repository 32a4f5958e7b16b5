//! The text logic of the `battery` command line: turning a `set` request into
//! a [`Command`] and laying out the rows of a status report.

use crate::error::Error;
use crate::text::{chars_eq, chars_of, lower_all, lower_chars, push_all, push_str, string_from_chars, upper};
use crate::types::{Command, PortDirection};
use vstd::prelude::*;

verus! {

/// A user-typed id normalized: ASCII-lowercased, `-` turned into `_`
/// (`charge-limit` → `charge_limit`).
pub open spec fn normalized_id(target: Seq<char>) -> Seq<char> {
    lower_all(target).map_values(|c: char| if c == '-' { '_' } else { c })
}

/// Words that mean "on" and "off" for a toggle (compared ignoring ASCII case).
pub open spec fn on_word(v: Seq<char>) -> bool {
    let l = lower_all(v);
    l == "on"@ || l == "true"@ || l == "1"@
}

pub open spec fn off_word(v: Seq<char>) -> bool {
    let l = lower_all(v);
    l == "off"@ || l == "false"@ || l == "0"@
}

/// A boolean value maps to `Toggle`; anything else maps to a set of the value
/// as typed.
pub fn build_command(target: &str, value: &str) -> (r: Result<Command, Error>)
    ensures
        if on_word(value@) {
            r matches Ok(Command::Toggle { id, on }) && id@ == normalized_id(target@) && on
        } else if off_word(value@) {
            r matches Ok(Command::Toggle { id, on }) && id@ == normalized_id(target@) && !on
        } else {
            r matches Ok(Command::SetValue { id, value: v }) && id@ == normalized_id(target@) && v@
                == value@
        },
{
    let lowered = lower_chars(chars_of(target).as_slice());
    let mut idc: Vec<char> = Vec::new();
    let mut i: usize = 0;
    while i < lowered.len()
        invariant
            i <= lowered@.len(),
            lowered@ == lower_all(target@),
            idc@ == lowered@.subrange(0, i as int).map_values(
                |c: char| if c == '-' { '_' } else { c },
            ),
        decreases lowered@.len() - i,
    {
        let c = lowered[i];
        idc.push(if c == '-' { '_' } else { c });
        i = i + 1;
        assert(idc@ == lowered@.subrange(0, i as int).map_values(
            |c: char| if c == '-' { '_' } else { c },
        ));
    }
    assert(lowered@.subrange(0, lowered@.len() as int) == lowered@);
    let id = string_from_chars(idc.as_slice());
    let v = lower_chars(chars_of(value).as_slice());
    let on = chars_of("on");
    let tr = chars_of("true");
    let one = chars_of("1");
    let off = chars_of("off");
    let fa = chars_of("false");
    let zero = chars_of("0");
    if chars_eq(v.as_slice(), on.as_slice()) || chars_eq(v.as_slice(), tr.as_slice()) || chars_eq(
        v.as_slice(),
        one.as_slice(),
    ) {
        Ok(Command::Toggle { id, on: true })
    } else if chars_eq(v.as_slice(), off.as_slice()) || chars_eq(v.as_slice(), fa.as_slice())
        || chars_eq(v.as_slice(), zero.as_slice()) {
        Ok(Command::Toggle { id, on: false })
    } else {
        Ok(Command::SetValue { id, value: value.to_string() })
    }
}

/// A human-ish label from an id: `_` and `.` become spaces and the first
/// character is ASCII-uppercased (`"power_in"`/`"temp.mosfet"` → `"Power in"`
/// / `"Temp mosfet"`).
pub open spec fn nice_spec(id: Seq<char>) -> Seq<char> {
    let c = id.map_values(|ch: char| if ch == '_' || ch == '.' { ' ' } else { ch });
    if c.len() > 0 {
        c.update(0, upper(c[0]))
    } else {
        c
    }
}

/// ASCII upper-casing of one character.
pub fn upper_char(c: char) -> (r: char)
    ensures
        r == upper(c),
{
    if 'a' <= c && c <= 'z' {
        let u: u32 = c as u32 - 32;
        let b: u8 = u as u8;
        assert(b as char == ((c as u32) - 32) as char);
        b as char
    } else {
        c
    }
}

/// Human-ish label from an id.
pub fn nice(id: &str) -> (s: String)
    ensures
        s@ == nice_spec(id@),
{
    let src = chars_of(id);
    let mut c: Vec<char> = Vec::new();
    let mut i: usize = 0;
    while i < src.len()
        invariant
            i <= src@.len(),
            src@ == id@,
            c@ == src@.subrange(0, i as int).map_values(
                |ch: char| if ch == '_' || ch == '.' { ' ' } else { ch },
            ),
        decreases src@.len() - i,
    {
        let ch = src[i];
        c.push(if ch == '_' || ch == '.' { ' ' } else { ch });
        i = i + 1;
        assert(c@ == src@.subrange(0, i as int).map_values(
            |ch: char| if ch == '_' || ch == '.' { ' ' } else { ch },
        ));
    }
    assert(src@.subrange(0, src@.len() as int) == src@);
    if c.len() > 0 {
        let first = upper_char(c[0]);
        c.set(0, first);
    }
    string_from_chars(c.as_slice())
}

/// Width of the key column of a status report.
pub const KEY_WIDTH: usize = 20;

/// `n` spaces.
pub open spec fn spaces(n: nat) -> Seq<char> {
    Seq::new(n, |i: int| ' ')
}

/// One report row: the key left-aligned in a 20-character column, a space,
/// the value, a newline (`format!("{k:<20} {v}\n")`).
pub open spec fn row_spec(key: Seq<char>, value: Seq<char>) -> Seq<char> {
    let pad: nat = if key.len() < 20 {
        (20 - key.len()) as nat
    } else {
        0
    };
    key + spaces(pad) + seq![' '] + value + seq!['\n']
}

/// Append one report row.
pub fn push_row(out: &mut Vec<char>, key: &str, value: &str)
    ensures
        final(out)@ == old(out)@ + row_spec(key@, value@),
{
    let k = chars_of(key);
    push_all(out, k.as_slice());
    let mut n: usize = k.len();
    let ghost start = out@;
    while n < KEY_WIDTH
        invariant
            n <= KEY_WIDTH || n == k@.len(),
            k@.len() <= n,
            out@ == start + spaces((n - k@.len()) as nat),
        decreases KEY_WIDTH - n,
    {
        out.push(' ');
        n = n + 1;
        assert(out@ == start + spaces((n - k@.len()) as nat));
    }
    out.push(' ');
    push_str(out, value);
    out.push('\n');
}

/// The text of a switch state.
pub fn on_off(on: bool) -> (s: &'static str)
    ensures
        s@ == (if on {
            "on"@
        } else {
            "off"@
        }),
{
    if on {
        "on"
    } else {
        "off"
    }
}

/// The state part of a port row: `on`, `off` or `-` when unknown, then the
/// flow direction (` in`, ` out`, ` io`) when known.
pub open spec fn port_state_spec(on: Option<bool>, direction: Option<PortDirection>) -> Seq<char> {
    let state = match on {
        Some(true) => "on"@,
        Some(false) => "off"@,
        None => "-"@,
    };
    let dir = match direction {
        Some(PortDirection::In) => " in"@,
        Some(PortDirection::Out) => " out"@,
        Some(PortDirection::Bidir) => " io"@,
        None => ""@,
    };
    state + dir
}

/// The state part of a port row.
pub fn port_state(on: Option<bool>, direction: Option<PortDirection>) -> (s: String)
    ensures
        s@ == port_state_spec(on, direction),
{
    let state = match on {
        Some(true) => "on",
        Some(false) => "off",
        None => "-",
    };
    let dir = match direction {
        Some(PortDirection::In) => " in",
        Some(PortDirection::Out) => " out",
        Some(PortDirection::Bidir) => " io",
        None => "",
    };
    let mut out: Vec<char> = Vec::new();
    push_str(&mut out, state);
    push_str(&mut out, dir);
    string_from_chars(out.as_slice())
}

/// What the monitor loop observed while waiting for the next update.
#[derive(Debug, Clone, Copy, PartialEq, Eq, Structural)]
pub enum MonitorEvent {
    /// An update arrived and was folded into the live snapshot.
    Update,
    /// The update stream reported an error.
    Failed,
    /// The update stream ended.
    Ended,
    /// The wait timed out with no update.
    Tick,
}

/// What the monitor loop does next.
#[derive(Debug, Clone, Copy, PartialEq, Eq, Structural)]
pub enum MonitorAction {
    /// Stop streaming.
    Stop,
    /// Print the live snapshot now.
    Print,
    /// Keep waiting.
    Wait,
}

/// One decision of the monitor loop. `dirty` tells whether the live snapshot
/// changed since it was last printed; `since_print_ms` is the time since the
/// last print (`None` before the first one). An error or the end of the stream
/// stops the loop; otherwise a changed snapshot is printed at most once per
/// interval. Returns the new `dirty` flag and the action.
pub fn monitor_step(dirty: bool, event: MonitorEvent, since_print_ms: Option<u64>, interval_ms: u64) -> (r: (
    bool,
    MonitorAction,
))
    ensures
        (event is Failed || event is Ended) ==> r == (dirty, MonitorAction::Stop),
        (event is Update || event is Tick) ==> {
            let d = dirty || event is Update;
            let due = match since_print_ms {
                Some(t) => t >= interval_ms,
                None => true,
            };
            r == (if d && due {
                (false, MonitorAction::Print)
            } else {
                (d, MonitorAction::Wait)
            })
        },
{
    let d = match event {
        MonitorEvent::Failed | MonitorEvent::Ended => {
            return (dirty, MonitorAction::Stop);
        },
        MonitorEvent::Update => true,
        MonitorEvent::Tick => dirty,
    };
    let due = match since_print_ms {
        Some(t) => t >= interval_ms,
        None => true,
    };
    if d && due {
        (false, MonitorAction::Print)
    } else {
        (d, MonitorAction::Wait)
    }
}

} // verus!
