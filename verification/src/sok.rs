//! SOK batteries: the older `0xEE`-command protocol ([`ee`]) and the ABC-BMS
//! Modbus protocol ([`abc`]), plus what BLE discovery needs to tell them
//! apart.

pub mod abc;
pub mod ee;

use crate::text::{
    chars_of, is_whitespace, is_ws, lower_all, lower_chars, push_all, slice_range, starts_with,
    string_from_chars, utf8_lossy, utf8_lossy_string,
};
use vstd::prelude::*;

verus! {

/// Which on-the-wire protocol a device speaks.
#[derive(Debug, Clone, Copy, PartialEq, Eq, Structural)]
pub enum Variant {
    /// Older 12V packs: `0xEE` command frames on service `FFE0`.
    Ee,
    /// ABC-BMS: Modbus RTU over BLE on service `FFF0`.
    Abc,
}

impl Variant {
    pub open spec fn name(self) -> Seq<char> {
        match self {
            Variant::Ee => "ee"@,
            Variant::Abc => "abc"@,
        }
    }

    pub fn as_str(&self) -> (s: &'static str)
        ensures
            s@ == self.name(),
    {
        match self {
            Variant::Ee => "ee",
            Variant::Abc => "abc",
        }
    }
}

/// A discovered BLE peripheral.
#[derive(Debug, Clone)]
pub struct BtDevice {
    pub id: String,
    pub name: Option<String>,
    pub rssi: Option<i16>,
    /// Variant inferred from the advertisement, if determinable.
    pub variant: Option<Variant>,
}

/// An advertised name that marks a SOK pack: it starts, ignoring ASCII case,
/// with `SOK`, `SK` or `ABC`.
pub open spec fn is_sok_name(name: Option<Seq<char>>) -> bool {
    match name {
        Some(n) => {
            let l = lower_all(n);
            starts_with(l, "sok"@) || starts_with(l, "sk"@) || starts_with(l, "abc"@)
        },
        None => false,
    }
}

fn has_prefix(s: &[char], p: &str) -> (r: bool)
    ensures
        r == starts_with(s@, p@),
{
    let pc = chars_of(p);
    if pc.len() > s.len() {
        return false;
    }
    let mut i: usize = 0;
    while i < pc.len()
        invariant
            pc@ == p@,
            pc.len() <= s.len(),
            i <= pc.len(),
            forall|j: int| 0 <= j < i ==> s@[j] == pc@[j],
        decreases pc.len() - i,
    {
        if s[i] != pc[i] {
            return false;
        }
        i = i + 1;
    }
    assert(s@.subrange(0, pc.len() as int) =~= pc@);
    true
}

/// Whether an advertised name looks like a SOK pack (the name prefix is what
/// tells SOK apart from other vendors sharing its BLE services).
pub fn name_is_sok(name: Option<&str>) -> (r: bool)
    ensures
        r == is_sok_name(
            match name {
                Some(n) => Some(n@),
                None => None,
            },
        ),
{
    match name {
        Some(n) => {
            let c = chars_of(n);
            let l = lower_chars(c.as_slice());
            has_prefix(l.as_slice(), "sok") || has_prefix(l.as_slice(), "sk") || has_prefix(
                l.as_slice(),
                "abc",
            )
        },
        None => false,
    }
}


/// The protocol a peripheral advertises: the ABC service wins over the EE
/// one (both may be listed); neither leaves it open.
pub open spec fn advertised_variant(abc_service: bool, ee_service: bool) -> Option<Variant> {
    if abc_service {
        Some(Variant::Abc)
    } else if ee_service {
        Some(Variant::Ee)
    } else {
        None
    }
}

/// The scan entry for a peripheral: only SOK-named peripherals are kept (so a
/// JK pack on the shared `FFE0` service is not claimed), with the protocol
/// their advertised services tell.
pub fn scanned(id: String, name: Option<String>, rssi: Option<i16>, abc_service: bool, ee_service: bool) -> (r: Option<BtDevice>)
    ensures
        match r {
            Some(d) => is_sok_name(
                match name {
                    Some(n) => Some(n@),
                    None => None,
                },
            ) && d.id == id && d.name == name && d.rssi == rssi && d.variant == advertised_variant(
                abc_service,
                ee_service,
            ),
            None => !is_sok_name(
                match name {
                    Some(n) => Some(n@),
                    None => None,
                },
            ),
        },
{
    let keep = match &name {
        Some(n) => name_is_sok(Some(n.as_str())),
        None => name_is_sok(None),
    };
    if !keep {
        return None;
    }
    let variant = if abc_service {
        Some(Variant::Abc)
    } else if ee_service {
        Some(Variant::Ee)
    } else {
        None
    };
    Some(BtDevice { id, name, rssi, variant })
}

/// Padding around a Device Information string: NULs and whitespace.
pub open spec fn pad_char(c: char) -> bool {
    c == '\0' || is_ws(c)
}

/// The length of the leading padding.
pub open spec fn lead_pad(s: Seq<char>) -> nat
    decreases s.len(),
{
    if s.len() > 0 && pad_char(s[0]) {
        1 + lead_pad(s.drop_first())
    } else {
        0
    }
}

/// The length of the trailing padding.
pub open spec fn trail_pad(s: Seq<char>) -> nat
    decreases s.len(),
{
    if s.len() > 0 && pad_char(s.last()) {
        1 + trail_pad(s.drop_last())
    } else {
        0
    }
}

/// A text without its padding at either end.
pub open spec fn unpadded(s: Seq<char>) -> Seq<char> {
    let a = s.subrange(lead_pad(s) as int, s.len() as int);
    a.subrange(0, a.len() - trail_pad(a))
}

/// The value of a Device Information characteristic: the bytes as UTF-8
/// (invalid sequences replaced) without surrounding NULs and whitespace;
/// nothing when that leaves no text.
pub open spec fn dis_value(bytes: Seq<u8>) -> Option<Seq<char>> {
    dis_field(utf8_lossy(bytes))
}

/// A decoded characteristic text without its padding; nothing when that
/// leaves no text.
pub open spec fn dis_field(s: Seq<char>) -> Option<Seq<char>> {
    let t = unpadded(s);
    if t.len() > 0 {
        Some(t)
    } else {
        None
    }
}

proof fn lemma_lead_pad_step(s: Seq<char>, a: int)
    requires
        0 <= a < s.len(),
        pad_char(s[a]),
    ensures
        lead_pad(s.subrange(a, s.len() as int)) == 1 + lead_pad(s.subrange(a + 1, s.len() as int)),
{
    assert(s.subrange(a, s.len() as int).drop_first() == s.subrange(a + 1, s.len() as int));
}

proof fn lemma_trail_pad_step(s: Seq<char>, b: int)
    requires
        0 < b <= s.len(),
        pad_char(s[b - 1]),
    ensures
        trail_pad(s.subrange(0, b)) == 1 + trail_pad(s.subrange(0, b - 1)),
{
    assert(s.subrange(0, b).drop_last() == s.subrange(0, b - 1));
}

/// The text of a Device Information characteristic value.
pub fn dis_text(bytes: &[u8]) -> (r: Option<String>)
    ensures
        match r {
            Some(t) => dis_value(bytes@) == Some(t@),
            None => dis_value(bytes@) is None,
        },
{
    let text = utf8_lossy_string(bytes);
    dis_trimmed(text.as_str())
}

/// Strip a decoded characteristic text of surrounding NULs and whitespace;
/// nothing when no text is left.
pub fn dis_trimmed(text: &str) -> (r: Option<String>)
    ensures
        match r {
            Some(t) => dis_field(text@) == Some(t@),
            None => dis_field(text@) is None,
        },
{
    let c = chars_of(text);
    let ghost s = c@;
    let n = c.len();
    let mut a: usize = 0;
    assert(s.subrange(0, n as int) == s);
    while a < n && (c[a] == '\0' || is_whitespace(c[a]))
        invariant
            n == s.len(),
            c@ == s,
            a <= n,
            lead_pad(s) == a + lead_pad(s.subrange(a as int, n as int)),
        decreases n - a,
    {
        proof {
            lemma_lead_pad_step(s, a as int);
        }
        a = a + 1;
    }
    proof {
        assert(lead_pad(s.subrange(a as int, n as int)) == 0);
        assert(s.subrange(0, n as int) == s);
    }
    let ghost t = s.subrange(a as int, n as int);
    let mut b: usize = n;
    assert(t.subrange(0, (n - a) as int) == t);
    while b > a && (c[b - 1] == '\0' || is_whitespace(c[b - 1]))
        invariant
            n == s.len(),
            c@ == s,
            a <= b <= n,
            t == s.subrange(a as int, n as int),
            trail_pad(t) == (n - b) + trail_pad(t.subrange(0, b - a)),
        decreases b - a,
    {
        proof {
            lemma_trail_pad_step(t, (b - a) as int);
        }
        b = b - 1;
    }
    proof {
        assert(trail_pad(t.subrange(0, b - a)) == 0);
    }
    if b == a {
        return None;
    }
    let mut out: Vec<char> = Vec::new();
    push_all(&mut out, slice_range(c.as_slice(), a, b));
    assert(out@ == t.subrange(0, b - a));
    Some(string_from_chars(out.as_slice()))
}

} // verus!
