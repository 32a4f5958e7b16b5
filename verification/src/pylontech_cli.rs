//! Parser for the Pylontech US2000/US3000 C-series text console (`bat`
//! command). The console answers with one row per cell:
//!
//! ```text
//! Battery  Volt  Curr  Tempr  Base State  Volt. State  Curr. State  Temp. State  SOC  Coulomb  BAL
//! 0        3331  5852  23000  Charge      Normal       Normal       Normal       14%  6182 mAH N
//! ```
//!
//! Rows are recognised by having at least nine columns whose first two are a
//! cell index and a millivolt reading; every other line is ignored.

use crate::text::{
    chars_eq, chars_of, decimal, eq_ignore_ascii_case, eq_ignore_case, find_char, first_of, lines, lower_all,
    parse_signed, parse_signed_chars, parse_unsigned, parse_unsigned_chars, push_all, push_decimal,
    opt_text, push_str, remove_char, remove_chars, runs_view, slice_range, split_lines, split_whitespace,
    split_ws, string_from_chars, trim, trim_chars, upper, utf8_lossy, utf8_lossy_string,
};
use crate::types::DeviceInfo;
use vstd::prelude::*;

verus! {

/// One cell row of the `bat` output.
#[derive(Debug, Default, Clone, Copy, PartialEq, Eq, Structural)]
pub struct CellRow {
    pub millivolts: u16,
    pub balancing: bool,
}

/// The decoded `bat` output.
#[derive(Debug, Default, Clone)]
pub struct BatFrame {
    pub cells: Vec<CellRow>,
    /// Anything the BMS flagged as other than normal, per cell and column.
    pub alarms: Vec<String>,
    pub current_ma: i32,
    pub temp_milli_c: i32,
    pub soc_percent: u8,
    pub state: String,
}

/// The mathematical content of a [`BatFrame`].
pub struct BatModel {
    pub cells: Seq<CellRow>,
    pub alarms: Seq<Seq<char>>,
    pub current_ma: i32,
    pub temp_milli_c: i32,
    pub soc_percent: u8,
    pub state: Seq<char>,
}

pub open spec fn texts(v: Seq<String>) -> Seq<Seq<char>> {
    v.map_values(|s: String| s@)
}

impl BatFrame {
    pub open spec fn model(&self) -> BatModel {
        BatModel {
            cells: self.cells@,
            alarms: texts(self.alarms@),
            current_ma: self.current_ma,
            temp_milli_c: self.temp_milli_c,
            soc_percent: self.soc_percent,
            state: self.state@,
        }
    }
}

/// Column states that are part of normal operation.
pub open spec fn is_normal_state(s: Seq<char>) -> bool {
    ||| eq_ignore_case(s, "normal"@)
    ||| eq_ignore_case(s, "charge"@)
    ||| eq_ignore_case(s, "dischg"@)
    ||| eq_ignore_case(s, "idle"@)
    ||| eq_ignore_case(s, "absent"@)
}

/// `cell <n> <label>: <state>`.
pub open spec fn alarm_text(n: nat, label: Seq<char>, state: Seq<char>) -> Seq<char> {
    "cell "@ + decimal(n) + " "@ + label + ": "@ + state
}

pub open spec fn column_alarm(n: nat, label: Seq<char>, state: Seq<char>) -> Seq<Seq<char>> {
    if is_normal_state(state) {
        Seq::empty()
    } else {
        seq![alarm_text(n, label, state)]
    }
}

/// Alarms raised by one row: its base, voltage, current and temperature
/// state columns, in that order.
pub open spec fn row_alarms(n: nat, col: Seq<Seq<char>>) -> Seq<Seq<char>> {
    column_alarm(n, "state"@, col[4]) + column_alarm(n, "voltage"@, col[5]) + column_alarm(
        n,
        "current"@,
        col[6],
    ) + column_alarm(n, "temperature"@, col[7])
}

/// `s` without its trailing `%` signs (`str::trim_end_matches('%')`).
pub open spec fn trim_pct(s: Seq<char>) -> Seq<char>
    decreases s.len(),
{
    if s.len() > 0 && s.last() == '%' {
        trim_pct(s.drop_last())
    } else {
        s
    }
}

/// A line is a cell row when it has nine columns, a `u8` index and a `u16`
/// voltage.
pub open spec fn is_cell_row(col: Seq<Seq<char>>) -> bool {
    &&& col.len() >= 9
    &&& parse_unsigned(col[0], 10, 255) is Some
    &&& parse_unsigned(col[1], 10, 65535) is Some
}

/// The frame after reading one more line.
pub open spec fn bat_step(f: BatModel, line: Seq<char>) -> BatModel {
    let col = split_ws(line);
    if !is_cell_row(col) {
        f
    } else {
        BatModel {
            cells: f.cells.push(
                CellRow {
                    millivolts: parse_unsigned(col[1], 10, 65535).unwrap() as u16,
                    balancing: col.last() == "Y"@,
                },
            ),
            alarms: f.alarms + row_alarms(f.cells.len(), col),
            current_ma: match parse_signed(col[2], i32::MIN as int, i32::MAX as int) {
                Some(v) => v as i32,
                None => f.current_ma,
            },
            temp_milli_c: match parse_signed(col[3], i32::MIN as int, i32::MAX as int) {
                Some(v) => v as i32,
                None => f.temp_milli_c,
            },
            soc_percent: match parse_unsigned(trim_pct(col[8]), 10, 255) {
                Some(v) => v as u8,
                None => f.soc_percent,
            },
            state: col[4],
        }
    }
}

pub open spec fn empty_model() -> BatModel {
    BatModel {
        cells: Seq::empty(),
        alarms: Seq::empty(),
        current_ma: 0,
        temp_milli_c: 0,
        soc_percent: 0,
        state: Seq::empty(),
    }
}

/// The frame after reading the given lines, in order.
pub open spec fn bat_fold(ls: Seq<Seq<char>>) -> BatModel
    decreases ls.len(),
{
    if ls.len() == 0 {
        empty_model()
    } else {
        bat_step(bat_fold(ls.drop_last()), ls.last())
    }
}

/// What `parse_bat` answers for a console text.
pub open spec fn bat_of_text(text: Seq<char>) -> Option<BatModel> {
    let f = bat_fold(lines(text));
    if f.cells.len() > 0 {
        Some(f)
    } else {
        None
    }
}

/// The lines of a console text that are cell rows, in order.
pub open spec fn row_lines(ls: Seq<Seq<char>>) -> Seq<Seq<char>> {
    ls.filter(|l: Seq<char>| is_cell_row(split_ws(l)))
}

/// The cell a cell row describes: its voltage column, and balancing when its
/// last column is `Y`.
pub open spec fn row_cell(l: Seq<char>) -> CellRow {
    let col = split_ws(l);
    CellRow {
        millivolts: parse_unsigned(col[1], 10, 65535).unwrap() as u16,
        balancing: col.last() == "Y"@,
    }
}

/// The cells of a `bat` answer are exactly its cell rows (lines with nine or
/// more columns whose index and voltage parse), one per row in order; its
/// state is the base-state column of the last such row (empty when there is
/// none).
pub proof fn lemma_bat_rows(ls: Seq<Seq<char>>)
    ensures
        bat_fold(ls).cells == row_lines(ls).map_values(|l: Seq<char>| row_cell(l)),
        bat_fold(ls).state == (if row_lines(ls).len() > 0 {
            split_ws(row_lines(ls).last())[4]
        } else {
            Seq::<char>::empty()
        }),
    decreases ls.len(),
{
    reveal(Seq::filter);
    if ls.len() > 0 {
        lemma_bat_rows(ls.drop_last());
        let l = ls.last();
        let pre = row_lines(ls.drop_last());
        if is_cell_row(split_ws(l)) {
            assert(row_lines(ls) == pre.push(l));
            assert(pre.push(l).map_values(|l: Seq<char>| row_cell(l)) =~= pre.map_values(
                |l: Seq<char>| row_cell(l),
            ).push(row_cell(l)));
        } else {
            assert(row_lines(ls) == pre);
        }
    }
}

/// A state column raises no alarm exactly when, ignoring ASCII case, it
/// reads `normal`, `charge`, `dischg`, `idle` or `absent`; any other state
/// raises one alarm naming the cell, the column and the state.
pub proof fn lemma_state_alarm(n: nat, label: Seq<char>, state: Seq<char>)
    ensures
        (column_alarm(n, label, state).len() == 0) == (lower_all(state) == "normal"@ || lower_all(state) == "charge"@ || lower_all(state) == "dischg"@ || lower_all(state) == "idle"@ || lower_all(state) == "absent"@),
        !(lower_all(state) == "normal"@ || lower_all(state) == "charge"@ || lower_all(state) == "dischg"@ || lower_all(state) == "idle"@ || lower_all(state) == "absent"@) ==> column_alarm(n, label, state) == seq![
            "cell "@ + decimal(n) + " "@ + label + ": "@ + state,
        ],
{
    reveal_strlit("normal");
    assert(lower_all("normal"@) =~= "normal"@);
    reveal_strlit("charge");
    assert(lower_all("charge"@) =~= "charge"@);
    reveal_strlit("dischg");
    assert(lower_all("dischg"@) =~= "dischg"@);
    reveal_strlit("idle");
    assert(lower_all("idle"@) =~= "idle"@);
    reveal_strlit("absent");
    assert(lower_all("absent"@) =~= "absent"@);
}

/// A cell row whose four state columns are all normal states (see
/// [`lemma_state_alarm`]) adds no alarm.
pub proof fn lemma_normal_row(f: BatModel, line: Seq<char>)
    requires
        is_cell_row(split_ws(line)),
        forall|k: int| 4 <= k < 8 ==> {
            let state = #[trigger] split_ws(line)[k];
            lower_all(state) == "normal"@ || lower_all(state) == "charge"@ || lower_all(state) == "dischg"@ || lower_all(state) == "idle"@ || lower_all(state) == "absent"@
        },
    ensures
        bat_step(f, line).alarms == f.alarms,
{
    let col = split_ws(line);
    lemma_state_alarm(f.cells.len(), "state"@, col[4]);
    lemma_state_alarm(f.cells.len(), "voltage"@, col[5]);
    lemma_state_alarm(f.cells.len(), "current"@, col[6]);
    lemma_state_alarm(f.cells.len(), "temperature"@, col[7]);
    assert(row_alarms(f.cells.len(), col) =~= Seq::<Seq<char>>::empty());
}

/// Trimming `%` signs keeps a prefix of the text that does not end in `%`
/// and drops only `%` signs after it.
pub proof fn lemma_trim_pct(s: Seq<char>)
    ensures
        trim_pct(s).len() <= s.len(),
        trim_pct(s) == s.subrange(0, trim_pct(s).len() as int),
        forall|i: int| trim_pct(s).len() <= i < s.len() ==> s[i] == '%',
        trim_pct(s).len() > 0 ==> trim_pct(s).last() != '%',
    decreases s.len(),
{
    if s.len() > 0 && s.last() == '%' {
        lemma_trim_pct(s.drop_last());
        let t = trim_pct(s.drop_last());
        assert(s.drop_last().subrange(0, t.len() as int) == s.subrange(0, t.len() as int));
        assert forall|i: int| t.len() <= i < s.len() implies s[i] == '%' by {
            if i < s.len() - 1 {
                assert(s.drop_last()[i] == s[i]);
            }
        }
    } else {
        assert(s.subrange(0, s.len() as int) == s);
    }
}

/// A line with at least nine columns whose first is a cell index (0..=255)
/// and whose second a millivolt reading (0..=65535) adds one cell: that
/// voltage, balancing when the last column is `Y`. It sets the current from
/// the third column and the temperature from the fourth (each when it parses
/// as an `i32`), the state of charge from the ninth without its `%` (when it
/// parses as a `u8`), and the state from the fifth. Any other line changes
/// nothing.
pub proof fn lemma_bat_line(f: BatModel, line: Seq<char>)
    ensures
        ({
            let col = split_ws(line);
            col.len() >= 9 && parse_unsigned(col[0], 10, 255) is Some && parse_unsigned(
                col[1],
                10,
                65535,
            ) is Some
        }) ==> {
            let col = split_ws(line);
            let g = bat_step(f, line);
            &&& g.cells.len() == f.cells.len() + 1
            &&& g.cells.drop_last() == f.cells
            &&& g.cells.last().millivolts == parse_unsigned(col[1], 10, 65535).unwrap()
            &&& g.cells.last().balancing == (col[col.len() - 1] == "Y"@)
            &&& (parse_signed(col[2], i32::MIN as int, i32::MAX as int) matches Some(v) ==> g.current_ma == v)
            &&& (parse_signed(col[2], i32::MIN as int, i32::MAX as int) is None ==> g.current_ma == f.current_ma)
            &&& (parse_signed(col[3], i32::MIN as int, i32::MAX as int) matches Some(v) ==> g.temp_milli_c == v)
            &&& (parse_signed(col[3], i32::MIN as int, i32::MAX as int) is None ==> g.temp_milli_c == f.temp_milli_c)
            &&& (parse_unsigned(trim_pct(col[8]), 10, 255) matches Some(v) ==> g.soc_percent == v)
            &&& (parse_unsigned(trim_pct(col[8]), 10, 255) is None ==> g.soc_percent == f.soc_percent)
            &&& g.state == col[4]
        },
        !({
            let col = split_ws(line);
            col.len() >= 9 && parse_unsigned(col[0], 10, 255) is Some && parse_unsigned(
                col[1],
                10,
                65535,
            ) is Some
        }) ==> bat_step(f, line) == f,
{
    let col = split_ws(line);
    if is_cell_row(col) {
        let g = bat_step(f, line);
        assert(g.cells.drop_last() =~= f.cells);
    }
}

/// Push the alarm of one state column, if it is not normal.
fn check_column(alarms: &mut Vec<String>, n: usize, label: &str, state: &[char])
    ensures
        texts(final(alarms)@) == texts(old(alarms)@) + column_alarm(n as nat, label@, state@),
{
    let a = chars_of("normal");
    let b = chars_of("charge");
    let c = chars_of("dischg");
    let d = chars_of("idle");
    let e = chars_of("absent");
    let normal = eq_ignore_ascii_case(state, a.as_slice()) || eq_ignore_ascii_case(
        state,
        b.as_slice(),
    ) || eq_ignore_ascii_case(state, c.as_slice()) || eq_ignore_ascii_case(state, d.as_slice())
        || eq_ignore_ascii_case(state, e.as_slice());
    if !normal {
        let mut t: Vec<char> = Vec::new();
        push_str(&mut t, "cell ");
        push_decimal(&mut t, n as u64);
        push_str(&mut t, " ");
        push_str(&mut t, label);
        push_str(&mut t, ": ");
        push_all(&mut t, state);
        let s = string_from_chars(t.as_slice());
        let ghost pre = alarms@;
        alarms.push(s);
        assert(texts(alarms@) == texts(pre).push(s@));
        assert(s@ == alarm_text(n as nat, label@, state@));
    } else {
        assert(texts(alarms@) == texts(old(alarms)@) + Seq::<Seq<char>>::empty());
    }
}

/// `s` without its trailing `%` signs.
fn trim_percent(s: &[char]) -> (r: &[char])
    ensures
        r@ == trim_pct(s@),
{
    let mut n = s.len();
    assert(s@.subrange(0, n as int) == s@);
    while n > 0 && s[n - 1] == '%'
        invariant
            n <= s.len(),
            trim_pct(s@.subrange(0, n as int)) == trim_pct(s@),
        decreases n,
    {
        assert(s@.subrange(0, n as int).drop_last() == s@.subrange(0, n - 1));
        n = n - 1;
    }
    assert(trim_pct(s@.subrange(0, n as int)) == s@.subrange(0, n as int));
    slice_range(s, 0, n)
}

/// Read one line into the frame.
fn read_line(f: &mut BatFrame, line: &[char])
    ensures
        final(f).model() == bat_step(old(f).model(), line@),
{
    let col = split_whitespace(line);
    proof {
        assert(runs_view(col@).len() == col@.len());
    }
    if col.len() < 9 {
        return;
    }
    let idx = parse_unsigned_chars(col[0].as_slice(), 10, 255);
    let mv = parse_unsigned_chars(col[1].as_slice(), 10, 65535);
    proof {
        assert(runs_view(col@)[0] == col@[0]@);
        assert(runs_view(col@)[1] == col@[1]@);
    }
    if idx.is_none() || mv.is_none() {
        return;
    }
    let mv: u16 = mv.unwrap() as u16;
    let n = f.cells.len();
    let ghost old_alarms = texts(f.alarms@);
    check_column(&mut f.alarms, n, "state", col[4].as_slice());
    check_column(&mut f.alarms, n, "voltage", col[5].as_slice());
    check_column(&mut f.alarms, n, "current", col[6].as_slice());
    check_column(&mut f.alarms, n, "temperature", col[7].as_slice());
    proof {
        let cv = runs_view(col@);
        assert(cv[4] == col@[4]@);
        assert(cv[5] == col@[5]@);
        assert(cv[6] == col@[6]@);
        assert(cv[7] == col@[7]@);
        assert(texts(f.alarms@) == old_alarms + row_alarms(n as nat, cv));
    }
    let last = col.len() - 1;
    let y = chars_of("Y");
    let balancing = chars_eq(col[last].as_slice(), y.as_slice());
    proof {
        assert(runs_view(col@).last() == col@[last as int]@);
    }
    f.cells.push(CellRow { millivolts: mv, balancing });
    match parse_signed_chars(col[2].as_slice(), i32::MIN as i64, i32::MAX as i64) {
        Some(v) => {
            f.current_ma = v as i32;
        },
        None => {},
    }
    match parse_signed_chars(col[3].as_slice(), i32::MIN as i64, i32::MAX as i64) {
        Some(v) => {
            f.temp_milli_c = v as i32;
        },
        None => {},
    }
    f.state = string_from_chars(col[4].as_slice());
    let soc = trim_percent(col[8].as_slice());
    match parse_unsigned_chars(soc, 10, 255) {
        Some(v) => {
            f.soc_percent = v as u8;
        },
        None => {},
    }
    proof {
        let cv = runs_view(col@);
        assert(cv[2] == col@[2]@);
        assert(cv[3] == col@[3]@);
        assert(cv[8] == col@[8]@);
    }
}

/// Parse the output of the console's `bat` command. `None` when no cell row
/// is present.
pub fn parse_bat(text: &str) -> (r: Option<BatFrame>)
    ensures
        match r {
            Some(f) => bat_of_text(text@) == Some(f.model()),
            None => bat_of_text(text@) is None,
        },
{
    let chars = chars_of(text);
    let ls = split_lines(chars.as_slice());
    let mut f = BatFrame {
        cells: Vec::new(),
        alarms: Vec::new(),
        current_ma: 0,
        temp_milli_c: 0,
        soc_percent: 0,
        state: String::new(),
    };
    let ghost lv = runs_view(ls@);
    assert(f.model() == empty_model()) by {
        assert(texts(f.alarms@) == Seq::<Seq<char>>::empty());
    }
    let mut i: usize = 0;
    while i < ls.len()
        invariant
            lv == runs_view(ls@),
            lv == lines(text@),
            i <= ls.len(),
            f.model() == bat_fold(lv.subrange(0, i as int)),
        decreases ls.len() - i,
    {
        read_line(&mut f, ls[i].as_slice());
        assert(lv.subrange(0, i + 1).drop_last() == lv.subrange(0, i as int));
        assert(lv[i as int] == ls@[i as int]@);
        i = i + 1;
    }
    assert(lv.subrange(0, ls.len() as int) == lv);
    if f.cells.len() > 0 {
        Some(f)
    } else {
        None
    }
}


// --- Console plumbing ----------------------------------------------------------

/// The console prompt that ends every answer.
pub open spec fn prompt() -> Seq<u8> {
    seq![0x70u8, 0x79u8, 0x6Cu8, 0x6Fu8, 0x6Eu8, 0x3Eu8]
}

/// `u8::is_ascii_whitespace`: space, tab, line feed, form feed, carriage
/// return.
pub open spec fn ascii_ws(b: u8) -> bool {
    b == 0x20 || b == 0x09 || b == 0x0A || b == 0x0C || b == 0x0D
}

/// `<[u8]>::trim_ascii_end`.
pub open spec fn trim_ascii_end(b: Seq<u8>) -> Seq<u8>
    decreases b.len(),
{
    if b.len() > 0 && ascii_ws(b.last()) {
        trim_ascii_end(b.drop_last())
    } else {
        b
    }
}

pub open spec fn bytes_end_with(b: Seq<u8>, p: Seq<u8>) -> bool {
    p.len() <= b.len() && b.subrange(b.len() - p.len(), b.len() as int) == p
}

/// An answer is complete once it ends with the prompt, possibly followed by
/// trailing whitespace.
pub open spec fn answer_complete(b: Seq<u8>) -> bool {
    bytes_end_with(b, prompt()) || bytes_end_with(trim_ascii_end(b), prompt())
}

fn ends_with_prompt(b: &[u8], n: usize) -> (r: bool)
    requires
        n <= b@.len(),
    ensures
        r == bytes_end_with(b@.subrange(0, n as int), prompt()),
{
    let p: [u8; 6] = [0x70, 0x79, 0x6C, 0x6F, 0x6E, 0x3E];
    assert(p@ == prompt());
    if n < 6 {
        return false;
    }
    let mut i: usize = 0;
    while i < 6
        invariant
            6 <= n <= b@.len(),
            i <= 6,
            p@ == prompt(),
            forall|j: int| 0 <= j < i ==> b@[n - 6 + j] == p@[j],
        decreases 6 - i,
    {
        if b[n - 6 + i] != p[i] {
            assert(b@.subrange(0, n as int).subrange(n - 6, n as int)[i as int] != prompt()[i as int]);
            return false;
        }
        i = i + 1;
    }
    assert(b@.subrange(0, n as int).subrange(n - 6, n as int) == prompt());
    true
}

/// Whether a console answer is complete: it ends with the `pylon>` prompt,
/// possibly followed by trailing whitespace.
pub fn is_answer_complete(buf: &[u8]) -> (r: bool)
    ensures
        r == answer_complete(buf@),
{
    assert(buf@.subrange(0, buf@.len() as int) == buf@);
    if ends_with_prompt(buf, buf.len()) {
        return true;
    }
    let mut n: usize = buf.len();
    while n > 0 && (buf[n - 1] == 0x20 || buf[n - 1] == 0x09 || buf[n - 1] == 0x0A || buf[n - 1]
        == 0x0C || buf[n - 1] == 0x0D)
        invariant
            n <= buf@.len(),
            trim_ascii_end(buf@.subrange(0, n as int)) == trim_ascii_end(buf@),
        decreases n,
    {
        assert(buf@.subrange(0, n as int).drop_last() == buf@.subrange(0, n - 1));
        n = n - 1;
    }
    assert(trim_ascii_end(buf@.subrange(0, n as int)) == buf@.subrange(0, n as int));
    ends_with_prompt(buf, n)
}

/// The text of a console answer: the bytes decoded as UTF-8 (invalid
/// sequences replaced) without carriage returns.
pub fn answer_text(buf: &[u8]) -> (s: String)
    ensures
        s@ == remove_char(utf8_lossy(buf@), '\r'),
{
    let text = utf8_lossy_string(buf);
    strip_carriage_returns(text.as_str())
}

/// A decoded console text without its carriage returns.
pub fn strip_carriage_returns(text: &str) -> (s: String)
    ensures
        s@ == remove_char(text@, '\r'),
{
    let chars = chars_of(text);
    let kept = remove_chars(chars.as_slice(), '\r');
    string_from_chars(kept.as_slice())
}

// --- `info` and `stat` answers ---------------------------------------------------

/// The identity fields of a device.
pub struct InfoModel {
    pub backend: Seq<char>,
    pub manufacturer: Option<Seq<char>>,
    pub model: Option<Seq<char>>,
    pub serial: Option<Seq<char>>,
    pub firmware: Option<Seq<char>>,
    pub hardware: Option<Seq<char>>,
}

pub open spec fn info_model(i: DeviceInfo) -> InfoModel {
    InfoModel {
        backend: i.backend@,
        manufacturer: opt_text(i.manufacturer),
        model: opt_text(i.model),
        serial: opt_text(i.serial),
        firmware: opt_text(i.firmware),
        hardware: opt_text(i.hardware),
    }
}

/// A `key: value` line, split at its first colon, both sides trimmed.
pub open spec fn key_value(line: Seq<char>) -> Option<(Seq<char>, Seq<char>)> {
    match first_of(line, ':') {
        Some(i) => Some(
            (trim(line.subrange(0, i)), trim(line.subrange(i + 1, line.len() as int))),
        ),
        None => None,
    }
}

/// What one line of the `info` answer sets: (identity, specification).
pub open spec fn info_step(st: (InfoModel, Option<Seq<char>>), line: Seq<char>) -> (
    InfoModel,
    Option<Seq<char>>,
) {
    let (m, spec) = st;
    match key_value(line) {
        Some((k, v)) => if k == "Barcode"@ {
            (InfoModel { serial: Some(v), ..m }, spec)
        } else if k == "Device name"@ {
            (InfoModel { model: Some(v), ..m }, spec)
        } else if k == "Specification"@ {
            (
                InfoModel {
                    model: if m.model is None {
                        Some("Pylontech "@ + v)
                    } else {
                        m.model
                    },
                    ..m
                },
                Some(v),
            )
        } else if k == "Main Soft version"@ {
            (InfoModel { firmware: Some(v), ..m }, spec)
        } else if k == "Board version"@ {
            (InfoModel { hardware: Some(v), ..m }, spec)
        } else if k == "Manufacturer"@ {
            (InfoModel { manufacturer: Some(v), ..m }, spec)
        } else {
            st
        },
        None => st,
    }
}

pub open spec fn info_fold(st: (InfoModel, Option<Seq<char>>), ls: Seq<Seq<char>>) -> (
    InfoModel,
    Option<Seq<char>>,
)
    decreases ls.len(),
{
    if ls.len() == 0 {
        st
    } else {
        info_step(info_fold(st, ls.drop_last()), ls.last())
    }
}

fn split_key_value(l: &[char]) -> (r: Option<(Vec<char>, Vec<char>)>)
    ensures
        match r {
            Some((k, v)) => key_value(l@) == Some((k@, v@)),
            None => key_value(l@) is None,
        },
{
    match find_char(l, ':') {
        Some(i) => {
            let n = l.len();
            assert(i < n);
            let k = trim_chars(slice_range(l, 0, i));
            let v = trim_chars(slice_range(l, i + 1, n));
            Some((k, v))
        },
        None => None,
    }
}

fn is_key(k: &[char], name: &str) -> (r: bool)
    ensures
        r == (k@ == name@),
{
    let n = chars_of(name);
    chars_eq(k, n.as_slice())
}

/// Fold the console's `info` answer into a device identity: `Barcode` is
/// the serial, `Device name` the model, `Main Soft version` the firmware,
/// `Board version` the hardware, `Manufacturer` the manufacturer, and a
/// `Specification` names the model `Pylontech <spec>` when none is known
/// yet. Returns the last specification seen (it carries the amp-hour
/// rating).
pub fn apply_info(info: &mut DeviceInfo, text: &str) -> (spec: Option<String>)
    ensures
        (info_model(*final(info)), opt_text(spec)) == info_fold(
            (info_model(*old(info)), None),
            lines(text@),
        ),
{
    let chars = chars_of(text);
    let ls = split_lines(chars.as_slice());
    let ghost lv = runs_view(ls@);
    let mut spec: Option<String> = None;
    let mut i: usize = 0;
    while i < ls.len()
        invariant
            lv == runs_view(ls@),
            lv == lines(text@),
            i <= ls@.len(),
            (info_model(*info), opt_text(spec)) == info_fold(
                (info_model(*old(info)), None),
                lv.subrange(0, i as int),
            ),
        decreases ls@.len() - i,
    {
        assert(lv.subrange(0, i + 1).drop_last() == lv.subrange(0, i as int));
        assert(lv[i as int] == ls@[i as int]@);
        match split_key_value(ls[i].as_slice()) {
            Some((k, v)) => {
                let vs = string_from_chars(v.as_slice());
                if is_key(k.as_slice(), "Barcode") {
                    info.serial = Some(vs);
                } else if is_key(k.as_slice(), "Device name") {
                    info.model = Some(vs);
                } else if is_key(k.as_slice(), "Specification") {
                    if info.model.is_none() {
                        let mut m: Vec<char> = Vec::new();
                        push_str(&mut m, "Pylontech ");
                        push_all(&mut m, v.as_slice());
                        info.model = Some(string_from_chars(m.as_slice()));
                    }
                    spec = Some(vs);
                } else if is_key(k.as_slice(), "Main Soft version") {
                    info.firmware = Some(vs);
                } else if is_key(k.as_slice(), "Board version") {
                    info.hardware = Some(vs);
                } else if is_key(k.as_slice(), "Manufacturer") {
                    info.manufacturer = Some(vs);
                }
            },
            None => {},
        }
        i = i + 1;
    }
    assert(lv.subrange(0, ls@.len() as int) == lv);
    spec
}

/// The value texts of the `SOH` and `CYCLE Times` lines of a `stat` answer
/// (the last of each wins).
pub open spec fn stat_fold(ls: Seq<Seq<char>>) -> (Option<Seq<char>>, Option<Seq<char>>)
    decreases ls.len(),
{
    if ls.len() == 0 {
        (None, None)
    } else {
        let (soh, cycles) = stat_fold(ls.drop_last());
        match key_value(ls.last()) {
            Some((k, v)) => if k == "SOH"@ {
                (Some(v), cycles)
            } else if k == "CYCLE Times"@ {
                (soh, Some(v))
            } else {
                (soh, cycles)
            },
            None => (soh, cycles),
        }
    }
}

/// The trimmed value texts of the state-of-health and cycle-count lines of
/// the console's `stat` answer.
pub fn stat_values(text: &str) -> (r: (Option<String>, Option<String>))
    ensures
        (opt_text(r.0), opt_text(r.1)) == stat_fold(lines(text@)),
{
    let chars = chars_of(text);
    let ls = split_lines(chars.as_slice());
    let ghost lv = runs_view(ls@);
    let mut soh: Option<String> = None;
    let mut cycles: Option<String> = None;
    let mut i: usize = 0;
    while i < ls.len()
        invariant
            lv == runs_view(ls@),
            lv == lines(text@),
            i <= ls@.len(),
            (opt_text(soh), opt_text(cycles)) == stat_fold(lv.subrange(0, i as int)),
        decreases ls@.len() - i,
    {
        assert(lv.subrange(0, i + 1).drop_last() == lv.subrange(0, i as int));
        assert(lv[i as int] == ls@[i as int]@);
        match split_key_value(ls[i].as_slice()) {
            Some((k, v)) => {
                if is_key(k.as_slice(), "SOH") {
                    soh = Some(string_from_chars(v.as_slice()));
                } else if is_key(k.as_slice(), "CYCLE Times") {
                    cycles = Some(string_from_chars(v.as_slice()));
                }
            },
            None => {},
        }
        i = i + 1;
    }
    assert(lv.subrange(0, ls@.len() as int) == lv);
    (soh, cycles)
}

/// `AH` starts at `i`.
pub open spec fn ah_here(u: Seq<char>, i: int) -> bool {
    0 <= i && i + 1 < u.len() && u[i] == 'A' && u[i + 1] == 'H'
}

/// The first occurrence of `AH` in an upper-cased specification.
pub open spec fn ah_at(u: Seq<char>) -> Option<int> {
    if exists|i: int| #[trigger] ah_here(u, i) {
        Some(choose|i: int| ah_here(u, i) && forall|j: int| 0 <= j < i ==> !#[trigger] ah_here(u, j))
    } else {
        None
    }
}

/// A character of a rating number.
pub open spec fn rating_char(c: char) -> bool {
    ('0' <= c && c <= '9') || c == '.'
}

/// The length of the run of rating characters that ends at `end`.
pub open spec fn rating_run(u: Seq<char>, end: int) -> nat
    decreases end,
{
    if end <= 0 || !rating_char(u[end - 1]) {
        0
    } else {
        rating_run(u, end - 1) + 1
    }
}

/// The amp-hour rating text of a specification like `48V/50AH`: the run of
/// digits and dots right before the first `AH` (ASCII case ignored).
pub open spec fn rating_text(spec: Seq<char>) -> Option<Seq<char>> {
    let u = spec.map_values(|c: char| upper(c));
    match ah_at(u) {
        Some(i) => Some(u.subrange(i - rating_run(u, i), i)),
        None => None,
    }
}

fn upper_all(s: &[char]) -> (u: Vec<char>)
    ensures
        u@ == s@.map_values(|c: char| upper(c)),
{
    let mut u: Vec<char> = Vec::new();
    let mut i: usize = 0;
    while i < s.len()
        invariant
            i <= s@.len(),
            u@ == s@.subrange(0, i as int).map_values(|c: char| upper(c)),
        decreases s@.len() - i,
    {
        u.push(crate::cli::upper_char(s[i]));
        i = i + 1;
        assert(u@ == s@.subrange(0, i as int).map_values(|c: char| upper(c)));
    }
    assert(s@.subrange(0, s@.len() as int) == s@);
    u
}

fn find_ah(u: &[char]) -> (r: Option<usize>)
    ensures
        match r {
            Some(a) => ah_at(u@) == Some(a as int) && a < u@.len(),
            None => ah_at(u@) is None,
        },
{
    let n = u.len();
    if n < 2 {
        assert(ah_at(u@) is None) by {
            if exists|i: int| #[trigger] ah_here(u@, i) {
                let w = choose|i: int| ah_here(u@, i);
            }
        }
        return None;
    }
    let mut k: usize = 0;
    while k < n - 1
        invariant
            n == u@.len(),
            n >= 2,
            k <= n - 1,
            forall|j: int| 0 <= j < k ==> !#[trigger] ah_here(u@, j),
        decreases n - 1 - k,
    {
        if u[k] == 'A' && u[k + 1] == 'H' {
            proof {
                assert(ah_here(u@, k as int));
                let c = choose|i: int| ah_here(u@, i) && forall|j: int| 0 <= j < i ==> !#[trigger] ah_here(u@, j);
                if c < k {
                    assert(!ah_here(u@, c));
                } else if c > k {
                    assert(!ah_here(u@, k as int));
                }
            }
            return Some(k);
        }
        k = k + 1;
    }
    assert(ah_at(u@) is None) by {
        if exists|i: int| #[trigger] ah_here(u@, i) {
            let w = choose|i: int| ah_here(u@, i);
            assert(w < k);
        }
    }
    None
}

fn run_start(u: &[char], a: usize) -> (s: usize)
    requires
        a < u@.len(),
    ensures
        s <= a,
        s == a - rating_run(u@, a as int),
{
    let mut s: usize = a;
    while s > 0 && ((u[s - 1] >= '0' && u[s - 1] <= '9') || u[s - 1] == '.')
        invariant
            s <= a < u@.len(),
            rating_run(u@, a as int) == rating_run(u@, s as int) + (a - s),
        decreases s,
    {
        s = s - 1;
    }
    s
}

/// The amp-hour rating text of a specification string; `None` without an
/// `AH`.
pub fn rating_digits(spec: &str) -> (r: Option<String>)
    ensures
        opt_text(r) == rating_text(spec@),
{
    let src = chars_of(spec);
    let u = upper_all(src.as_slice());
    match find_ah(u.as_slice()) {
        None => None,
        Some(a) => {
            let s = run_start(u.as_slice(), a);
            Some(string_from_chars(slice_range(u.as_slice(), s, a)))
        },
    }
}

} // verus!
