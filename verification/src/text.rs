//! Character-level text handling shared by the parsers and formatters:
//! reading a `str` as characters, building a `String` from characters, ASCII
//! case folding, Unicode whitespace splitting, line splitting and decimal
//! number parsing / printing. Every operation is specified over `Seq<char>`.

use vstd::prelude::*;
use vstd::slice::slice_subrange;

verus! {

/// Rust's `char::is_whitespace`: the Unicode `White_Space` property.
pub open spec fn is_ws(c: char) -> bool {
    ||| c == '\t' || c == '\n' || c == '\x0B' || c == '\x0C' || c == '\r' || c == ' '
    ||| c == '\u{85}' || c == '\u{A0}' || c == '\u{1680}'
    ||| ('\u{2000}' <= c && c <= '\u{200A}')
    ||| c == '\u{2028}' || c == '\u{2029}' || c == '\u{202F}' || c == '\u{205F}'
    ||| c == '\u{3000}'
}

/// ASCII lower-casing of one character (`char::to_ascii_lowercase`).
pub open spec fn lower(c: char) -> char {
    if 'A' <= c && c <= 'Z' {
        ((c as u32) + 32) as char
    } else {
        c
    }
}

/// ASCII upper-casing of one character (`char::to_ascii_uppercase`).
pub open spec fn upper(c: char) -> char {
    if 'a' <= c && c <= 'z' {
        ((c as u32) - 32) as char
    } else {
        c
    }
}

/// ASCII lower-casing of a whole text (`str::to_ascii_lowercase`).
pub open spec fn lower_all(s: Seq<char>) -> Seq<char> {
    s.map_values(|c: char| lower(c))
}

/// `str::eq_ignore_ascii_case`.
pub open spec fn eq_ignore_case(a: Seq<char>, b: Seq<char>) -> bool {
    lower_all(a) == lower_all(b)
}

/// `a` begins with `p`.
pub open spec fn starts_with(a: Seq<char>, p: Seq<char>) -> bool {
    p.len() <= a.len() && a.subrange(0, p.len() as int) == p
}

/// `p` occurs in `a` as a contiguous run (`str::contains` with a `&str` pattern).
pub open spec fn contains_at(a: Seq<char>, p: Seq<char>, i: int) -> bool {
    0 <= i && i + p.len() <= a.len() && a.subrange(i, i + p.len()) == p
}

pub open spec fn contains(a: Seq<char>, p: Seq<char>) -> bool {
    exists|i: int| contains_at(a, p, i)
}

/// The characters of a `str`, in order.
pub fn chars_of(s: &str) -> (v: Vec<char>)
    ensures
        v@ == s@,
{
    let n = s.unicode_len();
    let mut v: Vec<char> = Vec::new();
    let mut i: usize = 0;
    while i < n
        invariant
            n == s@.len(),
            i <= n,
            v@ == s@.subrange(0, i as int),
        decreases n - i,
    {
        let c = s.get_char(i);
        v.push(c);
        i = i + 1;
        assert(v@ == s@.subrange(0, i as int));
    }
    assert(v@ == s@);
    v
}

/// `String` holding exactly the given characters, in order (std's
/// `FromIterator<&char> for String`, which appends each character).
#[verifier::external_body]
pub fn string_from_chars(v: &[char]) -> (s: String)
    ensures
        s@ == v@,
{
    String::from_iter(v)
}

/// `chars_eq(a, b)` decides equality of two character runs.
pub fn chars_eq(a: &[char], b: &[char]) -> (r: bool)
    ensures
        r == (a@ == b@),
{
    if a.len() != b.len() {
        return false;
    }
    let mut i: usize = 0;
    while i < a.len()
        invariant
            a.len() == b.len(),
            i <= a.len(),
            forall|j: int| 0 <= j < i ==> a@[j] == b@[j],
        decreases a.len() - i,
    {
        if a[i] != b[i] {
            return false;
        }
        i = i + 1;
    }
    assert(a@ == b@);
    true
}

/// ASCII lower-casing of one character.
pub fn lower_char(c: char) -> (r: char)
    ensures
        r == lower(c),
{
    if 'A' <= c && c <= 'Z' {
        let u: u32 = c as u32 + 32;
        assert(u <= 0x7f);
        assert(u as char == ((c as u32) + 32) as char);
        char_of_ascii(u as u8)
    } else {
        c
    }
}

/// An ASCII code point as a `char`.
fn char_of_ascii(b: u8) -> (c: char)
    requires
        b < 128,
    ensures
        c == b as char,
        c as u32 == b as u32,
{
    b as char
}

/// `str::to_ascii_lowercase` on characters.
pub fn lower_chars(s: &[char]) -> (r: Vec<char>)
    ensures
        r@ == lower_all(s@),
{
    let mut r: Vec<char> = Vec::new();
    let mut i: usize = 0;
    while i < s.len()
        invariant
            i <= s.len(),
            r@ == lower_all(s@.subrange(0, i as int)),
        decreases s.len() - i,
    {
        let c = lower_char(s[i]);
        r.push(c);
        i = i + 1;
        assert(lower_all(s@.subrange(0, i as int)) == lower_all(s@.subrange(0, i - 1)).push(
            lower(s@[i - 1]),
        ));
    }
    assert(s@.subrange(0, s.len() as int) == s@);
    r
}

/// `str::eq_ignore_ascii_case` on characters.
pub fn eq_ignore_ascii_case(a: &[char], b: &[char]) -> (r: bool)
    ensures
        r == eq_ignore_case(a@, b@),
{
    let la = lower_chars(a);
    let lb = lower_chars(b);
    chars_eq(la.as_slice(), lb.as_slice())
}


/// One step of the whitespace tokenizer over `s`: the completed tokens and the
/// token still being read.
pub open spec fn ws_state(s: Seq<char>) -> (Seq<Seq<char>>, Seq<char>)
    decreases s.len(),
{
    if s.len() == 0 {
        (Seq::empty(), Seq::empty())
    } else {
        let (done, cur) = ws_state(s.drop_last());
        let c = s.last();
        if is_ws(c) {
            if cur.len() > 0 {
                (done.push(cur), Seq::empty())
            } else {
                (done, Seq::empty())
            }
        } else {
            (done, cur.push(c))
        }
    }
}

/// `str::split_whitespace`: the maximal runs of non-whitespace characters.
pub open spec fn split_ws(s: Seq<char>) -> Seq<Seq<char>> {
    let (done, cur) = ws_state(s);
    if cur.len() > 0 {
        done.push(cur)
    } else {
        done
    }
}

/// One step of `str::lines` over `s`: the completed lines and the line still
/// being read.
pub open spec fn lines_state(s: Seq<char>) -> (Seq<Seq<char>>, Seq<char>)
    decreases s.len(),
{
    if s.len() == 0 {
        (Seq::empty(), Seq::empty())
    } else {
        let (done, cur) = lines_state(s.drop_last());
        let c = s.last();
        if c == '\n' {
            (done.push(strip_cr(cur)), Seq::empty())
        } else {
            (done, cur.push(c))
        }
    }
}

/// A line ended by `\n` loses one trailing `\r` (a `\r\n` line ending).
pub open spec fn strip_cr(l: Seq<char>) -> Seq<char> {
    if l.len() > 0 && l.last() == '\r' {
        l.drop_last()
    } else {
        l
    }
}

/// `str::lines`: split at `\n` (a preceding `\r` belongs to the ending); the
/// last line needs no ending and an empty last segment is not a line.
pub open spec fn lines(s: Seq<char>) -> Seq<Seq<char>> {
    let (done, cur) = lines_state(s);
    if cur.len() > 0 {
        done.push(cur)
    } else {
        done
    }
}

/// Rust's `char::is_whitespace`.
pub fn is_whitespace(c: char) -> (r: bool)
    ensures
        r == is_ws(c),
{
    c == '\t' || c == '\n' || c == '\x0B' || c == '\x0C' || c == '\r' || c == ' ' || c == '\u{85}'
        || c == '\u{A0}' || c == '\u{1680}' || ('\u{2000}' <= c && c <= '\u{200A}') || c
        == '\u{2028}' || c == '\u{2029}' || c == '\u{202F}' || c == '\u{205F}' || c == '\u{3000}'
}

/// The character runs of a token list, as sequences.
pub open spec fn runs_view(v: Seq<Vec<char>>) -> Seq<Seq<char>> {
    v.map_values(|t: Vec<char>| t@)
}

/// `str::split_whitespace` on characters.
pub fn split_whitespace(s: &[char]) -> (r: Vec<Vec<char>>)
    ensures
        runs_view(r@) == split_ws(s@),
{
    let mut done: Vec<Vec<char>> = Vec::new();
    let mut cur: Vec<char> = Vec::new();
    let mut i: usize = 0;
    while i < s.len()
        invariant
            i <= s.len(),
            (runs_view(done@), cur@) == ws_state(s@.subrange(0, i as int)),
        decreases s.len() - i,
    {
        let c = s[i];
        let ghost pre = s@.subrange(0, i as int);
        assert(s@.subrange(0, i + 1).drop_last() == pre);
        if is_whitespace(c) {
            if cur.len() > 0 {
                let t = cur;
                done.push(t);
                cur = Vec::new();
                assert(runs_view(done@) == ws_state(pre).0.push(ws_state(pre).1));
            }
        } else {
            cur.push(c);
        }
        i = i + 1;
    }
    assert(s@.subrange(0, s.len() as int) == s@);
    if cur.len() > 0 {
        done.push(cur);
        assert(runs_view(done@) == ws_state(s@).0.push(ws_state(s@).1));
    }
    done
}

/// `str::lines` on characters.
pub fn split_lines(s: &[char]) -> (r: Vec<Vec<char>>)
    ensures
        runs_view(r@) == lines(s@),
{
    let mut done: Vec<Vec<char>> = Vec::new();
    let mut cur: Vec<char> = Vec::new();
    let mut i: usize = 0;
    while i < s.len()
        invariant
            i <= s.len(),
            (runs_view(done@), cur@) == lines_state(s@.subrange(0, i as int)),
        decreases s.len() - i,
    {
        let c = s[i];
        let ghost pre = s@.subrange(0, i as int);
        assert(s@.subrange(0, i + 1).drop_last() == pre);
        if c == '\n' {
            let mut t = cur;
            if t.len() > 0 && t[t.len() - 1] == '\r' {
                t.pop();
            }
            done.push(t);
            cur = Vec::new();
            assert(runs_view(done@) == lines_state(pre).0.push(strip_cr(lines_state(pre).1)));
        } else {
            cur.push(c);
        }
        i = i + 1;
    }
    assert(s@.subrange(0, s.len() as int) == s@);
    if cur.len() > 0 {
        done.push(cur);
        assert(runs_view(done@) == lines_state(s@).0.push(lines_state(s@).1));
    }
    done
}

/// `char::to_digit(radix)` for radix 2..=36.
pub open spec fn digit_of(c: char, radix: nat) -> Option<nat> {
    let v: int = if '0' <= c && c <= '9' {
        (c as u32) - ('0' as u32)
    } else if 'a' <= c && c <= 'z' {
        (c as u32) - ('a' as u32) + 10
    } else if 'A' <= c && c <= 'Z' {
        (c as u32) - ('A' as u32) + 10
    } else {
        radix as int
    };
    if v < radix {
        Some(v as nat)
    } else {
        None
    }
}

pub open spec fn all_digits(s: Seq<char>, radix: nat) -> bool {
    forall|i: int| 0 <= i < s.len() ==> (#[trigger] digit_of(s[i], radix)) is Some
}

/// Positional value of a run of digits.
pub open spec fn digits_value(s: Seq<char>, radix: nat) -> nat
    decreases s.len(),
{
    if s.len() == 0 {
        0
    } else {
        digits_value(s.drop_last(), radix) * radix + digit_of(s.last(), radix).unwrap_or(0)
    }
}

/// The digits of an unsigned number text: a single leading `+` is allowed.
pub open spec fn unsigned_body(s: Seq<char>) -> Seq<char> {
    if s.len() > 0 && s[0] == '+' {
        s.drop_first()
    } else {
        s
    }
}

/// `from_str_radix` for an unsigned type whose largest value is `max`: an
/// optional `+`, then at least one digit, and no overflow.
pub open spec fn parse_unsigned(s: Seq<char>, radix: nat, max: nat) -> Option<nat> {
    let d = unsigned_body(s);
    if d.len() > 0 && all_digits(d, radix) && digits_value(d, radix) <= max {
        Some(digits_value(d, radix))
    } else {
        None
    }
}

/// `from_str` for a signed decimal type with range `min..=max`: an optional
/// `-` or `+`, then at least one digit, and no overflow.
pub open spec fn parse_signed(s: Seq<char>, min: int, max: int) -> Option<int> {
    if s.len() > 0 && s[0] == '-' {
        let d = s.drop_first();
        if d.len() > 0 && all_digits(d, 10) && -(digits_value(d, 10) as int) >= min {
            Some(-(digits_value(d, 10) as int))
        } else {
            None
        }
    } else {
        match parse_unsigned(s, 10, max as nat) {
            Some(v) => if max >= 0 { Some(v as int) } else { None },
            None => None,
        }
    }
}

proof fn lemma_digits_value_prefix(s: Seq<char>, radix: nat, i: int)
    requires
        0 <= i <= s.len(),
        radix >= 1,
    ensures
        digits_value(s.subrange(0, i), radix) <= digits_value(s, radix),
    decreases s.len() - i,
{
    if i < s.len() {
        lemma_digits_value_prefix(s, radix, i + 1);
        let p = s.subrange(0, i + 1);
        assert(p.drop_last() == s.subrange(0, i));
        let a = digits_value(s.subrange(0, i), radix);
        assert(a * radix >= a) by (nonlinear_arith)
            requires
                radix >= 1,
        ;
    } else {
        assert(s.subrange(0, i) == s);
    }
}

/// One digit of `c` in `radix`.
pub fn digit_value(c: char, radix: u32) -> (r: Option<u32>)
    requires
        2 <= radix <= 36,
    ensures
        r matches Some(v) ==> digit_of(c, radix as nat) == Some(v as nat),
        r is None ==> digit_of(c, radix as nat) is None,
{
    let v: u32 = if '0' <= c && c <= '9' {
        c as u32 - '0' as u32
    } else if 'a' <= c && c <= 'z' {
        c as u32 - 'a' as u32 + 10
    } else if 'A' <= c && c <= 'Z' {
        c as u32 - 'A' as u32 + 10
    } else {
        radix
    };
    if v < radix {
        Some(v)
    } else {
        None
    }
}

/// The value of a run of digits, or `None` if one is not a digit or the value
/// exceeds `max`.
pub fn digits(d: &[char], radix: u32, max: u64) -> (r: Option<u64>)
    requires
        2 <= radix <= 36,
        max <= 0x1_0000_0000,
    ensures
        r matches Some(v) ==> all_digits(d@, radix as nat) && digits_value(d@, radix as nat) <= max
            && v == digits_value(d@, radix as nat),
        r is None ==> !(all_digits(d@, radix as nat) && digits_value(d@, radix as nat) <= max),
{
    let mut acc: u64 = 0;
    let mut i: usize = 0;
    while i < d.len()
        invariant
            2 <= radix <= 36,
            max <= 0x1_0000_0000,
            i <= d.len(),
            acc <= max,
            all_digits(d@.subrange(0, i as int), radix as nat),
            acc == digits_value(d@.subrange(0, i as int), radix as nat),
        decreases d.len() - i,
    {
        let ghost pre = d@.subrange(0, i as int);
        assert(d@.subrange(0, i + 1).drop_last() == pre);
        match digit_value(d[i], radix) {
            None => {
                assert(!all_digits(d@, radix as nat)) by {
                    assert(digit_of(d@[i as int], radix as nat) is None);
                }
                return None;
            },
            Some(x) => {
                assert(acc * (radix as u64) <= 0x1_0000_0000 * 36) by (nonlinear_arith)
                    requires
                        acc <= 0x1_0000_0000,
                        radix <= 36,
                ;
                let next: u64 = acc * (radix as u64) + (x as u64);
                if next > max {
                    proof {
                        assert(digits_value(d@.subrange(0, i + 1), radix as nat) == next);
                        lemma_digits_value_prefix(d@, radix as nat, i + 1);
                    }
                    return None;
                }
                acc = next;
                i = i + 1;
                assert(all_digits(d@.subrange(0, i as int), radix as nat)) by {
                    assert forall|j: int| 0 <= j < i implies #[trigger] digit_of(
                        d@.subrange(0, i as int)[j],
                        radix as nat,
                    ) is Some by {
                        if j < i - 1 {
                            assert(d@.subrange(0, i as int)[j] == pre[j]);
                        }
                    }
                }
            },
        }
    }
    assert(d@.subrange(0, d.len() as int) == d@);
    Some(acc)
}

/// `from_str_radix` for an unsigned type whose largest value is `max`.
pub fn parse_unsigned_chars(s: &[char], radix: u32, max: u64) -> (r: Option<u64>)
    requires
        2 <= radix <= 36,
        max <= u32::MAX,
    ensures
        r matches Some(v) ==> parse_unsigned(s@, radix as nat, max as nat) == Some(v as nat),
        r is None ==> parse_unsigned(s@, radix as nat, max as nat) is None,
{
    let body: &[char] = if s.len() > 0 && s[0] == '+' {
        slice_tail(s)
    } else {
        s
    };
    if body.len() == 0 {
        return None;
    }
    digits(body, radix, max)
}

/// Everything after the first element.
pub fn slice_tail<T>(s: &[T]) -> (r: &[T])
    requires
        s.len() > 0,
    ensures
        r@ == s@.drop_first(),
{
    slice_subrange(s, 1, s.len())
}

/// `&s[from..to]`.
pub fn slice_range<T>(s: &[T], from: usize, to: usize) -> (r: &[T])
    requires
        from <= to <= s.len(),
    ensures
        r@ == s@.subrange(from as int, to as int),
{
    slice_subrange(s, from, to)
}

/// `a` begins with `p`.
pub fn starts_with_chars(a: &[char], p: &[char]) -> (r: bool)
    ensures
        r == starts_with(a@, p@),
{
    if p.len() > a.len() {
        return false;
    }
    let mut i: usize = 0;
    while i < p.len()
        invariant
            p.len() <= a.len(),
            i <= p.len(),
            forall|j: int| 0 <= j < i ==> a@[j] == p@[j],
        decreases p.len() - i,
    {
        if a[i] != p[i] {
            assert(a@.subrange(0, p@.len() as int)[i as int] != p@[i as int]);
            return false;
        }
        i = i + 1;
    }
    assert(a@.subrange(0, p@.len() as int) == p@);
    true
}

/// `p` occurs somewhere in `a` (`str::contains`).
pub fn contains_chars(a: &[char], p: &[char]) -> (r: bool)
    ensures
        r == contains(a@, p@),
{
    if p.len() > a.len() {
        assert(!contains(a@, p@));
        return false;
    }
    let last: usize = a.len() - p.len();
    let mut i: usize = 0;
    loop
        invariant
            last == a@.len() - p@.len(),
            i <= last,
            forall|j: int| 0 <= j < i ==> !contains_at(a@, p@, j),
        decreases last - i,
    {
        let tail = slice_range(a, i, a.len());
        assert(tail@.subrange(0, p@.len() as int) == a@.subrange(i as int, i + p@.len()));
        if starts_with_chars(tail, p) {
            assert(contains_at(a@, p@, i as int));
            return true;
        }
        if i == last {
            assert forall|j: int| !contains_at(a@, p@, j) by {
                if 0 <= j && j + p@.len() <= a@.len() && j != i {
                    assert(j < i);
                }
            }
            return false;
        }
        i = i + 1;
    }
}

/// `from_str` for a signed decimal type with range `min..=max`.
pub fn parse_signed_chars(s: &[char], min: i64, max: i64) -> (r: Option<i64>)
    requires
        -0x1_0000_0000 <= min <= 0 <= max <= 0xFFFF_FFFF,
    ensures
        r matches Some(v) ==> parse_signed(s@, min as int, max as int) == Some(v as int),
        r is None ==> parse_signed(s@, min as int, max as int) is None,
{
    if s.len() > 0 && s[0] == '-' {
        let d = slice_tail(s);
        if d.len() == 0 {
            return None;
        }
        let lim: u64 = (0 - min) as u64;
        match digits(d, 10, lim) {
            Some(v) => Some(0 - (v as i64)),
            None => None,
        }
    } else {
        match parse_unsigned_chars(s, 10, max as u64) {
            Some(v) => Some(v as i64),
            None => None,
        }
    }
}

/// Decimal text of a natural number.
pub open spec fn decimal(n: nat) -> Seq<char>
    decreases n,
{
    if n < 10 {
        seq![((n + 48) as u32) as char]
    } else {
        decimal(n / 10).push((((n % 10) + 48) as u32) as char)
    }
}

/// Append the decimal text of `n`.
pub fn push_decimal(out: &mut Vec<char>, n: u64)
    ensures
        final(out)@ == old(out)@ + decimal(n as nat),
    decreases n,
{
    if n >= 10 {
        push_decimal(out, n / 10);
    }
    let d: u8 = (n % 10) as u8;
    let c = char_of_ascii(d + 48);
    out.push(c);
    proof {
        if n < 10 {
            assert(decimal(n as nat) == seq![c]);
        } else {
            assert(decimal(n as nat) == decimal((n / 10) as nat).push(c));
        }
    }
}

/// Append a run of characters.
pub fn push_all(out: &mut Vec<char>, s: &[char])
    ensures
        final(out)@ == old(out)@ + s@,
{
    let mut i: usize = 0;
    while i < s.len()
        invariant
            i <= s.len(),
            out@ == old(out)@ + s@.subrange(0, i as int),
        decreases s.len() - i,
    {
        out.push(s[i]);
        i = i + 1;
        assert(out@ == old(out)@ + s@.subrange(0, i as int));
    }
    assert(s@.subrange(0, s.len() as int) == s@);
}

/// Append the characters of a `str`.
pub fn push_str(out: &mut Vec<char>, s: &str)
    ensures
        final(out)@ == old(out)@ + s@,
{
    let v = chars_of(s);
    push_all(out, v.as_slice());
}

/// `s` without leading whitespace.
pub open spec fn trim_start(s: Seq<char>) -> Seq<char>
    decreases s.len(),
{
    if s.len() > 0 && is_ws(s[0]) {
        trim_start(s.drop_first())
    } else {
        s
    }
}

/// `s` without trailing whitespace.
pub open spec fn trim_end(s: Seq<char>) -> Seq<char>
    decreases s.len(),
{
    if s.len() > 0 && is_ws(s.last()) {
        trim_end(s.drop_last())
    } else {
        s
    }
}

/// `str::trim`: no leading or trailing whitespace.
pub open spec fn trim(s: Seq<char>) -> Seq<char> {
    trim_end(trim_start(s))
}

/// `str::trim` on characters.
pub fn trim_chars(s: &[char]) -> (r: Vec<char>)
    ensures
        r@ == trim(s@),
{
    let mut a: usize = 0;
    assert(s@.subrange(0, s.len() as int) == s@);
    while a < s.len() && is_whitespace(s[a])
        invariant
            a <= s.len(),
            trim_start(s@.subrange(a as int, s.len() as int)) == trim_start(s@),
        decreases s.len() - a,
    {
        assert(s@.subrange(a as int, s.len() as int).drop_first() == s@.subrange(
            a + 1,
            s.len() as int,
        ));
        a = a + 1;
    }
    let mut b: usize = s.len();
    let ghost ts = s@.subrange(a as int, s.len() as int);
    assert(trim_start(ts) == ts);
    assert(ts.subrange(0, ts.len() as int) == ts);
    while b > a && is_whitespace(s[b - 1])
        invariant
            a <= b <= s.len(),
            ts == s@.subrange(a as int, s.len() as int),
            trim_end(s@.subrange(a as int, b as int)) == trim_end(ts),
        decreases b - a,
    {
        assert(s@.subrange(a as int, b as int).drop_last() == s@.subrange(a as int, b - 1));
        b = b - 1;
    }
    let mut r: Vec<char> = Vec::new();
    push_all(&mut r, slice_range(s, a, b));
    r
}

/// `s` with every occurrence of `c` removed (`str::replace(c, "")`).
pub open spec fn remove_char(s: Seq<char>, c: char) -> Seq<char> {
    s.filter(|x: char| x != c)
}

/// Remove every occurrence of `c`.
pub fn remove_chars(s: &[char], c: char) -> (r: Vec<char>)
    ensures
        r@ == remove_char(s@, c),
{
    let mut r: Vec<char> = Vec::new();
    let mut i: usize = 0;
    while i < s.len()
        invariant
            i <= s.len(),
            r@ == remove_char(s@.subrange(0, i as int), c),
        decreases s.len() - i,
    {
        proof {
            reveal_with_fuel(Seq::<_>::filter, 1);
            assert(s@.subrange(0, i + 1).drop_last() == s@.subrange(0, i as int));
        }
        if s[i] != c {
            r.push(s[i]);
        }
        i = i + 1;
    }
    assert(s@.subrange(0, s.len() as int) == s@);
    r
}

/// One step of splitting `s` at every `sep`: the finished pieces and the piece
/// being read.
pub open spec fn split_state(s: Seq<char>, sep: char) -> (Seq<Seq<char>>, Seq<char>)
    decreases s.len(),
{
    if s.len() == 0 {
        (Seq::empty(), Seq::empty())
    } else {
        let (done, cur) = split_state(s.drop_last(), sep);
        if s.last() == sep {
            (done.push(cur), Seq::empty())
        } else {
            (done, cur.push(s.last()))
        }
    }
}

/// `str::split(sep)` with a `char` separator: the pieces between separators,
/// empty ones included; there is always at least one.
pub open spec fn split_at_char(s: Seq<char>, sep: char) -> Seq<Seq<char>> {
    split_state(s, sep).0.push(split_state(s, sep).1)
}

/// Split at every `sep`.
pub fn split_char(s: &[char], sep: char) -> (r: Vec<Vec<char>>)
    ensures
        runs_view(r@) == split_at_char(s@, sep),
{
    let mut done: Vec<Vec<char>> = Vec::new();
    let mut cur: Vec<char> = Vec::new();
    let mut i: usize = 0;
    while i < s.len()
        invariant
            i <= s.len(),
            (runs_view(done@), cur@) == split_state(s@.subrange(0, i as int), sep),
        decreases s.len() - i,
    {
        let c = s[i];
        let ghost pre = s@.subrange(0, i as int);
        assert(s@.subrange(0, i + 1).drop_last() == pre);
        if c == sep {
            let t = cur;
            done.push(t);
            cur = Vec::new();
            assert(runs_view(done@) == split_state(pre, sep).0.push(split_state(pre, sep).1));
        } else {
            cur.push(c);
        }
        i = i + 1;
    }
    assert(s@.subrange(0, s.len() as int) == s@);
    done.push(cur);
    assert(runs_view(done@) == split_state(s@, sep).0.push(split_state(s@, sep).1));
    done
}

/// `str::trim_start_matches(p)` with a text pattern: every leading repetition
/// of `p` removed (nothing for an empty `p`).
pub open spec fn trim_start_matches(s: Seq<char>, p: Seq<char>) -> Seq<char>
    decreases s.len(),
{
    if p.len() > 0 && starts_with(s, p) {
        trim_start_matches(s.subrange(p.len() as int, s.len() as int), p)
    } else {
        s
    }
}

/// Remove every leading repetition of `p`.
pub fn trim_start_matching<'a>(s: &'a [char], p: &[char]) -> (r: &'a [char])
    ensures
        r@ == trim_start_matches(s@, p@),
{
    if p.len() == 0 {
        return s;
    }
    let mut a: usize = 0;
    assert(s@.subrange(0, s.len() as int) == s@);
    loop
        invariant
            p@.len() > 0,
            a <= s.len(),
            trim_start_matches(s@.subrange(a as int, s.len() as int), p@) == trim_start_matches(
                s@,
                p@,
            ),
        decreases s.len() - a,
    {
        let rest = slice_range(s, a, s.len());
        if starts_with_chars(rest, p) {
            assert(rest@.subrange(p@.len() as int, rest@.len() as int) == s@.subrange(
                a + p@.len(),
                s.len() as int,
            ));
            a = a + p.len();
        } else {
            return rest;
        }
    }
}

/// The first position of `c` in `s`.
pub open spec fn first_of(s: Seq<char>, c: char) -> Option<int>
    decreases s.len(),
{
    if s.len() == 0 {
        None
    } else {
        match first_of(s.drop_last(), c) {
            Some(i) => Some(i),
            None => if s.last() == c {
                Some(s.len() - 1)
            } else {
                None
            },
        }
    }
}

/// The first position of `c`.
pub fn find_char(s: &[char], c: char) -> (r: Option<usize>)
    ensures
        match r {
            Some(i) => i < s@.len() && first_of(s@, c) == Some(i as int),
            None => first_of(s@, c) is None,
        },
{
    let mut i: usize = 0;
    while i < s.len()
        invariant
            i <= s@.len(),
            first_of(s@.subrange(0, i as int), c) is None,
        decreases s@.len() - i,
    {
        assert(s@.subrange(0, i + 1).drop_last() == s@.subrange(0, i as int));
        if s[i] == c {
            assert(first_of(s@.subrange(0, i + 1), c) == Some(i as int));
            proof {
                lemma_first_of_prefix(s@, c, i + 1);
            }
            return Some(i);
        }
        i = i + 1;
    }
    assert(s@.subrange(0, s@.len() as int) == s@);
    None
}

proof fn lemma_first_of_prefix(s: Seq<char>, c: char, n: int)
    requires
        0 <= n <= s.len(),
        first_of(s.subrange(0, n), c) is Some,
    ensures
        first_of(s, c) == first_of(s.subrange(0, n), c),
    decreases s.len() - n,
{
    if n < s.len() {
        assert(s.subrange(0, n + 1).drop_last() == s.subrange(0, n));
        lemma_first_of_prefix(s, c, n + 1);
    } else {
        assert(s.subrange(0, n) == s);
    }
}

/// The text of an optional string.
pub open spec fn opt_text(o: Option<String>) -> Option<Seq<char>> {
    match o {
        Some(s) => Some(s@),
        None => None,
    }
}

/// The text that `String::from_utf8_lossy` makes of a byte sequence.
pub uninterp spec fn utf8_lossy(bytes: Seq<u8>) -> Seq<char>;

/// `String::from_utf8_lossy(bytes).into_owned()`: the bytes decoded as UTF-8,
/// each invalid sequence replaced by U+FFFD. The result is a function of the
/// bytes alone; for valid UTF-8 it is exactly the decoded text.
#[verifier::external_body]
pub fn utf8_lossy_string(bytes: &[u8]) -> (s: String)
    ensures
        s@ == utf8_lossy(bytes@),
        vstd::utf8::valid_utf8(bytes@) ==> s@ == vstd::utf8::decode_utf8(bytes@),
{
    String::from_utf8_lossy(bytes).into_owned()
}

} // verus!
