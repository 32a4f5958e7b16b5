//! Persistent credential storage: opaque byte blobs keyed by a stable string
//! (typically `"<backend>:<serial>"`), kept as hex text.
//!
//! [`CredentialCache`] is the in-memory content of the file-backed store and
//! its on-disk format, `key\thexvalue` lines. Reading and writing the file is
//! the host's business; everything between the file's text and the bytes a
//! backend saved is here.

use crate::text::{
    chars_eq, chars_of, digit_of, digits_value, lines, lines_state, parse_unsigned,
    parse_unsigned_chars, push_str, runs_view, slice_range, split_lines, string_from_chars,
    strip_cr, unsigned_body,
};
use vstd::prelude::*;
use vstd::string::StringSliceAdditionalSpecFns;

verus! {

/// Lowercase hex digit of a nibble.
pub open spec fn hex_digit(n: int) -> char {
    if n < 10 {
        ((n + 48) as u32) as char
    } else {
        ((n + 87) as u32) as char
    }
}

/// Two lowercase hex digits per byte (`format!("{b:02x}")`).
pub open spec fn hex_text(bytes: Seq<u8>) -> Seq<char>
    decreases bytes.len(),
{
    if bytes.len() == 0 {
        Seq::empty()
    } else {
        let b = bytes.last();
        hex_text(bytes.drop_last()) + seq![hex_digit((b / 16) as int), hex_digit((b % 16) as int)]
    }
}

fn hex_char(n: u8) -> (c: char)
    requires
        n < 16,
    ensures
        c == hex_digit(n as int),
{
    if n < 10 {
        (n + 48) as char
    } else {
        (n + 87) as char
    }
}

/// Hex-encode bytes, two lowercase digits each.
pub fn encode_hex(bytes: &[u8]) -> (s: String)
    ensures
        s@ == hex_text(bytes@),
{
    let mut out: Vec<char> = Vec::new();
    let mut i: usize = 0;
    while i < bytes.len()
        invariant
            i <= bytes.len(),
            out@ == hex_text(bytes@.subrange(0, i as int)),
        decreases bytes.len() - i,
    {
        let b = bytes[i];
        out.push(hex_char(b / 16));
        out.push(hex_char(b % 16));
        assert(bytes@.subrange(0, i + 1).drop_last() == bytes@.subrange(0, i as int));
        i = i + 1;
    }
    assert(bytes@.subrange(0, bytes.len() as int) == bytes@);
    string_from_chars(out.as_slice())
}

/// The byte that a two-byte chunk of hex text stands for. The chunk is
/// parsed as an unsigned hex number (a leading `+` is allowed); a chunk that
/// is not two ASCII characters stands for nothing.
pub open spec fn pair_value(b0: u8, b1: u8) -> Option<u8> {
    if b0 < 128 && b1 < 128 {
        match parse_unsigned(seq![b0 as char, b1 as char], 16, 255) {
            Some(v) => Some(v as u8),
            None => None,
        }
    } else {
        None
    }
}

/// Decoding of the chunks `0..k` of hex text, `None` at the first chunk that
/// stands for nothing.
pub open spec fn hex_prefix(bytes: Seq<u8>, k: nat) -> Option<Seq<u8>>
    decreases k,
{
    if k == 0 {
        Some(Seq::empty())
    } else {
        match hex_prefix(bytes, (k - 1) as nat) {
            Some(p) => match pair_value(bytes[2 * k - 2], bytes[2 * k - 1]) {
                Some(v) => Some(p.push(v)),
                None => None,
            },
            None => None,
        }
    }
}

proof fn lemma_hex_prefix_stays_none(bytes: Seq<u8>, k: nat, j: nat)
    requires
        k <= j,
        hex_prefix(bytes, k) is None,
    ensures
        hex_prefix(bytes, j) is None,
    decreases j - k,
{
    if k < j {
        lemma_hex_prefix_stays_none(bytes, k, (j - 1) as nat);
    }
}

/// The bytes that a hex text stands for: `None` for an odd length or any
/// chunk that is not a hex byte.
pub open spec fn hex_value(bytes: Seq<u8>) -> Option<Seq<u8>> {
    if bytes.len() % 2 != 0 {
        None
    } else {
        hex_prefix(bytes, (bytes.len() / 2) as nat)
    }
}

/// Every chunk that decoding reaches starts and ends on a character boundary,
/// so cutting it out of the text is possible.
pub open spec fn hex_cuttable(bytes: Seq<u8>) -> bool {
    bytes.len() % 2 == 0 ==> forall|k: nat|
        k < bytes.len() / 2 && (#[trigger] hex_prefix(bytes, k)) is Some ==> {
            &&& vstd::utf8::is_char_boundary(bytes, (2 * k) as int)
            &&& vstd::utf8::is_char_boundary(bytes, (2 * k + 2) as int)
        }
}

/// Decode hex text produced by [`encode_hex`].
pub fn decode_hex(s: &str) -> (r: Option<Vec<u8>>)
    requires
        hex_cuttable(s.spec_bytes()),
    ensures
        match r {
            Some(v) => hex_value(s.spec_bytes()) == Some(v@),
            None => hex_value(s.spec_bytes()) is None,
        },
{
    let b = s.as_bytes();
    if b.len() % 2 != 0 {
        return None;
    }
    let mut out: Vec<u8> = Vec::new();
    let mut k: usize = 0;
    while k < b.len() / 2
        invariant
            b@ == s.spec_bytes(),
            b.len() % 2 == 0,
            k <= b.len() / 2,
            hex_prefix(b@, k as nat) == Some(out@),
        decreases b.len() / 2 - k,
    {
        let b0 = b[2 * k];
        let b1 = b[2 * k + 1];
        if b0 >= 128 || b1 >= 128 {
            proof {
                lemma_hex_prefix_stays_none(b@, (k + 1) as nat, (b.len() / 2) as nat);
            }
            return None;
        }
        let pair: [char; 2] = [b0 as char, b1 as char];
        assert(pair@ == seq![b0 as char, b1 as char]);
        match parse_unsigned_chars(&pair, 16, 255) {
            Some(v) => {
                out.push(v as u8);
            },
            None => {
                proof {
                    lemma_hex_prefix_stays_none(b@, (k + 1) as nat, (b.len() / 2) as nat);
                }
                return None;
            },
        }
        k = k + 1;
    }
    Some(out)
}

/// The in-memory content of a credential file: key → hex value, keys unique,
/// the most recently saved key last.
pub struct CredentialCache {
    entries: Vec<(String, String)>,
}

/// The map a list of entries stands for (later entries win).
pub open spec fn entries_map(e: Seq<(String, String)>) -> Map<Seq<char>, Seq<char>>
    decreases e.len(),
{
    if e.len() == 0 {
        Map::empty()
    } else {
        entries_map(e.drop_last()).insert(e.last().0@, e.last().1@)
    }
}

impl View for CredentialCache {
    type V = Map<Seq<char>, Seq<char>>;

    closed spec fn view(&self) -> Map<Seq<char>, Seq<char>> {
        entries_map(self.entries@)
    }
}

/// The file line of one entry: `key`, a tab, `value`.
pub open spec fn entry_line(k: Seq<char>, v: Seq<char>) -> Seq<char> {
    k + seq!['\t'] + v
}

/// The file text of a list of entries: one line each, `\n`-terminated.
pub open spec fn entries_text(e: Seq<(String, String)>) -> Seq<char>
    decreases e.len(),
{
    if e.len() == 0 {
        Seq::empty()
    } else {
        entries_text(e.drop_last()) + entry_line(e.last().0@, e.last().1@) + seq!['\n']
    }
}

/// The first tab of a line, if any.
pub open spec fn first_tab(l: Seq<char>) -> Option<int> {
    if exists|i: int| 0 <= i < l.len() && l[i] == '\t' {
        Some(choose|i: int| 0 <= i < l.len() && l[i] == '\t' && forall|j: int| 0 <= j < i ==> l[j] != '\t')
    } else {
        None
    }
}

/// The map a file's lines stand for: each line with a tab is `key\tvalue`
/// split at its first tab; lines without one are skipped; later lines win.
pub open spec fn lines_map(ls: Seq<Seq<char>>) -> Map<Seq<char>, Seq<char>>
    decreases ls.len(),
{
    if ls.len() == 0 {
        Map::empty()
    } else {
        let m = lines_map(ls.drop_last());
        let l = ls.last();
        match first_tab(l) {
            Some(i) => m.insert(l.subrange(0, i), l.subrange(i + 1, l.len() as int)),
            None => m,
        }
    }
}

/// What a credential file's text stands for.
pub open spec fn text_map(text: Seq<char>) -> Map<Seq<char>, Seq<char>> {
    lines_map(lines(text))
}


/// The keys of a list of entries are pairwise distinct.
pub open spec fn distinct_keys(e: Seq<(String, String)>) -> bool {
    forall|i: int, j: int| 0 <= i < j < e.len() ==> #[trigger] e[i].0@ != #[trigger] e[j].0@
}

proof fn lemma_entries_map_absent(e: Seq<(String, String)>, k: Seq<char>)
    requires
        forall|i: int| 0 <= i < e.len() ==> #[trigger] e[i].0@ != k,
    ensures
        !entries_map(e).contains_key(k),
    decreases e.len(),
{
    if e.len() > 0 {
        lemma_entries_map_absent(e.drop_last(), k);
    }
}

proof fn lemma_entries_map_update(e: Seq<(String, String)>, i: int, x: (String, String))
    requires
        distinct_keys(e),
        0 <= i < e.len(),
        e[i].0@ == x.0@,
    ensures
        entries_map(e.update(i, x)) == entries_map(e).insert(x.0@, x.1@),
    decreases e.len(),
{
    let u = e.update(i, x);
    if i == e.len() - 1 {
        assert(u.drop_last() == e.drop_last());
        assert(entries_map(e).insert(x.0@, x.1@) == entries_map(e.drop_last()).insert(x.0@, x.1@));
    } else {
        lemma_entries_map_update(e.drop_last(), i, x);
        assert(u.drop_last() == e.drop_last().update(i, x));
        assert(e.last().0@ != x.0@);
        assert(entries_map(u) == entries_map(e).insert(x.0@, x.1@));
    }
}

proof fn lemma_entries_map_remove(e: Seq<(String, String)>, i: int)
    requires
        distinct_keys(e),
        0 <= i < e.len(),
    ensures
        entries_map(e.remove(i)) == entries_map(e).remove(e[i].0@),
    decreases e.len(),
{
    let r = e.remove(i);
    let k = e[i].0@;
    if i == e.len() - 1 {
        assert(r == e.drop_last());
        assert forall|j: int| 0 <= j < e.drop_last().len() implies #[trigger] e.drop_last()[j].0@ != k by {
            assert(e[j].0@ != e[i].0@);
        }
        lemma_entries_map_absent(e.drop_last(), k);
        assert(entries_map(e).remove(k) == entries_map(e.drop_last()));
    } else {
        lemma_entries_map_remove(e.drop_last(), i);
        assert(r.drop_last() == e.drop_last().remove(i));
        assert(r.last() == e.last());
        assert(e.last().0@ != k);
        assert(entries_map(r) == entries_map(e).remove(k));
    }
}

proof fn lemma_entries_map_lookup(e: Seq<(String, String)>, i: int)
    requires
        distinct_keys(e),
        0 <= i < e.len(),
    ensures
        entries_map(e).contains_key(e[i].0@),
        entries_map(e)[e[i].0@] == e[i].1@,
    decreases e.len(),
{
    if i < e.len() - 1 {
        lemma_entries_map_lookup(e.drop_last(), i);
        assert(e.last().0@ != e[i].0@);
    }
}

impl CredentialCache {
    /// The entries' keys are distinct.
    pub closed spec fn wf(&self) -> bool {
        distinct_keys(self.entries@)
    }

    /// An empty cache.
    pub fn new() -> (c: Self)
        ensures
            c.wf(),
            c@ == Map::<Seq<char>, Seq<char>>::empty(),
    {
        CredentialCache { entries: Vec::new() }
    }

    /// The position of `key` among the entries.
    fn find(&self, key: &[char]) -> (r: Option<usize>)
        ensures
            match r {
                Some(i) => i < self.entries@.len() && self.entries@[i as int].0@ == key@,
                None => forall|i: int| 0 <= i < self.entries@.len() ==> #[trigger] self.entries@[i].0@ != key@,
            },
    {
        let mut i: usize = 0;
        while i < self.entries.len()
            invariant
                i <= self.entries@.len(),
                forall|j: int| 0 <= j < i ==> #[trigger] self.entries@[j].0@ != key@,
            decreases self.entries@.len() - i,
        {
            let k = chars_of(self.entries[i].0.as_str());
            if chars_eq(k.as_slice(), key) {
                return Some(i);
            }
            i = i + 1;
        }
        None
    }

    /// Set `key` to the text `value`, keeping the position of an existing key.
    fn insert_text(&mut self, key: String, value: String)
        requires
            old(self).wf(),
        ensures
            final(self).wf(),
            final(self)@ == old(self)@.insert(key@, value@),
    {
        let kc = chars_of(key.as_str());
        match self.find(kc.as_slice()) {
            Some(i) => {
                proof {
                    lemma_entries_map_update(self.entries@, i as int, (key, value));
                }
                self.entries.set(i, (key, value));
                assert(distinct_keys(self.entries@)) by {
                    assert forall|a: int, b: int| 0 <= a < b < self.entries@.len() implies
                        #[trigger] self.entries@[a].0@ != #[trigger] self.entries@[b].0@ by {
                        assert(old(self).entries@[a].0@ != old(self).entries@[b].0@);
                    }
                }
            },
            None => {
                let ghost e = self.entries@;
                self.entries.push((key, value));
                assert(self.entries@.drop_last() == e);
                assert(distinct_keys(self.entries@)) by {
                    assert forall|a: int, b: int| 0 <= a < b < self.entries@.len() implies
                        #[trigger] self.entries@[a].0@ != #[trigger] self.entries@[b].0@ by {
                        if b < e.len() {
                            assert(e[a].0@ != e[b].0@);
                        } else {
                            assert(e[a].0@ != key@);
                        }
                    }
                }
            },
        }
    }

    /// Add an entry for a key that is not present, as the last entry.
    fn append_entry(&mut self, key: String, value: String)
        requires
            old(self).wf(),
            !old(self)@.contains_key(key@),
        ensures
            final(self).wf(),
            final(self).entries@ == old(self).entries@.push((key, value)),
    {
        let ghost e = self.entries@;
        assert forall|i: int| 0 <= i < e.len() implies #[trigger] e[i].0@ != key@ by {
            lemma_entries_map_lookup(e, i);
        }
        self.entries.push((key, value));
        assert(distinct_keys(self.entries@)) by {
            assert forall|a: int, b: int| 0 <= a < b < self.entries@.len() implies
                #[trigger] self.entries@[a].0@ != #[trigger] self.entries@[b].0@ by {
                if b < e.len() {
                    assert(e[a].0@ != e[b].0@);
                } else {
                    assert(e[a].0@ != key@);
                }
            }
        }
    }

    /// Persist `value` under `key`, hex-encoded (overwrites any previous
    /// value); the key becomes the last entry of the file, so its line is
    /// read back whatever the other entries hold.
    pub fn save(&mut self, key: &str, value: &[u8])
        requires
            old(self).wf(),
        ensures
            final(self).wf(),
            final(self)@ == old(self)@.insert(key@, hex_text(value@)),
            !key@.contains('\t') && !key@.contains('\n') ==> saved_in(
                final(self).text(),
                key@,
                value@,
            ),
    {
        let k = key.to_string();
        let v = encode_hex(value);
        let _ = self.delete(key);
        let ghost mid = self.entries@;
        self.append_entry(k, v);
        proof {
            lemma_entries_map_update_last(mid, (k, v));
            if !key@.contains('\t') && !key@.contains('\n') {
                lemma_last_entry_reads_back(self.entries@, value@);
            }
        }
    }

    /// Remove `key`; `true` when it was present.
    pub fn delete(&mut self, key: &str) -> (removed: bool)
        requires
            old(self).wf(),
        ensures
            final(self).wf(),
            removed == old(self)@.contains_key(key@),
            final(self)@ == old(self)@.remove(key@),
    {
        let kc = chars_of(key);
        match self.find(kc.as_slice()) {
            Some(i) => {
                proof {
                    lemma_entries_map_remove(self.entries@, i as int);
                    lemma_entries_map_lookup(self.entries@, i as int);
                }
                let ghost e = self.entries@;
                let _ = self.entries.remove(i);
                assert(distinct_keys(self.entries@)) by {
                    assert forall|a: int, b: int| 0 <= a < b < self.entries@.len() implies
                        #[trigger] self.entries@[a].0@ != #[trigger] self.entries@[b].0@ by {
                        if a < i {
                            if b < i {
                                assert(e[a].0@ != e[b].0@);
                            } else {
                                assert(e[a].0@ != e[b + 1].0@);
                            }
                        } else {
                            assert(e[a + 1].0@ != e[b + 1].0@);
                        }
                    }
                }
                true
            },
            None => {
                proof {
                    lemma_entries_map_absent(self.entries@, key@);
                    assert(old(self)@.remove(key@) == old(self)@);
                }
                false
            },
        }
    }

    /// The hex text stored under `key`.
    pub fn get(&self, key: &str) -> (r: Option<String>)
        requires
            self.wf(),
        ensures
            match r {
                Some(v) => self@.contains_key(key@) && v@ == self@[key@],
                None => !self@.contains_key(key@),
            },
    {
        let kc = chars_of(key);
        match self.find(kc.as_slice()) {
            Some(i) => {
                proof {
                    lemma_entries_map_lookup(self.entries@, i as int);
                }
                Some(self.entries[i].1.clone())
            },
            None => {
                proof {
                    lemma_entries_map_absent(self.entries@, key@);
                }
                None
            },
        }
    }
}


/// A line's first tab, found by a scan.
fn find_tab(l: &[char]) -> (r: Option<usize>)
    ensures
        match r {
            Some(t) => first_tab(l@) == Some(t as int) && t < l@.len(),
            None => first_tab(l@) is None,
        },
{
    let mut i: usize = 0;
    while i < l.len()
        invariant
            i <= l@.len(),
            forall|j: int| 0 <= j < i ==> l@[j] != '\t',
        decreases l@.len() - i,
    {
        if l[i] == '\t' {
            proof {
                let c = choose|j: int| 0 <= j < l@.len() && l@[j] == '\t' && forall|m: int| 0 <= m < j ==> l@[m] != '\t';
                assert(0 <= i < l@.len() && l@[i as int] == '\t' && forall|m: int| 0 <= m < i ==> l@[m] != '\t');
                if c < i {
                } else if c > i {
                    assert(l@[i as int] != '\t');
                }
            }
            return Some(i);
        }
        i = i + 1;
    }
    None
}

impl CredentialCache {
    /// The file text: one `key\thexvalue` line per entry, in insertion order.
    pub closed spec fn text(&self) -> Seq<char> {
        entries_text(self.entries@)
    }

    /// Read a credential file's text: each line with a tab is split at its
    /// first tab into key and value; other lines are skipped.
    pub fn parse(text: &str) -> (c: Self)
        ensures
            c.wf(),
            c@ == text_map(text@),
    {
        let chars = chars_of(text);
        let ls = split_lines(chars.as_slice());
        let mut c = CredentialCache::new();
        let mut i: usize = 0;
        while i < ls.len()
            invariant
                i <= ls@.len(),
                runs_view(ls@) == lines(text@),
                c.wf(),
                c@ == lines_map(runs_view(ls@).subrange(0, i as int)),
            decreases ls@.len() - i,
        {
            let l = ls[i].as_slice();
            let ghost all = runs_view(ls@);
            assert(all.subrange(0, i + 1).drop_last() == all.subrange(0, i as int));
            assert(all.subrange(0, i + 1).last() == l@);
            match find_tab(l) {
                Some(t) => {
                    let key = string_from_chars(slice_range(l, 0, t));
                    let value = string_from_chars(slice_range(l, t + 1, l.len()));
                    c.insert_text(key, value);
                },
                None => {},
            }
            i = i + 1;
        }
        assert(runs_view(ls@).subrange(0, ls@.len() as int) == runs_view(ls@));
        c
    }

    /// The file text of the cache: one `key\tvalue` line per entry, in
    /// insertion order; reading it back gives the same map whenever the
    /// format can carry the content.
    pub fn render(&self) -> (s: String)
        requires
            self.wf(),
        ensures
            s@ == self.text(),
            storable(self@) ==> text_map(s@) == self@,
    {
        let mut out: Vec<char> = Vec::new();
        let mut i: usize = 0;
        while i < self.entries.len()
            invariant
                i <= self.entries@.len(),
                out@ == entries_text(self.entries@.subrange(0, i as int)),
            decreases self.entries@.len() - i,
        {
            let ghost e = self.entries@.subrange(0, i + 1);
            assert(e.drop_last() == self.entries@.subrange(0, i as int));
            push_str(&mut out, self.entries[i].0.as_str());
            out.push('\t');
            push_str(&mut out, self.entries[i].1.as_str());
            out.push('\n');
            assert(out@ == entries_text(e));
            i = i + 1;
        }
        assert(self.entries@.subrange(0, self.entries@.len() as int) == self.entries@);
        proof {
            if storable(self@) {
                lemma_render_parse(*self);
            }
        }
        string_from_chars(out.as_slice())
    }

    /// Load the bytes saved under `key`: `None` when absent or when the
    /// stored text is not valid hex.
    pub fn load(&self, key: &str) -> (r: Option<Vec<u8>>)
        requires
            self.wf(),
            self@.contains_key(key@) ==> hex_cuttable(vstd::utf8::encode_utf8(self@[key@])),
        ensures
            match r {
                Some(b) => self@.contains_key(key@) && hex_value(
                    vstd::utf8::encode_utf8(self@[key@]),
                ) == Some(b@),
                None => !self@.contains_key(key@) || hex_value(
                    vstd::utf8::encode_utf8(self@[key@]),
                ) is None,
            },
    {
        match self.get(key) {
            Some(v) => decode_hex(v.as_str()),
            None => None,
        }
    }
}

/// Every key is free of tabs and newlines, and every value of newlines and
/// of a trailing carriage return: what the file format can carry.
pub open spec fn storable(m: Map<Seq<char>, Seq<char>>) -> bool {
    forall|k: Seq<char>| #[trigger] m.contains_key(k) ==> {
        &&& !k.contains('\t')
        &&& !k.contains('\n')
        &&& !m[k].contains('\n')
        &&& !(m[k].len() > 0 && m[k].last() == '\r')
    }
}

proof fn lemma_lines_state_append(p: Seq<char>, l: Seq<char>)
    requires
        !l.contains('\n'),
    ensures
        lines_state(p + l) == (lines_state(p).0, lines_state(p).1 + l),
    decreases l.len(),
{
    if l.len() == 0 {
        assert(p + l == p);
        assert(lines_state(p).1 + l == lines_state(p).1);
    } else {
        lemma_lines_state_append(p, l.drop_last());
        assert((p + l).drop_last() == p + l.drop_last());
        assert(l.last() != '\n') by {
            assert(l[l.len() - 1] == l.last());
        }
        assert(lines_state(p).1 + l == (lines_state(p).1 + l.drop_last()).push(l.last()));
    }
}

/// The lines of the file text of a list of entries.
pub open spec fn entry_lines(e: Seq<(String, String)>) -> Seq<Seq<char>> {
    Seq::new(e.len(), |i: int| entry_line(e[i].0@, e[i].1@))
}

proof fn lemma_entries_text_lines(e: Seq<(String, String)>)
    requires
        storable(entries_map(e)),
        distinct_keys(e),
    ensures
        lines_state(entries_text(e)) == (entry_lines(e), Seq::<char>::empty()),
    decreases e.len(),
{
    if e.len() > 0 {
        let d = e.drop_last();
        assert(distinct_keys(d));
        assert(storable(entries_map(d))) by {
            assert forall|k: Seq<char>| #[trigger] entries_map(d).contains_key(k) implies {
                &&& !k.contains('\t')
                &&& !k.contains('\n')
                &&& !entries_map(d)[k].contains('\n')
                &&& !(entries_map(d)[k].len() > 0 && entries_map(d)[k].last() == '\r')
            } by {
                lemma_entries_map_index(d, k);
                let i = choose|i: int| 0 <= i < d.len() && d[i].0@ == k;
                lemma_entries_map_lookup(d, i);
                lemma_entries_map_lookup(e, i);
                assert(entries_map(e).contains_key(k));
            }
        }
        lemma_entries_text_lines(d);
        let k = e.last().0@;
        let v = e.last().1@;
        lemma_entries_map_lookup(e, e.len() - 1);
        assert(entries_map(e).contains_key(k));
        let line = entry_line(k, v);
        assert(!line.contains('\n')) by {
            if line.contains('\n') {
                let j = choose|j: int| 0 <= j < line.len() && line[j] == '\n';
                if j < k.len() {
                    assert(k[j] == '\n');
                } else if j > k.len() {
                    assert(v[j - k.len() - 1] == '\n');
                }
            }
        }
        let t = entries_text(d);
        lemma_lines_state_append(t, line);
        assert(entries_text(e) == (t + line).push('\n'));
        assert((t + line).push('\n').drop_last() == t + line);
        assert(Seq::<char>::empty() + line == line);
        assert(strip_cr(line) == line) by {
            if v.len() > 0 {
                assert(line.last() == v.last());
            } else {
                assert(line.last() == '\t');
            }
        }
        assert(entry_lines(e) == entry_lines(d).push(line));
    }
}

proof fn lemma_entries_map_update_last(e: Seq<(String, String)>, x: (String, String))
    ensures
        entries_map(e.push(x)) == entries_map(e).insert(x.0@, x.1@),
{
    assert(e.push(x).drop_last() == e);
}

/// The text a store writes holds `key` mapped to the hex text of `bytes`.
pub open spec fn saved_in(text: Seq<char>, key: Seq<char>, bytes: Seq<u8>) -> bool {
    &&& text_map(text).contains_key(key)
    &&& text_map(text)[key] == hex_text(bytes)
}

proof fn lemma_lines_state_line_end(t: Seq<char>)
    requires
        t.len() > 0,
        t.last() == '\n',
    ensures
        lines_state(t).1 == Seq::<char>::empty(),
{
    assert(t.drop_last().push(t.last()) == t);
}

proof fn lemma_entries_text_ends(e: Seq<(String, String)>)
    ensures
        lines_state(entries_text(e)).1 == Seq::<char>::empty(),
{
    if e.len() > 0 {
        let t = entries_text(e);
        assert(t.last() == '\n');
        lemma_lines_state_line_end(t);
    }
}

/// The last entry's line is read back last, so its key maps to its value
/// whatever the earlier lines hold.
proof fn lemma_last_entry_reads_back(e: Seq<(String, String)>, bytes: Seq<u8>)
    requires
        e.len() > 0,
        !e.last().0@.contains('\t'),
        !e.last().0@.contains('\n'),
        e.last().1@ == hex_text(bytes),
    ensures
        saved_in(entries_text(e), e.last().0@, bytes),
{
    let d = e.drop_last();
    let k = e.last().0@;
    let v = e.last().1@;
    let line = entry_line(k, v);
    let t = entries_text(d);
    lemma_hex_text_plain(bytes);
    assert(!line.contains('\n')) by {
        if line.contains('\n') {
            let j = choose|j: int| 0 <= j < line.len() && line[j] == '\n';
            if j < k.len() {
                assert(k[j] == '\n');
            } else if j > k.len() {
                assert(v[j - k.len() - 1] == '\n');
            }
        }
    }
    lemma_entries_text_ends(d);
    lemma_lines_state_append(t, line);
    assert(entries_text(e) == (t + line).push('\n'));
    assert((t + line).push('\n').drop_last() == t + line);
    assert(Seq::<char>::empty() + line == line);
    assert(strip_cr(line) == line) by {
        if v.len() > 0 {
            assert(line.last() == v.last());
            assert(v.contains(v.last()));
        } else {
            assert(line.last() == '\t');
        }
    }
    let ls = lines_state(t).0.push(line);
    assert(lines(entries_text(e)) == ls);
    assert(ls.drop_last() == lines_state(t).0);
    assert(ls.last() == line);
    assert(line[k.len() as int] == '\t');
    let c = choose|i: int| 0 <= i < line.len() && line[i] == '\t' && forall|j: int| 0 <= j < i ==> line[j] != '\t';
    assert(forall|j: int| 0 <= j < k.len() ==> line[j] == k[j]);
    assert(0 <= k.len() < line.len() && line[k.len() as int] == '\t' && forall|j: int| 0 <= j < k.len() ==> line[j] != '\t');
    if c < k.len() {
        assert(k[c] == '\t');
    } else if c > k.len() {
        assert(line[k.len() as int] != '\t');
    }
    assert(first_tab(line) == Some(k.len() as int));
    assert(line.subrange(0, k.len() as int) == k);
    assert(line.subrange(k.len() + 1int, line.len() as int) == v);
}

proof fn lemma_entries_map_index(e: Seq<(String, String)>, k: Seq<char>)
    requires
        entries_map(e).contains_key(k),
    ensures
        exists|i: int| 0 <= i < e.len() && e[i].0@ == k,
    decreases e.len(),
{
    if e.len() > 0 && e.last().0@ != k {
        lemma_entries_map_index(e.drop_last(), k);
        let i = choose|i: int| 0 <= i < e.drop_last().len() && e.drop_last()[i].0@ == k;
        assert(e[i].0@ == k);
    }
}

proof fn lemma_entry_lines_map(e: Seq<(String, String)>)
    requires
        forall|i: int| 0 <= i < e.len() ==> !(#[trigger] e[i].0@).contains('\t'),
    ensures
        lines_map(entry_lines(e)) == entries_map(e),
    decreases e.len(),
{
    if e.len() > 0 {
        let d = e.drop_last();
        assert(entry_lines(e).drop_last() == entry_lines(d));
        lemma_entry_lines_map(d);
        let k = e.last().0@;
        let v = e.last().1@;
        let line = entry_line(k, v);
        assert(entry_lines(e).last() == line);
        assert(!k.contains('\t'));
        assert(line[k.len() as int] == '\t');
        let c = choose|i: int| 0 <= i < line.len() && line[i] == '\t' && forall|j: int| 0 <= j < i ==> line[j] != '\t';
        assert(forall|j: int| 0 <= j < k.len() ==> line[j] == k[j]);
        assert(0 <= k.len() < line.len() && line[k.len() as int] == '\t' && forall|j: int| 0 <= j < k.len() ==> line[j] != '\t');
        if c < k.len() {
            assert(k[c] == '\t');
        } else if c > k.len() {
            assert(line[k.len() as int] != '\t');
        }
        assert(first_tab(line) == Some(k.len() as int));
        assert(line.subrange(0, k.len() as int) == k);
        assert(line.subrange(k.len() + 1int, line.len() as int) == v);
    }
}

/// Writing a cache's file text and reading it back gives the same key/value
/// map, for any content the file format can carry.
pub proof fn lemma_render_parse(c: CredentialCache)
    requires
        c.wf(),
        storable(c@),
    ensures
        text_map(c.text()) == c@,
{
    let e = c.entries@;
    lemma_entries_text_lines(e);
    assert forall|i: int| 0 <= i < e.len() implies !(#[trigger] e[i].0@).contains('\t') by {
        lemma_entries_map_lookup(e, i);
        assert(entries_map(e).contains_key(e[i].0@));
    }
    lemma_entry_lines_map(e);
}

/// ASCII text can be cut anywhere.
proof fn lemma_ascii_cuttable(c: Seq<char>)
    requires
        vstd::utf8::is_ascii_chars(c),
    ensures
        hex_cuttable(vstd::utf8::encode_utf8(c)),
{
    let b = vstd::utf8::encode_utf8(c);
    vstd::utf8::is_ascii_chars_encode_utf8(c);
    vstd::utf8::encode_utf8_valid_utf8(c);
    vstd::utf8::is_char_boundary_start_end_of_seq(b);
    assert forall|i: int| 0 <= i < b.len() implies vstd::utf8::is_char_boundary(b, i) by {
        vstd::utf8::is_char_boundary_iff_not_is_continuation_byte(b, i);
        assert(c[i] as u8 == b[i]);
        assert('\0' <= c[i] <= '\u{7f}');
    }
    if b.len() % 2 == 0 {
        assert forall|k: nat| k < b.len() / 2 && (#[trigger] hex_prefix(b, k)) is Some implies {
            &&& vstd::utf8::is_char_boundary(b, (2 * k) as int)
            &&& vstd::utf8::is_char_boundary(b, (2 * k + 2) as int)
        } by {
            if 2 * k + 2 == b.len() {
            } else {
                assert(2 * k + 2 < b.len());
            }
        }
    }
}

proof fn lemma_hex_pair(b: u8)
    ensures
        pair_value(hex_digit((b / 16) as int) as u8, hex_digit((b % 16) as int) as u8) == Some(b),
{
    let hi = hex_digit((b / 16) as int);
    let lo = hex_digit((b % 16) as int);
    let s = seq![hi as u8 as char, lo as u8 as char];
    assert(hi as u8 as char == hi);
    assert(lo as u8 as char == lo);
    assert(digit_of(hi, 16) == Some((b / 16) as nat));
    assert(digit_of(lo, 16) == Some((b % 16) as nat));
    assert(unsigned_body(s) == s);
    assert(s.drop_last() == seq![hi]);
    assert(seq![hi].drop_last() == Seq::<char>::empty());
    assert(digits_value(Seq::<char>::empty(), 16) == 0);
    assert(digits_value(seq![hi], 16) == (b / 16) as nat);
    assert(digits_value(s, 16) == b);
}

/// Hex text of ASCII digits is ASCII.
proof fn lemma_hex_text_ascii(bytes: Seq<u8>)
    ensures
        vstd::utf8::is_ascii_chars(hex_text(bytes)),
        hex_text(bytes).len() == 2 * bytes.len(),
    decreases bytes.len(),
{
    if bytes.len() > 0 {
        lemma_hex_text_ascii(bytes.drop_last());
    }
}

proof fn lemma_hex_prefix_text(bytes: Seq<u8>, k: nat)
    requires
        k <= bytes.len(),
    ensures
        hex_prefix(vstd::utf8::encode_utf8(hex_text(bytes)), k) == Some(bytes.subrange(0, k as int)),
    decreases k,
{
    let t = hex_text(bytes);
    let enc = vstd::utf8::encode_utf8(t);
    lemma_hex_text_ascii(bytes);
    vstd::utf8::is_ascii_chars_encode_utf8(t);
    if k > 0 {
        lemma_hex_prefix_text(bytes, (k - 1) as nat);
        let b = bytes[k - 1];
        lemma_hex_text_index(bytes, k - 1);
        assert(enc[2 * k - 2] == t[2 * k - 2] as u8);
        assert(enc[2 * k - 1] == t[2 * k - 1] as u8);
        lemma_hex_pair(b);
        assert(bytes.subrange(0, k as int) == bytes.subrange(0, k - 1).push(b));
    } else {
        assert(bytes.subrange(0, 0) == Seq::<u8>::empty());
    }
}

proof fn lemma_hex_text_index(bytes: Seq<u8>, i: int)
    requires
        0 <= i < bytes.len(),
    ensures
        hex_text(bytes)[2 * i] == hex_digit((bytes[i] / 16) as int),
        hex_text(bytes)[2 * i + 1] == hex_digit((bytes[i] % 16) as int),
    decreases bytes.len(),
{
    lemma_hex_text_ascii(bytes);
    lemma_hex_text_ascii(bytes.drop_last());
    if i < bytes.len() - 1 {
        lemma_hex_text_index(bytes.drop_last(), i);
    }
}

/// Hex-decoding the hex encoding of any bytes gives the bytes back.
pub proof fn lemma_hex_roundtrip(bytes: Seq<u8>)
    ensures
        hex_cuttable(vstd::utf8::encode_utf8(hex_text(bytes))),
        hex_value(vstd::utf8::encode_utf8(hex_text(bytes))) == Some(bytes),
{
    let t = hex_text(bytes);
    lemma_hex_text_ascii(bytes);
    lemma_ascii_cuttable(t);
    vstd::utf8::is_ascii_chars_encode_utf8(t);
    lemma_hex_prefix_text(bytes, bytes.len());
    assert(bytes.subrange(0, bytes.len() as int) == bytes);
    assert(vstd::utf8::encode_utf8(t).len() / 2 == bytes.len());
}


/// A pluggable key→bytes credential store, for hosts that keep credentials
/// in their own (sandboxed) storage.
pub trait CredentialStore: Send + Sync {
    /// Load a previously saved credential.
    fn load(&self, key: &str) -> Option<Vec<u8>>;

    /// Persist a credential (overwrites any previous value).
    fn save(&self, key: &str, value: &[u8]);

    /// Remove a stored credential (e.g. on unbind).
    fn delete(&self, key: &str);
}

/// The file-backed credential store: the credentials file's path and its
/// content. The host reads the file once to build it and writes back the text
/// that [`FileStore::save`] and [`FileStore::delete`] hand out.
pub struct FileStore {
    path: String,
    cache: CredentialCache,
}

impl View for FileStore {
    type V = Map<Seq<char>, Seq<char>>;

    closed spec fn view(&self) -> Map<Seq<char>, Seq<char>> {
        self.cache@
    }
}

impl FileStore {
    pub closed spec fn wf(&self) -> bool {
        self.cache.wf()
    }

    pub closed spec fn path_view(&self) -> Seq<char> {
        self.path@
    }

    /// The store's current file text.
    pub closed spec fn text(&self) -> Seq<char> {
        self.cache.text()
    }

    /// A store at `path` whose file held `text`; an unreadable or missing
    /// file (`None`) starts it empty.
    pub fn new(path: String, text: Option<&str>) -> (s: Self)
        ensures
            s.wf(),
            s.path_view() == path@,
            s@ == (match text {
                Some(t) => text_map(t@),
                None => Map::empty(),
            }),
    {
        let cache = match text {
            Some(t) => CredentialCache::parse(t),
            None => CredentialCache::new(),
        };
        FileStore { path, cache }
    }

    /// The credentials file's path.
    pub fn path(&self) -> (p: &str)
        ensures
            p@ == self.path_view(),
    {
        self.path.as_str()
    }

    /// The hex text stored under `key`.
    pub fn stored(&self, key: &str) -> (r: Option<String>)
        requires
            self.wf(),
        ensures
            match r {
                Some(v) => self@.contains_key(key@) && v@ == self@[key@],
                None => !self@.contains_key(key@),
            },
    {
        self.cache.get(key)
    }

    /// Load a previously saved credential.
    pub fn load(&self, key: &str) -> (r: Option<Vec<u8>>)
        requires
            self.wf(),
            self@.contains_key(key@) ==> hex_cuttable(vstd::utf8::encode_utf8(self@[key@])),
        ensures
            match r {
                Some(b) => self@.contains_key(key@) && hex_value(
                    vstd::utf8::encode_utf8(self@[key@]),
                ) == Some(b@),
                None => !self@.contains_key(key@) || hex_value(
                    vstd::utf8::encode_utf8(self@[key@]),
                ) is None,
            },
    {
        self.cache.load(key)
    }

    /// Persist a credential (overwrites any previous value); returns the file
    /// text to write.
    pub fn save(&mut self, key: &str, value: &[u8]) -> (text: String)
        requires
            old(self).wf(),
        ensures
            final(self).wf(),
            final(self).path_view() == old(self).path_view(),
            final(self)@ == old(self)@.insert(key@, hex_text(value@)),
            text@ == final(self).text(),
            storable(final(self)@) ==> text_map(text@) == final(self)@,
            !key@.contains('\t') && !key@.contains('\n') ==> saved_in(text@, key@, value@),
    {
        self.cache.save(key, value);
        self.cache.render()
    }

    /// Remove a stored credential; returns the file text to write when
    /// something was removed, `None` when the key was absent (nothing to
    /// write).
    pub fn delete(&mut self, key: &str) -> (text: Option<String>)
        requires
            old(self).wf(),
        ensures
            final(self).wf(),
            final(self).path_view() == old(self).path_view(),
            final(self)@ == old(self)@.remove(key@),
            match text {
                Some(t) => old(self)@.contains_key(key@) && t@ == final(self).text() && (storable(
                    final(self)@,
                ) ==> text_map(t@) == final(self)@),
                None => !old(self)@.contains_key(key@),
            },
    {
        if self.cache.delete(key) {
            Some(self.cache.render())
        } else {
            None
        }
    }
}

/// What a store writes is what a fresh store built from that text holds.
pub proof fn lemma_file_store_reload(s: FileStore)
    requires
        s.wf(),
        storable(s@),
    ensures
        text_map(s.text()) == s@,
{
    lemma_render_parse(s.cache);
}

/// A credential saved under a key loads back as the same bytes.
pub proof fn lemma_save_then_load(m: Map<Seq<char>, Seq<char>>, key: Seq<char>, bytes: Seq<u8>)
    ensures
        m.insert(key, hex_text(bytes)).contains_key(key),
        hex_cuttable(vstd::utf8::encode_utf8(m.insert(key, hex_text(bytes))[key])),
        hex_value(vstd::utf8::encode_utf8(m.insert(key, hex_text(bytes))[key])) == Some(bytes),
{
    lemma_hex_roundtrip(bytes);
}


proof fn lemma_hex_text_plain(bytes: Seq<u8>)
    ensures
        !hex_text(bytes).contains('\n'),
        !hex_text(bytes).contains('\r'),
{
    let t = hex_text(bytes);
    lemma_hex_text_ascii(bytes);
    assert forall|j: int| 0 <= j < t.len() implies t[j] != '\n' && t[j] != '\r' by {
        let i = j / 2;
        lemma_hex_text_index(bytes, i);
        let b = bytes[i];
        if j == 2 * i {
            assert(t[j] == hex_digit((b / 16) as int));
        } else {
            assert(t[j] == hex_digit((b % 16) as int));
        }
    }
}

/// A credential saved under a key free of tabs and newlines is reloaded from
/// the text [`FileStore::save`] hands out, whatever the other entries hold: a
/// fresh store built from that text holds the key, and its stored value
/// decodes to the saved bytes.
pub proof fn lemma_saved_credential_reloads(text: Seq<char>, key: Seq<char>, bytes: Seq<u8>)
    requires
        saved_in(text, key, bytes),
    ensures
        text_map(text).contains_key(key),
        hex_cuttable(vstd::utf8::encode_utf8(text_map(text)[key])),
        hex_value(vstd::utf8::encode_utf8(text_map(text)[key])) == Some(bytes),
{
    lemma_hex_roundtrip(bytes);
}

/// A credential saved under a key free of tabs and newlines, into a store
/// whose content the file format can carry, persists: the saved map can
/// still be carried, so the text [`FileStore::save`] hands out is read back
/// by a fresh [`FileStore::new`] as that map, and loading the key from it
/// gives the saved bytes.
pub proof fn lemma_saved_credential_persists(
    m: Map<Seq<char>, Seq<char>>,
    key: Seq<char>,
    bytes: Seq<u8>,
)
    requires
        storable(m),
        !key.contains('\t'),
        !key.contains('\n'),
    ensures
        storable(m.insert(key, hex_text(bytes))),
        m.insert(key, hex_text(bytes)).contains_key(key),
        hex_cuttable(vstd::utf8::encode_utf8(m.insert(key, hex_text(bytes))[key])),
        hex_value(vstd::utf8::encode_utf8(m.insert(key, hex_text(bytes))[key])) == Some(bytes),
{
    let m2 = m.insert(key, hex_text(bytes));
    lemma_hex_text_plain(bytes);
    let h = hex_text(bytes);
    if h.len() > 0 {
        assert(h.contains(h.last()));
    }
    assert forall|k: Seq<char>| #[trigger] m2.contains_key(k) implies {
        &&& !k.contains('\t')
        &&& !k.contains('\n')
        &&& !m2[k].contains('\n')
        &&& !(m2[k].len() > 0 && m2[k].last() == '\r')
    } by {
        if k != key {
            assert(m.contains_key(k));
        }
    }
    lemma_save_then_load(m, key, bytes);
}

} // verus!
