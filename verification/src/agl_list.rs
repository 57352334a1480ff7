use vstd::prelude::*;
use crate::agl::{
    agl_name, agl_name_is_unicode, agl_normalized_name, no_nul, spec_name_is_unicode,
    spec_normalized_name, spec_xtol, xtol, AglNameView,
};
use crate::pdfparse::{is_space, lemma_skip_white_end, parse_ident, skip_white, skip_white_end, token_end};
use crate::text::{before_first, bytes_eq, find_byte, first_index_of, is_upper_hex, lemma_first_index_of};

verus! {

/// One key of the glyph list with the names filed under it, the first one filed first.
pub struct AglEntry {
    pub key: Vec<u8>,
    pub chain: Vec<agl_name>,
}

pub open spec fn chain_view(c: Seq<agl_name>) -> Seq<AglNameView> {
    c.map_values(|a: agl_name| a@)
}

impl View for AglEntry {
    type V = (Seq<u8>, Seq<AglNameView>);

    open spec fn view(&self) -> (Seq<u8>, Seq<AglNameView>) {
        (self.key@, chain_view(self.chain@))
    }
}

/// The glyph-name table: each glyph-list key with the chain of names filed under it.
pub struct AglMap {
    pub entries: Vec<AglEntry>,
}

pub open spec fn entries_view(e: Seq<AglEntry>) -> Seq<(Seq<u8>, Seq<AglNameView>)> {
    e.map_values(|x: AglEntry| x@)
}

impl View for AglMap {
    type V = Seq<(Seq<u8>, Seq<AglNameView>)>;

    open spec fn view(&self) -> Seq<(Seq<u8>, Seq<AglNameView>)> {
        entries_view(self.entries@)
    }
}

/// Index of the entry filed under `key`.
pub open spec fn find_key(m: Seq<(Seq<u8>, Seq<AglNameView>)>, key: Seq<u8>) -> Option<int>
    decreases m.len(),
{
    if m.len() == 0 {
        None
    } else if m.last().0 == key {
        Some(m.len() - 1)
    } else {
        find_key(m.drop_last(), key)
    }
}

pub proof fn lemma_find_key(m: Seq<(Seq<u8>, Seq<AglNameView>)>, key: Seq<u8>)
    ensures
        match find_key(m, key) {
            Some(i) => 0 <= i < m.len() && m[i].0 == key,
            None => forall|j: int| 0 <= j < m.len() ==> m[j].0 != key,
        },
    decreases m.len(),
{
    if m.len() > 0 && m.last().0 != key {
        lemma_find_key(m.drop_last(), key);
        assert forall|j: int| 0 <= j < m.len() - 1 implies m[j] == m.drop_last()[j] by {}
    }
}

/// No key is filed twice, and every chain holds at least one name.
pub open spec fn map_wf(m: Seq<(Seq<u8>, Seq<AglNameView>)>) -> bool {
    &&& forall|i: int, j: int| 0 <= i < j < m.len() ==> m[i].0 != m[j].0
    &&& forall|i: int| 0 <= i < m.len() ==> m[i].1.len() > 0
}

/// The names filed under `key`, first filed first (empty when there are none).
pub open spec fn map_chain(m: Seq<(Seq<u8>, Seq<AglNameView>)>, key: Seq<u8>) -> Seq<AglNameView> {
    match find_key(m, key) {
        Some(i) => m[i].1,
        None => Seq::empty(),
    }
}

/// The first name filed under `key`: what a lookup of `key` gives.
pub open spec fn map_lookup(m: Seq<(Seq<u8>, Seq<AglNameView>)>, key: Seq<u8>) -> Option<AglNameView> {
    let c = map_chain(m, key);
    if c.len() > 0 {
        Some(c[0])
    } else {
        None
    }
}

/// The table after filing `a` under `key`: at the end of its chain, or in a new entry.
pub open spec fn map_insert(
    m: Seq<(Seq<u8>, Seq<AglNameView>)>,
    key: Seq<u8>,
    a: AglNameView,
) -> Seq<(Seq<u8>, Seq<AglNameView>)> {
    match find_key(m, key) {
        Some(i) => m.update(i, (key, m[i].1.push(a))),
        None => m.push((key, seq![a])),
    }
}

impl AglMap {
    pub closed spec fn wf(&self) -> bool {
        map_wf(self@)
    }

    pub fn new() -> (r: AglMap)
        ensures
            r.wf(),
            r@ == Seq::<(Seq<u8>, Seq<AglNameView>)>::empty(),
    {
        let r = AglMap { entries: Vec::new() };
        assert(r@ =~= Seq::<(Seq<u8>, Seq<AglNameView>)>::empty());
        r
    }

    fn find(&self, key: &[u8]) -> (r: Option<usize>)
        ensures
            match r {
                Some(i) => find_key(self@, key@) == Some(i as int),
                None => find_key(self@, key@) is None,
            },
    {
        let mut i = self.entries.len();
        assert(self@.subrange(0, i as int) =~= self@);
        while i > 0
            invariant
                i <= self.entries@.len(),
                find_key(self@, key@) == find_key(self@.subrange(0, i as int), key@),
            decreases i,
        {
            let ghost sub = self@.subrange(0, i as int);
            assert(sub.last() == self.entries@[i - 1]@);
            if bytes_eq(self.entries[i - 1].key.as_slice(), key) {
                return Some(i - 1);
            }
            assert(sub.drop_last() =~= self@.subrange(0, i - 1));
            i = i - 1;
        }
        None
    }

    /// The first name filed under `key` (the glyph list's lookup).
    pub fn agl_lookup_list(&self, glyphname: &[u8]) -> (r: Option<&agl_name>)
        requires
            self.wf(),
        ensures
            match r {
                Some(a) => map_lookup(self@, glyphname@) == Some(a@),
                None => map_lookup(self@, glyphname@) is None,
            },
    {
        proof {
            lemma_find_key(self@, glyphname@);
        }
        match self.find(glyphname) {
            Some(i) => {
                assert(self@[i as int].1.len() > 0);
                Some(&self.entries[i].chain[0])
            },
            None => None,
        }
    }

    /// Files `a` under `key`: a key met again gets `a` at the end of its chain of alternates.
    pub fn insert(&mut self, key: Vec<u8>, a: agl_name)
        requires
            old(self).wf(),
        ensures
            final(self).wf(),
            final(self)@ == map_insert(old(self)@, key@, a@),
    {
        proof {
            lemma_find_key(self@, key@);
        }
        let ghost old_v = self@;
        match self.find(key.as_slice()) {
            Some(i) => {
                let mut e = self.entries.remove(i);
                let ghost ec = e.chain@;
                e.chain.push(a);
                assert(chain_view(e.chain@) =~= chain_view(ec).push(a@));
                self.entries.insert(i, e);
                assert(self@ =~= old_v.update(i as int, (key@, old_v[i as int].1.push(a@))));
            },
            None => {
                let mut chain: Vec<agl_name> = Vec::new();
                chain.push(a);
                let ghost av = a@;
                assert(chain_view(chain@) =~= seq![av]);
                self.entries.push(AglEntry { key, chain });
                assert(self@ =~= old_v.push((key@, seq![av])));
            },
        }
    }
}

/// Looking up a key after filing a name under it: a new key gives that name, a key already
/// there still gives its first name.
pub proof fn law_lookup_after_insert(m: Seq<(Seq<u8>, Seq<AglNameView>)>, key: Seq<u8>, a: AglNameView)
    requires
        map_wf(m),
    ensures
        map_lookup(map_insert(m, key, a), key) == match map_lookup(m, key) {
            Some(first) => Some(first),
            None => Some(a),
        },
        map_chain(map_insert(m, key, a), key) == map_chain(m, key).push(a),
{
    lemma_find_key(m, key);
    let m2 = map_insert(m, key, a);
    lemma_find_key(m2, key);
    match find_key(m, key) {
        Some(i) => {
            assert(m2[i].0 == key);
            lemma_find_key_unique(m2, key, i);
        },
        None => {
            assert(m2[m.len() as int].0 == key);
            lemma_find_key_unique(m2, key, m.len() as int);
            assert(map_chain(m, key) =~= Seq::<AglNameView>::empty());
            assert(seq![a] =~= Seq::<AglNameView>::empty().push(a));
        },
    }
}

/// Filing a name under one key changes nothing that another key gives.
pub proof fn law_insert_keeps_other_keys(
    m: Seq<(Seq<u8>, Seq<AglNameView>)>,
    key: Seq<u8>,
    a: AglNameView,
    other: Seq<u8>,
)
    requires
        map_wf(m),
        other != key,
    ensures
        map_chain(map_insert(m, key, a), other) == map_chain(m, other),
        map_lookup(map_insert(m, key, a), other) == map_lookup(m, other),
{
    lemma_find_key(m, key);
    lemma_find_key(m, other);
    let m2 = map_insert(m, key, a);
    lemma_find_key(m2, other);
    match find_key(m, other) {
        Some(j) => {
            assert(m2[j].0 == other);
            lemma_find_key_unique(m2, other, j);
        },
        None => {
            match find_key(m2, other) {
                Some(j) => {
                    assert(m2[j].0 == other);
                    if j < m.len() {
                        assert(m[j].0 == other);
                    }
                },
                None => {},
            }
        },
    }
}

pub proof fn lemma_find_key_unique(m: Seq<(Seq<u8>, Seq<AglNameView>)>, key: Seq<u8>, i: int)
    requires
        0 <= i < m.len(),
        m[i].0 == key,
        forall|j: int| 0 <= j < m.len() && j != i ==> m[j].0 != key,
    ensures
        find_key(m, key) == Some(i),
    decreases m.len(),
{
    if i != m.len() - 1 {
        lemma_find_key_unique(m.drop_last(), key, i);
    }
}

pub proof fn lemma_insert_wf(m: Seq<(Seq<u8>, Seq<AglNameView>)>, key: Seq<u8>, a: AglNameView)
    requires
        map_wf(m),
    ensures
        map_wf(map_insert(m, key, a)),
{
    lemma_find_key(m, key);
}

/// A hexadecimal digit in either case.
pub open spec fn is_any_hex(c: u8) -> bool {
    (48 <= c <= 57) || (97 <= c <= 102) || (65 <= c <= 70)
}

pub open spec fn any_hex_digit_value(c: u8) -> int {
    if 48 <= c <= 57 {
        c - 48
    } else if 97 <= c <= 102 {
        c - 87
    } else {
        c - 55
    }
}

/// The value of a run of hex digits (either case), unbounded.
pub open spec fn any_hex_value(b: Seq<u8>) -> int
    decreases b.len(),
{
    if b.len() == 0 {
        0
    } else {
        any_hex_value(b.drop_last()) * 16 + any_hex_digit_value(b.last())
    }
}

/// Where a run of hex digits from `i` ends.
pub open spec fn hex_run_end(s: Seq<u8>, i: int) -> int
    decreases s.len() - i,
{
    if 0 <= i < s.len() && is_any_hex(s[i]) {
        hex_run_end(s, i + 1)
    } else {
        i
    }
}

pub proof fn lemma_hex_run_end(s: Seq<u8>, i: int)
    requires
        0 <= i <= s.len(),
    ensures
        i <= hex_run_end(s, i) <= s.len(),
        forall|k: int| i <= k < hex_run_end(s, i) ==> is_any_hex(#[trigger] s[k]),
    decreases s.len() - i,
{
    if i < s.len() && is_any_hex(s[i]) {
        lemma_hex_run_end(s, i + 1);
    }
}

/// Where the digits start that a base-16 `strtol` reads from `i`: past a "0x" or "0X" that a
/// hex digit follows.
pub open spec fn strtol16_digits_start(s: Seq<u8>, i: int) -> int {
    if i + 2 < s.len() && s[i] == 48 && (s[i + 1] == 120 || s[i + 1] == 88) && is_any_hex(s[i + 2]) {
        i + 2
    } else {
        i
    }
}

/// The position after the number that a base-16 `strtol` reads from `i`.
pub open spec fn strtol16_end(s: Seq<u8>, i: int) -> int {
    hex_run_end(s, strtol16_digits_start(s, i))
}

/// The number that a base-16 `strtol` reads from `i` (held in a 64-bit C `long`, which
/// saturates), cut to 32 bits.
pub open spec fn strtol16_value(s: Seq<u8>, i: int) -> i32 {
    let v = any_hex_value(s.subrange(strtol16_digits_start(s, i), strtol16_end(s, i)));
    let sat: i64 = if v > i64::MAX {
        i64::MAX
    } else {
        v as i64
    };
    sat as i32
}

fn strtol16(s: &[u8], i: usize) -> (r: (i32, usize))
    requires
        i < s@.len(),
        is_any_hex(s@[i as int]),
    ensures
        r.0 == strtol16_value(s@, i as int),
        r.1 == strtol16_end(s@, i as int),
        i < r.1 <= s@.len(),
{
    let start: usize = if s.len() >= 3 && i < s.len() - 2 && s[i] == 48 && (s[i + 1] == 120 || s[i + 1] == 88) && (
    (48 <= s[i + 2] && s[i + 2] <= 57) || (97 <= s[i + 2] && s[i + 2] <= 102) || (65 <= s[i + 2]
        && s[i + 2] <= 70)) {
        i + 2
    } else {
        i
    };
    assert(start == strtol16_digits_start(s@, i as int));
    proof {
        lemma_hex_run_end(s@, start as int);
    }
    let mut v: u128 = 0;
    let mut p = start;
    while p < s.len() && ((48 <= s[p] && s[p] <= 57) || (97 <= s[p] && s[p] <= 102) || (65 <= s[p]
        && s[p] <= 70))
        invariant
            start <= p <= s@.len(),
            hex_run_end(s@, start as int) == hex_run_end(s@, p as int),
            v == (if any_hex_value(s@.subrange(start as int, p as int)) > i64::MAX {
                i64::MAX as int
            } else {
                any_hex_value(s@.subrange(start as int, p as int))
            }),
            any_hex_value(s@.subrange(start as int, p as int)) >= 0,
        decreases s@.len() - p,
    {
        let c = s[p];
        let d: u128 = if 48 <= c && c <= 57 {
            (c - 48) as u128
        } else if 97 <= c && c <= 102 {
            (c - 87) as u128
        } else {
            (c - 55) as u128
        };
        let ghost pre = s@.subrange(start as int, p as int);
        p = p + 1;
        assert(s@.subrange(start as int, p as int).drop_last() =~= pre);
        if v == 0x7fff_ffff_ffff_ffff {
            assert(any_hex_value(pre) >= i64::MAX);
        } else {
            v = v * 16 + d;
            if v > 0x7fff_ffff_ffff_ffff {
                v = 0x7fff_ffff_ffff_ffff;
            }
        }
    }
    let sat: i64 = v as i64;
    (#[verifier::truncate] (sat as i32), p)
}

pub proof fn lemma_strtol16_end(s: Seq<u8>, i: int)
    requires
        0 <= i < s.len(),
        is_any_hex(s[i]),
    ensures
        i < strtol16_end(s, i) <= s.len(),
{
    lemma_hex_run_end(s, strtol16_digits_start(s, i));
    lemma_hex_run_end(s, strtol16_digits_start(s, i) + 1);
}

/// The values that a glyph-list line lists after its ';': at most 16 numbers, each starting with
/// an upper-case hex digit, read as `strtol` reads them, with white space between.
pub open spec fn list_values(t: Seq<u8>, p: int, n: int) -> Seq<i32>
    decreases t.len() - p,
{
    if 0 <= p < t.len() && is_upper_hex(t[p]) && n < 16 {
        proof {
            lemma_strtol16_end(t, p);
            lemma_skip_white_end(t, strtol16_end(t, p));
        }
        seq![strtol16_value(t, p)] + list_values(t, skip_white_end(t, strtol16_end(t, p)), n + 1)
    } else {
        Seq::empty()
    }
}

fn read_list_values(t: &[u8], start: usize) -> (unicodes: Vec<i32>)
    requires
        start <= t@.len(),
    ensures
        unicodes@ == list_values(t@, start as int, 0),
{
    let mut p = start;
    let ghost p2 = p;
    let mut unicodes: Vec<i32> = Vec::new();
    while unicodes.len() < 16 && p < t.len() && ((48 <= t[p] && t[p] <= 57) || (65 <= t[p] && t[p]
        <= 70))
        invariant
            p <= t@.len(),
            unicodes@.len() <= 16,
            list_values(t@, p2 as int, 0) == unicodes@ + list_values(t@, p as int, unicodes@.len() as int),
        decreases t@.len() - p,
    {
        let (v, e) = strtol16(t, p);
        let np = skip_white(t, e);
        let ghost before = unicodes@;
        unicodes.push(v);
        assert(before + list_values(t@, p as int, before.len() as int) =~= unicodes@ + list_values(
            t@,
            np as int,
            unicodes@.len() as int,
        ));
        p = np;
    }
    proof {
        if !(p < t@.len() && (48 <= t@[p as int] <= 57 || 65 <= t@[p as int] <= 70)) || unicodes@.len() >= 16 {
            assert(list_values(t@, p as int, unicodes@.len() as int) =~= Seq::<i32>::empty());
            assert(unicodes@ + Seq::<i32>::empty() =~= unicodes@);
        }
    }
    unicodes
}

/// What a line of a glyph list holds.
pub enum AglLine {
    /// Blank, a comment, or no ';' after the first word.
    Skip,
    /// A name not followed by ';'.
    Invalid,
    /// No value after ';'.
    NoMapping,
    /// A glyph name and its Unicode values.
    Entry { name: Vec<u8>, unicodes: Vec<i32> },
}

pub enum AglLineView {
    Skip,
    Invalid,
    NoMapping,
    Entry { name: Seq<u8>, unicodes: Seq<i32> },
}

impl View for AglLine {
    type V = AglLineView;

    open spec fn view(&self) -> AglLineView {
        match self {
            AglLine::Skip => AglLineView::Skip,
            AglLine::Invalid => AglLineView::Invalid,
            AglLine::NoMapping => AglLineView::NoMapping,
            AglLine::Entry { name, unicodes } => AglLineView::Entry {
                name: name@,
                unicodes: unicodes@,
            },
        }
    }
}

/// What a glyph-list line says: `name;XXXX XXXX ...`, read up to its first NUL byte, with white
/// space and `%` comments allowed around the parts, and `#` starting a comment line.
pub open spec fn spec_parse_agl_line(line: Seq<u8>) -> AglLineView {
    let t = before_first(line, 0u8);
    let p0 = skip_white_end(t, 0);
    if p0 >= t.len() || t[p0] == 35 {
        AglLineView::Skip
    } else {
        match first_index_of(t.subrange(p0, t.len() as int), 59u8) {
            None => AglLineView::Skip,
            Some(k) => if k == 0 {
                AglLineView::Skip
            } else {
                let q = token_end(t.subrange(0, p0 + k), p0);
                let p1 = skip_white_end(t, q);
                if q == p0 || p1 >= t.len() || t[p1] != 59 {
                    AglLineView::Invalid
                } else {
                    let vals = list_values(t, skip_white_end(t, p1 + 1), 0);
                    if vals.len() == 0 {
                        AglLineView::NoMapping
                    } else {
                        AglLineView::Entry { name: t.subrange(p0, q), unicodes: vals }
                    }
                }
            },
        }
    }
}

/// Reads one line of a glyph list (see `spec_parse_agl_line`).
pub fn parse_agl_line(line: &[u8]) -> (r: AglLine)
    ensures
        r@ == spec_parse_agl_line(line@),
        r matches AglLine::Entry { name, .. } ==> no_nul(name@) && name@.len() > 0,
{
    proof {
        lemma_first_index_of(line@, 0u8);
    }
    let end = match find_byte(line, 0u8) {
        Some(n) => n,
        None => line.len(),
    };
    let t = &line[0..end];
    assert(t@ == before_first(line@, 0u8));
    let p = skip_white(t, 0);
    if p >= t.len() || t[p] == 35 {
        return AglLine::Skip;
    }
    proof {
        lemma_first_index_of(t@.subrange(p as int, t@.len() as int), 59u8);
    }
    let rest = &t[p..t.len()];
    let k = match find_byte(rest, 59u8) {
        Some(k) => k,
        None => {
            return AglLine::Skip;
        },
    };
    if k == 0 {
        return AglLine::Skip;
    }
    let nextptr = p + k;
    let (name, q) = parse_ident(t, p, nextptr);
    let p1 = skip_white(t, q);
    let name = match name {
        Some(n) => n,
        None => {
            return AglLine::Invalid;
        },
    };
    if p1 >= t.len() || t[p1] != 59 {
        return AglLine::Invalid;
    }
    let unicodes = read_list_values(t, skip_white(t, p1 + 1));
    if unicodes.len() == 0 {
        return AglLine::NoMapping;
    }
    AglLine::Entry { name, unicodes }
}

/// What filing one glyph-list line does to the table: an entry is filed under its name with its
/// normalized name, suffix and values, and counts one.
pub open spec fn apply_line(
    m: Seq<(Seq<u8>, Seq<AglNameView>)>,
    l: AglLineView,
    is_predef: i32,
) -> (Seq<(Seq<u8>, Seq<AglNameView>)>, int) {
    match l {
        AglLineView::Entry { name, unicodes } => match spec_normalized_name(name) {
            Some((n, sfx)) => (
                map_insert(m, name, AglNameView { name: n, suffix: sfx, unicodes, is_predef }),
                1,
            ),
            None => (m, 0),
        },
        _ => (m, 0),
    }
}

/// The table and the entry count after loading the lines of a glyph list in order.
pub open spec fn load_lines_spec(
    m: Seq<(Seq<u8>, Seq<AglNameView>)>,
    lines: Seq<Seq<u8>>,
    is_predef: i32,
) -> (Seq<(Seq<u8>, Seq<AglNameView>)>, int)
    decreases lines.len(),
{
    if lines.len() == 0 {
        (m, 0)
    } else {
        let (m1, c1) = load_lines_spec(m, lines.drop_last(), is_predef);
        let (m2, c2) = apply_line(m1, spec_parse_agl_line(lines.last()), is_predef);
        (m2, c1 + c2)
    }
}

pub open spec fn lines_view(lines: Seq<Vec<u8>>) -> Seq<Seq<u8>> {
    lines.map_values(|l: Vec<u8>| l@)
}

impl AglMap {
    /// Loads the lines of a glyph list into the table; returns how many entries it filed.
    pub fn agl_load_lines(&mut self, lines: &Vec<Vec<u8>>, is_predef: i32) -> (count: i32)
        requires
            old(self).wf(),
            lines@.len() <= i32::MAX,
        ensures
            final(self).wf(),
            (final(self)@, count as int) == load_lines_spec(old(self)@, lines_view(lines@), is_predef),
    {
        let ghost m0 = self@;
        let mut count: i32 = 0;
        let mut i: usize = 0;
        while i < lines.len()
            invariant
                self.wf(),
                i <= lines@.len(),
                lines@.len() <= i32::MAX,
                0 <= count <= i,
                (self@, count as int) == load_lines_spec(m0, lines_view(lines@).subrange(0, i as int), is_predef),
            decreases lines@.len() - i,
        {
            let ghost pre = lines_view(lines@).subrange(0, i as int);
            let l = parse_agl_line(lines[i].as_slice());
            assert(lines_view(lines@).subrange(0, i + 1).drop_last() =~= pre);
            assert(lines_view(lines@).subrange(0, i + 1).last() == lines@[i as int]@);
            match l {
                AglLine::Entry { name, unicodes } => {
                    let n = agl_normalized_name(name.as_slice());
                    match n {
                        Some(mut a) => {
                            a.is_predef = is_predef;
                            a.unicodes = unicodes;
                            proof {
                                lemma_insert_wf(self@, name@, a@);
                            }
                            self.insert(name, a);
                            count = count + 1;
                        },
                        None => {},
                    }
                },
                _ => {},
            }
            i = i + 1;
        }
        assert(lines_view(lines@).subrange(0, i as int) =~= lines_view(lines@));
        count
    }
}

/// Whether a code point lies in a private-use area.
pub open spec fn is_pua(u: i32) -> bool {
    (0xE000 <= u <= 0xF8FF) || (0xF0000 <= u <= 0xFFFFD) || (0x100000 <= u <= 0x10FFFD)
}

/// The glyph-list entry that a (non-Unicode) glyph name resolves to: its own entry, or, when
/// it has none or only a private-use value, the entry of its normalized base name.
pub open spec fn resolve_name(m: Seq<(Seq<u8>, Seq<AglNameView>)>, name: Seq<u8>) -> Option<AglNameView> {
    let first = map_lookup(m, name);
    if first is None || (first.unwrap().unicodes.len() == 1 && is_pua(first.unwrap().unicodes[0])) {
        match spec_normalized_name(name) {
            Some((n, _)) => map_lookup(m, n),
            None => first,
        }
    } else {
        first
    }
}

/// The values of consecutive four-digit groups.
pub open spec fn chunk_values(b: Seq<u8>) -> Seq<i32>
    decreases b.len(),
{
    if b.len() < 4 {
        Seq::empty()
    } else {
        seq![spec_xtol(b.subrange(0, 4))] + chunk_values(b.subrange(4, b.len() as int))
    }
}

/// The values that a Unicode glyph name spells: one for "uXXXX", one per group for "uniXXXX...".
pub open spec fn unicode_name_values(name: Seq<u8>) -> Seq<i32> {
    if name[1] != 110u8 {
        seq![spec_xtol(name.subrange(1, name.len() as int))]
    } else {
        chunk_values(name.subrange(3, name.len() as int))
    }
}

/// The components of a glyph name's base (the part before '.') split at '_', and whether the
/// split went through: it stops, failing, at an empty component that a '_' starts.
pub open spec fn split_components(base: Seq<u8>) -> (Seq<Seq<u8>>, bool)
    decreases base.len(),
{
    if base.len() == 0 {
        (Seq::empty(), true)
    } else if base[0] == 95u8 {
        (Seq::empty(), false)
    } else {
        match first_index_of(base, 95u8) {
            None => (seq![base], true),
            Some(i) => {
                proof {
                    lemma_first_index_of(base, 95u8);
                }
                let r = split_components(base.subrange(i + 1, base.len() as int));
                (seq![base.subrange(0, i)] + r.0, r.1)
            },
        }
    }
}

/// Adds the values of one component to `acc`, checked against `max` as `agl_get_unicodes`
/// checks it; `None` when the component has no mapping or its values do not fit.
pub open spec fn component_step(
    m: Seq<(Seq<u8>, Seq<AglNameView>)>,
    c: Seq<u8>,
    acc: Seq<i32>,
    max: int,
) -> Option<Seq<i32>> {
    if spec_name_is_unicode(c) {
        let vs = unicode_name_values(c);
        if vs.len() > 0 && acc.len() + vs.len() > max {
            None
        } else {
            Some(acc + vs)
        }
    } else {
        match resolve_name(m, c) {
            Some(a) => if acc.len() + a.unicodes.len() > max {
                None
            } else {
                Some(acc + a.unicodes)
            },
            None => None,
        }
    }
}

/// Adds the values of the components in order to `acc` (see `component_step`).
pub open spec fn gather_values(
    m: Seq<(Seq<u8>, Seq<AglNameView>)>,
    comps: Seq<Seq<u8>>,
    acc: Seq<i32>,
    max: int,
) -> Option<Seq<i32>>
    decreases comps.len(),
{
    if comps.len() == 0 {
        Some(acc)
    } else {
        match component_step(m, comps[0], acc, max) {
            Some(a2) => gather_values(m, comps.drop_first(), a2, max),
            None => None,
        }
    }
}

/// The values of one component of a glyph name: those its Unicode name spells, or those of the
/// entry its name resolves to (`None` when there is none).
pub open spec fn component_values(m: Seq<(Seq<u8>, Seq<AglNameView>)>, c: Seq<u8>) -> Option<Seq<i32>> {
    if spec_name_is_unicode(c) {
        Some(unicode_name_values(c))
    } else {
        match resolve_name(m, c) {
            Some(a) => Some(a.unicodes),
            None => None,
        }
    }
}

/// The values of the components in order, one after another (`None` when one has none).
pub open spec fn concat_values(m: Seq<(Seq<u8>, Seq<AglNameView>)>, comps: Seq<Seq<u8>>) -> Option<Seq<i32>>
    decreases comps.len(),
{
    if comps.len() == 0 {
        Some(Seq::empty())
    } else {
        match (component_values(m, comps[0]), concat_values(m, comps.drop_first())) {
            (Some(a), Some(b)) => Some(a + b),
            _ => None,
        }
    }
}

proof fn lemma_gather_values(
    m: Seq<(Seq<u8>, Seq<AglNameView>)>,
    comps: Seq<Seq<u8>>,
    acc: Seq<i32>,
    max: int,
)
    requires
        acc.len() <= max,
    ensures
        match gather_values(m, comps, acc, max) {
            Some(r) => concat_values(m, comps) matches Some(t) && r == acc + t && r.len() <= max,
            None => match concat_values(m, comps) {
                Some(t) => acc.len() + t.len() > max,
                None => true,
            },
        },
    decreases comps.len(),
{
    if comps.len() > 0 {
        let c = comps[0];
        let rest = comps.drop_first();
        match component_step(m, c, acc, max) {
            Some(a2) => {
                lemma_gather_values(m, rest, a2, max);
                let cv = component_values(m, c).unwrap();
                assert(a2 == acc + cv);
                match gather_values(m, rest, a2, max) {
                    Some(r) => {
                        let t = concat_values(m, rest).unwrap();
                        assert(acc + (cv + t) =~= (acc + cv) + t);
                    },
                    None => {},
                }
            },
            None => {},
        }
    }
}

/// The values that `agl_get_unicodes` gives for a glyph name are those of the components of its
/// base (before the first '.', split at '_'), in order, one after another; it gives them exactly
/// when the split goes through, every component has values, and there are at most `max` of them.
pub proof fn law_get_unicodes_concatenates_components(
    m: Seq<(Seq<u8>, Seq<AglNameView>)>,
    glyphstr: Seq<u8>,
    max: int,
)
    requires
        0 <= max,
    ensures
        ({
            let (comps, ok) = split_components(before_first(glyphstr, 46u8));
            spec_get_unicodes(m, glyphstr, max) == if ok && concat_values(m, comps) is Some
                && concat_values(m, comps).unwrap().len() <= max {
                concat_values(m, comps)
            } else {
                None
            }
        }),
{
    let (comps, ok) = split_components(before_first(glyphstr, 46u8));
    lemma_gather_values(m, comps, Seq::empty(), max);
    match gather_values(m, comps, Seq::empty(), max) {
        Some(r) => {
            let t = concat_values(m, comps).unwrap();
            assert(Seq::<i32>::empty() + t =~= t);
        },
        None => {},
    }
}

/// What `agl_get_unicodes` gives for a glyph name: the Unicode values of its components, or
/// `None` when a component is empty or unknown or more than `max` values come out.
pub open spec fn spec_get_unicodes(
    m: Seq<(Seq<u8>, Seq<AglNameView>)>,
    glyphstr: Seq<u8>,
    max: int,
) -> Option<Seq<i32>> {
    let (comps, ok) = split_components(before_first(glyphstr, 46u8));
    match gather_values(m, comps, Seq::empty(), max) {
        Some(r) => if ok {
            Some(r)
        } else {
            None
        },
        None => None,
    }
}

pub proof fn lemma_split_step(base: Seq<u8>, p: int)
    requires
        0 <= p < base.len(),
        base[p] != 95u8,
    ensures
        ({
            let rest = base.subrange(p, base.len() as int);
            match first_index_of(rest, 95u8) {
                None => split_components(rest) == (seq![rest], true),
                Some(k) => 0 < k < rest.len() && split_components(rest) == (
                    seq![base.subrange(p, p + k)] + split_components(
                        base.subrange(p + k + 1, base.len() as int),
                    ).0,
                    split_components(base.subrange(p + k + 1, base.len() as int)).1,
                ),
            }
        }),
{
    let rest = base.subrange(p, base.len() as int);
    lemma_first_index_of(rest, 95u8);
    match first_index_of(rest, 95u8) {
        None => {},
        Some(k) => {
            assert(rest.subrange(k + 1, rest.len() as int) =~= base.subrange(p + k + 1, base.len() as int));
            assert(rest.subrange(0, k) =~= base.subrange(p, p + k));
        },
    }
}

/// The chunk values of a run of four-digit groups, computed group by group.
fn push_chunks(p: &[u8], out: &mut Vec<i32>)
    ensures
        final(out)@ == old(out)@ + chunk_values(p@),
    decreases p@.len(),
{
    if p.len() < 4 {
        assert(old(out)@ + chunk_values(p@) =~= old(out)@);
        return;
    }
    let v = xtol(&p[0..4]);
    out.push(v);
    let ghost mid = out@;
    push_chunks(&p[4..p.len()], out);
    assert(old(out)@ + chunk_values(p@) =~= mid + chunk_values(p@.subrange(4, p@.len() as int)));
}

/// The Unicode values of a glyph name built from components joined by '_' (an optional '.'
/// suffix is ignored): Unicode names give their spelled values, other names their glyph-list
/// entry. `None` when a component is empty or unknown, or when more than `max_unicodes` values
/// come out.
pub fn agl_get_unicodes(map: &AglMap, glyphstr: &[u8], max_unicodes: i32) -> (r: Option<Vec<i32>>)
    requires
        map.wf(),
        no_nul(glyphstr@),
    ensures
        match r {
            Some(v) => spec_get_unicodes(map@, glyphstr@, max_unicodes as int) == Some(v@),
            None => spec_get_unicodes(map@, glyphstr@, max_unicodes as int) is None,
        },
{
    proof {
        lemma_first_index_of(glyphstr@, 46u8);
    }
    let endptr = match find_byte(glyphstr, 46u8) {
        Some(n) => n,
        None => glyphstr.len(),
    };
    let base = &glyphstr[0..endptr];
    assert(base@ == before_first(glyphstr@, 46u8));
    let max = max_unicodes as i64;
    let mut out: Vec<i32> = Vec::new();
    let mut p: usize = 0;
    assert(base@.subrange(0, base@.len() as int) =~= base@);
    while p < base.len()
        invariant
            p <= base@.len(),
            no_nul(base@),
            map.wf(),
            max == max_unicodes as i64,
            base@ == before_first(glyphstr@, 46u8),
            spec_get_unicodes(map@, glyphstr@, max_unicodes as int) == ({
                let s = split_components(base@.subrange(p as int, base@.len() as int));
                match gather_values(map@, s.0, out@, max as int) {
                    Some(r) => if s.1 {
                        Some(r)
                    } else {
                        None
                    },
                    None => None,
                }
            }),
        decreases base@.len() - p,
    {
        if base[p] == 95u8 {
            return None;
        }
        proof {
            lemma_split_step(base@, p as int);
            lemma_first_index_of(base@.subrange(p as int, base@.len() as int), 95u8);
        }
        let rest = &base[p..base.len()];
        let delim = match find_byte(rest, 95u8) {
            Some(k) => p + k,
            None => base.len(),
        };
        let name = &base[p..delim];
        let ghost comps = split_components(base@.subrange(p as int, base@.len() as int)).0;
        let ghost next = if delim < base.len() { delim + 1 } else { base@.len() as int };
        let ghost old_out = out@;
        assert(comps[0] == name@);
        assert(comps.drop_first() =~= split_components(base@.subrange(next, base@.len() as int)).0);
        assert(split_components(base@.subrange(p as int, base@.len() as int)).1 == split_components(
            base@.subrange(next, base@.len() as int),
        ).1);
        assert(no_nul(name@));
        if !add_component(map, name, &mut out, max) {
            return None;
        }
        p = if delim < base.len() { delim + 1 } else { base.len() };
    }
    assert(split_components(base@.subrange(p as int, base@.len() as int)) == (Seq::<Seq<u8>>::empty(), true));
    Some(out)
}

pub proof fn lemma_name_is_unicode_len(g: Seq<u8>)
    ensures
        spec_name_is_unicode(g) ==> g.len() >= 5,
{
    lemma_first_index_of(g, 46u8);
}

fn push_all(out: &mut Vec<i32>, vals: &Vec<i32>)
    ensures
        final(out)@ == old(out)@ + vals@,
{
    let mut j: usize = 0;
    let ghost out0 = out@;
    while j < vals.len()
        invariant
            j <= vals@.len(),
            out@ == out0 + vals@.subrange(0, j as int),
        decreases vals@.len() - j,
    {
        out.push(vals[j]);
        j = j + 1;
        assert(out@ =~= out0 + vals@.subrange(0, j as int));
    }
    assert(vals@.subrange(0, vals@.len() as int) =~= vals@);
}

/// Adds the values of one component (see `component_step`); false when it fails.
fn add_component(map: &AglMap, name: &[u8], out: &mut Vec<i32>, max: i64) -> (ok: bool)
    requires
        map.wf(),
        no_nul(name@),
        name@.len() > 0,
    ensures
        ok == component_step(map@, name@, old(out)@, max as int) is Some,
        ok ==> component_step(map@, name@, old(out)@, max as int) == Some(final(out)@),
{
    proof {
        lemma_name_is_unicode_len(name@);
    }
    if agl_name_is_unicode(name) {
        if name[1] != 110u8 {
            if out.len() as i128 >= max as i128 {
                return false;
            }
            out.push(xtol(&name[1..name.len()]));
            assert(final(out)@ =~= old(out)@ + unicode_name_values(name@));
        } else {
            let mut vals: Vec<i32> = Vec::new();
            push_chunks(&name[3..name.len()], &mut vals);
            assert(vals@ =~= unicode_name_values(name@));
            if vals.len() > 0 && (out.len() as i128) + (vals.len() as i128) > max as i128 {
                return false;
            }
            push_all(out, &vals);
        }
        true
    } else {
        match resolve_exec(map, name) {
            Some(a) => {
                if (out.len() as i128) + (a.unicodes.len() as i128) > max as i128 {
                    return false;
                }
                push_all(out, &a.unicodes);
                true
            },
            None => false,
        }
    }
}

/// Looks a (non-Unicode) glyph name up as `resolve_name` says.
fn resolve_exec<'a>(map: &'a AglMap, name: &[u8]) -> (r: Option<&'a agl_name>)
    requires
        map.wf(),
        no_nul(name@),
        name@.len() > 0,
    ensures
        match r {
            Some(a) => resolve_name(map@, name@) == Some(a@),
            None => resolve_name(map@, name@) is None,
        },
{
    let first = map.agl_lookup_list(name);
    let redo = match first {
        None => true,
        Some(a) => a.unicodes.len() == 1 && ((0xE000 <= a.unicodes[0] && a.unicodes[0] <= 0xF8FF)
            || (0xF0000 <= a.unicodes[0] && a.unicodes[0] <= 0xFFFFD) || (0x100000 <= a.unicodes[0]
            && a.unicodes[0] <= 0x10FFFD)),
    };
    if redo {
        match agl_normalized_name(name) {
            Some(n) => map.agl_lookup_list(n.name.as_slice()),
            None => first,
        }
    } else {
        first
    }
}

/// The UTF-16BE bytes of a code point; U+FFFD for a value that is no code point.
pub open spec fn utf16be_bytes(ucv: i32) -> Seq<u8> {
    if 0 <= ucv <= 0xFFFF {
        seq![(ucv / 256) as u8, (ucv % 256) as u8]
    } else if 0x10000 <= ucv <= 0x10FFFF {
        let u = ucv - 0x10000;
        let hi = u / 1024 + 0xD800;
        let lo = u % 1024 + 0xDC00;
        seq![(hi / 256) as u8, (hi % 256) as u8, (lo / 256) as u8, (lo % 256) as u8]
    } else {
        seq![0xFFu8, 0xFDu8]
    }
}

/// The code point that UTF-16BE bytes stand for: two bytes are one unit; four bytes are a
/// high surrogate then a low one.
pub open spec fn utf16be_decode(b: Seq<u8>) -> int {
    if b.len() == 2 {
        b[0] * 256 + b[1]
    } else if b.len() == 4 {
        let hi = b[0] * 256 + b[1];
        let lo = b[2] * 256 + b[3];
        0x10000 + (hi - 0xD800) * 1024 + (lo - 0xDC00)
    } else {
        -1
    }
}

/// A code point is written as UTF-16BE that reads back as itself: a code point of the Basic
/// Multilingual Plane as its two big-endian bytes, one beyond as a high surrogate then a low
/// one; a value that is no code point as U+FFFD.
pub proof fn law_utf16be_round_trip(c: i32)
    ensures
        0 <= c <= 0xFFFF ==> utf16be_bytes(c) == seq![(c / 256) as u8, (c % 256) as u8]
            && utf16be_decode(utf16be_bytes(c)) == c,
        0x10000 <= c <= 0x10FFFF ==> utf16be_bytes(c).len() == 4 && utf16be_decode(utf16be_bytes(c)) == c
            && 0xD800 <= utf16be_bytes(c)[0] * 256 + utf16be_bytes(c)[1] <= 0xDBFF
            && 0xDC00 <= utf16be_bytes(c)[2] * 256 + utf16be_bytes(c)[3] <= 0xDFFF,
        !(0 <= c <= 0x10FFFF) ==> utf16be_bytes(c) == seq![0xFFu8, 0xFDu8],
{
    if 0 <= c <= 0xFFFF {
        let b = utf16be_bytes(c);
        assert(b[0] == c / 256 && b[1] == c % 256);
        assert((c / 256) * 256 + c % 256 == c) by (nonlinear_arith);
    } else if 0x10000 <= c <= 0x10FFFF {
        let u = c - 0x10000;
        let hi = u / 1024 + 0xD800;
        let lo = u % 1024 + 0xDC00;
        let b = utf16be_bytes(c);
        assert(0 <= u / 1024 < 1024 && 0 <= u % 1024 < 1024 && (u / 1024) * 1024 + u % 1024 == u) by (nonlinear_arith)
            requires 0 <= u < 0x100000;
        assert(0 <= hi && 0 <= lo && (hi / 256) * 256 + hi % 256 == hi && (lo / 256) * 256 + lo % 256 == lo
            && hi / 256 < 256 && lo / 256 < 256) by (nonlinear_arith)
            requires 0xD800 <= hi <= 0xDBFF, 0xDC00 <= lo <= 0xDFFF;
        assert(b[0] == hi / 256 && b[1] == hi % 256 && b[2] == lo / 256 && b[3] == lo % 256);
    }
}

/// Writing one code point into a buffer that may grow to `limit` bytes: all of its bytes, or
/// nothing when they do not fit. Gives the buffer and the number of bytes written.
pub open spec fn put_char(out: Seq<u8>, limit: int, ucv: i32) -> (Seq<u8>, int) {
    let b = utf16be_bytes(ucv);
    if out.len() + b.len() <= limit {
        (out + b, b.len() as int)
    } else {
        (out, 0)
    }
}

/// Writing code points one after the other (see `put_char`).
pub open spec fn put_values(out: Seq<u8>, limit: int, vals: Seq<i32>) -> (Seq<u8>, int)
    decreases vals.len(),
{
    if vals.len() == 0 {
        (out, 0)
    } else {
        let (o1, n1) = put_char(out, limit, vals[0]);
        let (o2, n2) = put_values(o1, limit, vals.drop_first());
        (o2, n1 + n2)
    }
}

/// Encodes a code point as UTF-16BE at the end of `dst` when it fits within `limit` bytes;
/// returns the number of bytes written (0 when it does not fit).
pub fn utf16be_encode_char(ucv: i32, dst: &mut Vec<u8>, limit: usize) -> (n: usize)
    ensures
        (final(dst)@, n as int) == put_char(old(dst)@, limit as int, ucv),
        final(dst)@.len() == old(dst)@.len() + n,
{
    if 0 <= ucv && ucv <= 0xFFFF {
        if dst.len() >= limit || limit - dst.len() < 2 {
            return 0;
        }
        dst.push((ucv / 256) as u8);
        dst.push((ucv % 256) as u8);
        assert(final(dst)@ =~= old(dst)@ + utf16be_bytes(ucv));
        2
    } else if 0x10000 <= ucv && ucv <= 0x10FFFF {
        if dst.len() >= limit || limit - dst.len() < 4 {
            return 0;
        }
        let u = ucv - 0x10000;
        let hi = u / 1024 + 0xD800;
        let lo = u % 1024 + 0xDC00;
        dst.push((hi / 256) as u8);
        dst.push((hi % 256) as u8);
        dst.push((lo / 256) as u8);
        dst.push((lo % 256) as u8);
        assert(final(dst)@ =~= old(dst)@ + utf16be_bytes(ucv));
        4
    } else {
        if dst.len() >= limit || limit - dst.len() < 2 {
            return 0;
        }
        dst.push(0xFFu8);
        dst.push(0xFDu8);
        assert(final(dst)@ =~= old(dst)@ + utf16be_bytes(ucv));
        2
    }
}

fn put_values_exec(vals: &Vec<i32>, dst: &mut Vec<u8>, limit: usize) -> (n: usize)
    ensures
        (final(dst)@, n as int) == put_values(old(dst)@, limit as int, vals@),
        final(dst)@.len() == old(dst)@.len() + n,
{
    let ghost d0 = dst@;
    let mut n: usize = 0;
    assert(vals@.subrange(0, vals@.len() as int) =~= vals@);
    // Written back to front: a suffix of `vals` is what is left to be written.
    let mut k: usize = 0;
    while k < vals.len()
        invariant
            k <= vals@.len(),
            dst@.len() == d0.len() + n,
            put_values(d0, limit as int, vals@) == ({
                let (o2, n2) = put_values(dst@, limit as int, vals@.subrange(k as int, vals@.len() as int));
                (o2, n + n2)
            }),
        decreases vals@.len() - k,
    {
        let ghost rest = vals@.subrange(k as int, vals@.len() as int);
        assert(rest[0] == vals@[k as int]);
        assert(rest.drop_first() =~= vals@.subrange(k + 1, vals@.len() as int));
        let w = utf16be_encode_char(vals[k], dst, limit);
        n = n + w;
        k = k + 1;
    }
    assert(vals@.subrange(k as int, vals@.len() as int) =~= Seq::<i32>::empty());
    n
}

/// Writing the code points of one component: its bytes, how many, and whether it counts as a
/// failure (a Unicode name of which nothing fits, or a name without mapping).
pub open spec fn sput_step(
    m: Seq<(Seq<u8>, Seq<AglNameView>)>,
    c: Seq<u8>,
    out: Seq<u8>,
    limit: int,
) -> (Seq<u8>, int, bool) {
    if spec_name_is_unicode(c) {
        let (o, n) = put_values(out, limit, unicode_name_values(c));
        (o, n, n == 0)
    } else {
        match resolve_name(m, c) {
            Some(a) => {
                let (o, n) = put_values(out, limit, a.unicodes);
                (o, n, false)
            },
            None => (out, 0, true),
        }
    }
}

/// Writing the components one after the other: the bytes, their number and the failures.
pub open spec fn sput_comps(
    m: Seq<(Seq<u8>, Seq<AglNameView>)>,
    comps: Seq<Seq<u8>>,
    out: Seq<u8>,
    limit: int,
) -> (Seq<u8>, int, int)
    decreases comps.len(),
{
    if comps.len() == 0 {
        (out, 0, 0)
    } else {
        let (o1, n1, f1) = sput_step(m, comps[0], out, limit);
        let (o2, n2, f2) = sput_comps(m, comps.drop_first(), o1, limit);
        (o2, n1 + n2, (if f1 { 1int } else { 0int }) + f2)
    }
}

/// What `agl_sput_UTF16BE` does: the buffer after it, the bytes written and the failures
/// counted (one more when an empty component stops the split).
pub open spec fn spec_sput(
    m: Seq<(Seq<u8>, Seq<AglNameView>)>,
    glyphstr: Seq<u8>,
    out: Seq<u8>,
    limit: int,
) -> (Seq<u8>, int, int) {
    let (comps, ok) = split_components(before_first(glyphstr, 46u8));
    let (o, n, f) = sput_comps(m, comps, out, limit);
    (o, n, if ok { f } else { f + 1 })
}

pub proof fn lemma_put_values_grows(out: Seq<u8>, limit: int, vals: Seq<i32>)
    ensures
        ({
            let (o, n) = put_values(out, limit, vals);
            o.len() == out.len() + n && 0 <= n && (out.len() <= limit ==> o.len() <= limit)
        }),
    decreases vals.len(),
{
    if vals.len() > 0 {
        let (o1, n1) = put_char(out, limit, vals[0]);
        lemma_put_values_grows(o1, limit, vals.drop_first());
    }
}

/// The values a component writes (see `sput_step`), computed.
fn component_values_for_sput<'a>(map: &'a AglMap, name: &[u8]) -> (r: Option<Vec<i32>>)
    requires
        map.wf(),
        no_nul(name@),
        name@.len() > 0,
    ensures
        spec_name_is_unicode(name@) ==> (r is Some && r.unwrap()@ == unicode_name_values(name@)),
        !spec_name_is_unicode(name@) ==> match r {
            Some(v) => resolve_name(map@, name@) matches Some(a) && a.unicodes == v@,
            None => resolve_name(map@, name@) is None,
        },
{
    proof {
        lemma_name_is_unicode_len(name@);
    }
    if agl_name_is_unicode(name) {
        let mut vals: Vec<i32> = Vec::new();
        if name[1] != 110u8 {
            vals.push(xtol(&name[1..name.len()]));
        } else {
            push_chunks(&name[3..name.len()], &mut vals);
        }
        assert(vals@ =~= unicode_name_values(name@));
        Some(vals)
    } else {
        match resolve_exec(map, name) {
            Some(a) => {
                let mut v: Vec<i32> = Vec::new();
                push_all(&mut v, &a.unicodes);
                assert(v@ =~= a.unicodes@);
                Some(v)
            },
            None => None,
        }
    }
}

fn sput_component(map: &AglMap, name: &[u8], dst: &mut Vec<u8>, limit: usize) -> (r: (usize, bool))
    requires
        map.wf(),
        no_nul(name@),
        name@.len() > 0,
        old(dst)@.len() <= limit,
    ensures
        (final(dst)@, r.0 as int, r.1) == sput_step(map@, name@, old(dst)@, limit as int),
        final(dst)@.len() == old(dst)@.len() + r.0,
        final(dst)@.len() <= limit,
        r.1 ==> r.0 == 0,
{
    let ghost before = dst@;
    let is_uni = agl_name_is_unicode(name);
    match component_values_for_sput(map, name) {
        Some(vals) => {
            let n = put_values_exec(&vals, dst, limit);
            proof {
                lemma_put_values_grows(before, limit as int, vals@);
            }
            (n, is_uni && n == 0)
        },
        None => (0, true),
    }
}

/// Writes the UTF-16BE form of a glyph name's code points (see `agl_get_unicodes` for how the
/// name is read) at the end of `dst`, which may grow to `limit` bytes; a code point that does
/// not fit is left out. Returns the number of bytes written and sets `fail_count` to the number
/// of components that gave nothing.
#[allow(non_snake_case)]
pub fn agl_sput_UTF16BE(
    map: &AglMap,
    glyphstr: &[u8],
    dst: &mut Vec<u8>,
    limit: usize,
    fail_count: &mut i32,
) -> (len: i32)
    requires
        map.wf(),
        no_nul(glyphstr@),
        old(dst)@.len() <= limit <= i32::MAX,
        glyphstr@.len() < i32::MAX,
    ensures
        (final(dst)@, len as int, *final(fail_count) as int) == spec_sput(
            map@,
            glyphstr@,
            old(dst)@,
            limit as int,
        ),
{
    proof {
        lemma_first_index_of(glyphstr@, 46u8);
    }
    let endptr = match find_byte(glyphstr, 46u8) {
        Some(n) => n,
        None => glyphstr.len(),
    };
    let base = &glyphstr[0..endptr];
    assert(base@ == before_first(glyphstr@, 46u8));
    let ghost d0 = dst@;
    let mut len: i32 = 0;
    let mut count: i32 = 0;
    let mut p: usize = 0;
    assert(base@.subrange(0, base@.len() as int) =~= base@);
    while p < base.len()
        invariant
            p <= base@.len() < i32::MAX,
            no_nul(base@),
            map.wf(),
            base@ == before_first(glyphstr@, 46u8),
            d0 == old(dst)@,
            d0.len() <= dst@.len() <= limit <= i32::MAX,
            len == dst@.len() - d0.len(),
            0 <= count <= p,
            spec_sput(map@, glyphstr@, d0, limit as int) == ({
                let s = split_components(base@.subrange(p as int, base@.len() as int));
                let (o, n, f) = sput_comps(map@, s.0, dst@, limit as int);
                (o, len + n, count + (if s.1 { f } else { f + 1 }))
            }),
        decreases base@.len() - p,
    {
        if base[p] == 95u8 {
            *fail_count = count + 1;
            proof {
                let s = split_components(base@.subrange(p as int, base@.len() as int));
                assert(s == (Seq::<Seq<u8>>::empty(), false));
                assert(sput_comps(map@, Seq::<Seq<u8>>::empty(), dst@, limit as int) == (dst@, 0int, 0int));
                assert(spec_sput(map@, glyphstr@, d0, limit as int) == (dst@, len as int, count + 1));
            }
            return len;
        }
        proof {
            lemma_split_step(base@, p as int);
            lemma_first_index_of(base@.subrange(p as int, base@.len() as int), 95u8);
        }
        let rest = &base[p..base.len()];
        let delim = match find_byte(rest, 95u8) {
            Some(k) => p + k,
            None => base.len(),
        };
        let name = &base[p..delim];
        let ghost comps = split_components(base@.subrange(p as int, base@.len() as int)).0;
        let ghost next = if delim < base.len() { delim + 1 } else { base@.len() as int };
        assert(comps[0] == name@);
        assert(comps.drop_first() =~= split_components(base@.subrange(next, base@.len() as int)).0);
        assert(no_nul(name@));
        let (n, failed) = sput_component(map, name, dst, limit);
        if failed {
            count = count + 1;
        } else {
            len = len + n as i32;
        }
        p = if delim < base.len() { delim + 1 } else { base.len() };
    }
    *fail_count = count;
    len
}


/// The lines of `d` from position `i`, the current line holding `cur` so far: a line ends at
/// `\n`, `\r\n` or `\r`, a line that reaches 1023 bytes ends there, and a last line without
/// an end counts when it is not empty.
pub open spec fn lines_from(d: Seq<u8>, i: int, cur: Seq<u8>) -> Seq<Seq<u8>>
    decreases d.len() - i,
{
    if i < 0 || i >= d.len() {
        if cur.len() > 0 {
            seq![cur]
        } else {
            Seq::empty()
        }
    } else if d[i] == 10u8 || d[i] == 13u8 {
        let j = if d[i] == 13u8 && i + 1 < d.len() && d[i + 1] == 10u8 {
            i + 2
        } else {
            i + 1
        };
        seq![cur] + lines_from(d, j, Seq::empty())
    } else if cur.len() + 1 == 1023 {
        seq![cur.push(d[i])] + lines_from(d, i + 1, Seq::empty())
    } else {
        lines_from(d, i + 1, cur.push(d[i]))
    }
}

/// The lines of a glyph list file, as the line reader gives them (see `lines_from`).
pub fn agl_split_lines(data: &[u8]) -> (r: Vec<Vec<u8>>)
    ensures
        lines_view(r@) == lines_from(data@, 0, Seq::empty()),
{
    let mut lines: Vec<Vec<u8>> = Vec::new();
    let mut cur: Vec<u8> = Vec::new();
    let mut i: usize = 0;
    assert(lines_view(lines@) =~= Seq::<Seq<u8>>::empty());
    assert(cur@ =~= Seq::<u8>::empty());
    while i < data.len()
        invariant
            i <= data@.len(),
            cur@.len() < 1023,
            lines_view(lines@) + lines_from(data@, i as int, cur@) == lines_from(data@, 0, Seq::empty()),
        decreases data@.len() - i,
    {
        let ghost before = lines_view(lines@);
        let ghost cur0 = cur@;
        let c = data[i];
        if c == 10u8 || c == 13u8 {
            let mut j = i + 1;
            if c == 13u8 && i + 1 < data.len() && data[i + 1] == 10u8 {
                j = i + 2;
            }
            let mut done: Vec<u8> = Vec::new();
            std::mem::swap(&mut done, &mut cur);
            lines.push(done);
            assert(lines_view(lines@) =~= before.push(cur0));
            assert(cur@ =~= Seq::<u8>::empty());
            assert(lines_view(lines@) + lines_from(data@, j as int, cur@) =~= before + (seq![cur0]
                + lines_from(data@, j as int, Seq::empty())));
            i = j;
        } else {
            cur.push(c);
            if cur.len() == 1023 {
                let mut done: Vec<u8> = Vec::new();
                std::mem::swap(&mut done, &mut cur);
                lines.push(done);
                assert(lines_view(lines@) =~= before.push(cur0.push(c)));
                assert(cur@ =~= Seq::<u8>::empty());
                assert(lines_view(lines@) + lines_from(data@, i + 1, cur@) =~= before + (seq![cur0.push(c)]
                    + lines_from(data@, i + 1, Seq::empty())));
            } else {
                assert(lines_view(lines@) =~= before);
            }
            i = i + 1;
        }
    }
    if cur.len() > 0 {
        let ghost before = lines_view(lines@);
        let ghost cur0 = cur@;
        lines.push(cur);
        assert(lines_view(lines@) =~= before + seq![cur0]);
    } else {
        assert(lines_view(lines@) + lines_from(data@, i as int, cur@) =~= lines_view(lines@));
    }
    lines
}

} // verus!
