use vstd::prelude::*;
use crate::text::{is_ascii_alpha, is_ascii_digit};

verus! {

/// A byte of a C identifier after the first: `_`, a letter or a digit.
pub open spec fn is_ident_char(c: u8) -> bool {
    c == 95 || is_ascii_alpha(c) || is_ascii_digit(c)
}

/// Where a run of bytes satisfying the identifier rule ends, from `i`, before `end`.
pub open spec fn ident_end(s: Seq<u8>, i: int, end: int) -> int
    decreases end - i,
{
    if 0 <= i < end && i < s.len() && is_ident_char(s[i]) {
        ident_end(s, i + 1, end)
    } else {
        i
    }
}

pub proof fn lemma_ident_end(s: Seq<u8>, i: int, end: int)
    requires
        0 <= i <= end <= s.len(),
    ensures
        i <= ident_end(s, i, end) <= end,
        forall|k: int| i <= k < ident_end(s, i, end) ==> is_ident_char(#[trigger] s[k]),
    decreases end - i,
{
    if i < end && is_ident_char(s[i]) {
        lemma_ident_end(s, i + 1, end);
    }
}

fn copy_range(s: &[u8], from: usize, to: usize) -> (v: Vec<u8>)
    requires
        from <= to <= s@.len(),
    ensures
        v@ == s@.subrange(from as int, to as int),
{
    let mut v: Vec<u8> = Vec::new();
    let mut i = from;
    while i < to
        invariant
            from <= i <= to <= s@.len(),
            v@ == s@.subrange(from as int, i as int),
        decreases to - i,
    {
        v.push(s[i]);
        i = i + 1;
        assert(v@ =~= s@.subrange(from as int, i as int));
    }
    v
}

/// What `parse_c_ident` reads at `pos` before `end`: the identifier, if one starts there, and
/// the position after it.
pub open spec fn spec_parse_c_ident(s: Seq<u8>, pos: int, end: int) -> (Option<Seq<u8>>, int) {
    if pos < end && (s[pos] == 95 || is_ascii_alpha(s[pos])) {
        let e = ident_end(s, pos, end);
        (Some(s.subrange(pos, e)), e)
    } else {
        (None, pos)
    }
}

pub open spec fn opt_bytes(o: Option<Vec<u8>>) -> Option<Seq<u8>> {
    match o {
        Some(v) => Some(v@),
        None => None,
    }
}

/// Reads a C identifier (`[_A-Za-z][_A-Za-z0-9]*`) at `pos`, before `end`. Returns it and the
/// position after it; `None` and `pos` when none starts there.
pub fn parse_c_ident(s: &[u8], pos: usize, end: usize) -> (r: (Option<Vec<u8>>, usize))
    requires
        pos <= end <= s@.len(),
    ensures
        ({
            if pos < end && (s@[pos as int] == 95 || is_ascii_alpha(s@[pos as int])) {
                let e = ident_end(s@, pos as int, end as int);
                &&& r.1 == e
                &&& r.0 matches Some(v) && v@ == s@.subrange(pos as int, e)
            } else {
                r.1 == pos && r.0 is None
            }
        }),
        pos <= r.1 <= end,
        (opt_bytes(r.0), r.1 as int) == spec_parse_c_ident(s@, pos as int, end as int),
{
    if pos >= end || !(s[pos] == 95 || (65 <= s[pos] && s[pos] <= 90) || (97 <= s[pos] && s[pos]
        <= 122)) {
        return (None, pos);
    }
    proof {
        lemma_ident_end(s@, pos as int, end as int);
    }
    let mut p = pos;
    while p < end && (s[p] == 95 || (65 <= s[p] && s[p] <= 90) || (97 <= s[p] && s[p] <= 122) || (48
        <= s[p] && s[p] <= 57))
        invariant
            pos <= p <= end <= s@.len(),
            ident_end(s@, pos as int, end as int) == ident_end(s@, p as int, end as int),
        decreases end - p,
    {
        p = p + 1;
    }
    (Some(copy_range(s, pos, p)), p)
}

/// Where the decimal-number scan of `parse_float_decimal` stops from `p` (in state `st`,
/// having seen `n` digits), and how many digits it saw.
pub open spec fn float_scan(s: Seq<u8>, p: int, end: int, st: int, n: int) -> (int, int)
    decreases end - p,
{
    if p < 0 || p >= end || p >= s.len() || st < 0 {
        (p, n)
    } else {
        let c = s[p];
        if c == 43 || c == 45 {
            if st != 2 {
                (p, n)
            } else {
                float_scan(s, p + 1, end, 3, n)
            }
        } else if c == 46 {
            if st > 0 {
                (p, n)
            } else {
                float_scan(s, p + 1, end, 1, n)
            }
        } else if is_ascii_digit(c) {
            float_scan(s, p + 1, end, st, n + 1)
        } else if c == 69 || c == 101 {
            if n == 0 || st == 2 {
                (p, n)
            } else {
                float_scan(s, p + 1, end, 2, n)
            }
        } else {
            (p, n)
        }
    }
}

pub proof fn lemma_float_scan(s: Seq<u8>, p: int, end: int, st: int, n: int)
    requires
        0 <= p <= end <= s.len(),
        n >= 0,
    ensures
        p <= float_scan(s, p, end, st, n).0 <= end,
        float_scan(s, p, end, st, n).1 >= n,
    decreases end - p,
{
    if p < end && st >= 0 {
        let c = s[p];
        if c == 43 || c == 45 {
            if st == 2 {
                lemma_float_scan(s, p + 1, end, 3, n);
            }
        } else if c == 46 {
            if st <= 0 {
                lemma_float_scan(s, p + 1, end, 1, n);
            }
        } else if is_ascii_digit(c) {
            lemma_float_scan(s, p + 1, end, st, n + 1);
        } else if c == 69 || c == 101 {
            if !(n == 0 || st == 2) {
                lemma_float_scan(s, p + 1, end, 2, n);
            }
        }
    }
}

/// What `parse_float_decimal` reads at `pos` before `end`: the new position and, when it saw a
/// digit, the text of the number (an optional sign, digits with at most one '.', and an
/// optional exponent).
pub open spec fn spec_parse_float_decimal(s: Seq<u8>, pos: int, end: int) -> (Option<Seq<u8>>, int) {
    if pos >= end {
        (None, pos)
    } else {
        let p0 = if s[pos] == 43 || s[pos] == 45 {
            pos + 1
        } else {
            pos
        };
        let (e, n) = float_scan(s, p0, end, 0, 0);
        if n != 0 {
            (Some(s.subrange(pos, e)), e)
        } else {
            (None, e)
        }
    }
}

pub proof fn lemma_parse_float_decimal(s: Seq<u8>, pos: int, end: int)
    requires
        0 <= pos <= end <= s.len(),
    ensures
        pos <= spec_parse_float_decimal(s, pos, end).1 <= end,
        spec_parse_float_decimal(s, pos, end).0 is Some ==> pos < spec_parse_float_decimal(
            s,
            pos,
            end,
        ).1,
{
    if pos < end {
        let p0 = if s[pos] == 43 || s[pos] == 45 {
            pos + 1
        } else {
            pos
        };
        lemma_float_scan_digits(s, p0, end, 0, 0);
        lemma_float_scan(s, p0, end, 0, 0);
    }
}

/// A scan that saw more digits than it started with moved forward.
pub proof fn lemma_float_scan_digits(s: Seq<u8>, p: int, end: int, st: int, n: int)
    requires
        0 <= p <= end <= s.len(),
        n >= 0,
    ensures
        float_scan(s, p, end, st, n).1 > n ==> float_scan(s, p, end, st, n).0 > p,
    decreases end - p,
{
    if p < end && st >= 0 {
        let c = s[p];
        if c == 43 || c == 45 {
            if st == 2 {
                lemma_float_scan(s, p + 1, end, 3, n);
            }
        } else if c == 46 {
            if st <= 0 {
                lemma_float_scan(s, p + 1, end, 1, n);
            }
        } else if is_ascii_digit(c) {
            lemma_float_scan(s, p + 1, end, st, n + 1);
        } else if c == 69 || c == 101 {
            if !(n == 0 || st == 2) {
                lemma_float_scan(s, p + 1, end, 2, n);
            }
        }
    }
}

/// Reads a decimal number at `pos` (see `spec_parse_float_decimal`). The position moves past
/// what was scanned even when no digit came.
pub fn parse_float_decimal(s: &[u8], pos: usize, end: usize) -> (r: (Option<Vec<u8>>, usize))
    requires
        pos <= end <= s@.len(),
    ensures
        (match r.0 {
            Some(v) => Some(v@),
            None => None,
        }, r.1 as int) == spec_parse_float_decimal(s@, pos as int, end as int),
        pos <= r.1 <= end,
{
    if pos >= end {
        return (None, pos);
    }
    let mut p = pos;
    if s[p] == 43 || s[p] == 45 {
        p = p + 1;
    }
    let ghost p0 = p;
    let mut st: i32 = 0;
    let mut n: usize = 0;
    proof {
        lemma_float_scan(s@, p as int, end as int, 0, 0);
    }
    while p < end && st >= 0
        invariant
            pos <= p0 <= p <= end <= s@.len(),
            n <= p - p0,
            -1 <= st <= 3,
            float_scan(s@, p0 as int, end as int, 0, 0) == float_scan(s@, p as int, end as int, st as int, n as int),
        decreases end - p, if st >= 0 { 1int } else { 0int },
    {
        let c = s[p];
        if c == 43 || c == 45 {
            if st != 2 {
                st = -1;
            } else {
                st = 3;
                p = p + 1;
            }
        } else if c == 46 {
            if st > 0 {
                st = -1;
            } else {
                st = 1;
                p = p + 1;
            }
        } else if 48 <= c && c <= 57 {
            n = n + 1;
            p = p + 1;
        } else if c == 69 || c == 101 {
            if n == 0 || st == 2 {
                st = -1;
            } else {
                st = 2;
                p = p + 1;
            }
        } else {
            st = -1;
        }
    }
    if n != 0 {
        (Some(copy_range(s, pos, p)), p)
    } else {
        (None, p)
    }
}

/// Where a run of blanks (space, tab) from `i` ends, before `end`.
pub open spec fn blank_end(s: Seq<u8>, i: int, end: int) -> int
    decreases end - i,
{
    if 0 <= i < end && i < s.len() && (s[i] == 32 || s[i] == 9) {
        blank_end(s, i + 1, end)
    } else {
        i
    }
}

/// Skips blanks (space, tab) from `pos`, before `end`.
pub fn skip_blank(s: &[u8], pos: usize, end: usize) -> (r: usize)
    requires
        pos <= end <= s@.len(),
    ensures
        r == blank_end(s@, pos as int, end as int),
        pos <= r <= end,
{
    let mut p = pos;
    while p < end && (s[p] == 32 || s[p] == 9)
        invariant
            pos <= p <= end <= s@.len(),
            blank_end(s@, pos as int, end as int) == blank_end(s@, p as int, end as int),
        decreases end - p,
    {
        p = p + 1;
    }
    p
}

} // verus!
