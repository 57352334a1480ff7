use vstd::prelude::*;

verus! {

/// White space as the PDF parser knows it: space, tab, form feed, CR, LF and NUL.
pub open spec fn is_space(c: u8) -> bool {
    c == 32 || c == 9 || c == 12 || c == 13 || c == 10 || c == 0
}

/// Where the scan stops that skips a line from `i`: past the next CR, LF or CR LF.
pub open spec fn skip_line_end(s: Seq<u8>, i: int) -> int
    decreases s.len() - i,
{
    if i < s.len() && s[i] != 10 && s[i] != 13 {
        skip_line_end(s, i + 1)
    } else {
        let j = if i < s.len() && s[i] == 13 { i + 1 } else { i };
        if j < s.len() && s[j] == 10 {
            j + 1
        } else {
            j
        }
    }
}

pub proof fn lemma_skip_line_end(s: Seq<u8>, i: int)
    requires
        0 <= i <= s.len(),
    ensures
        i <= skip_line_end(s, i) <= s.len(),
        i < s.len() ==> i < skip_line_end(s, i),
    decreases s.len() - i,
{
    if i < s.len() && s[i] != 10 && s[i] != 13 {
        lemma_skip_line_end(s, i + 1);
    }
}

/// Where `skip_white` stops from `i`: past white space and `%` comments.
pub open spec fn skip_white_end(s: Seq<u8>, i: int) -> int
    decreases s.len() - i,
{
    if 0 <= i < s.len() && is_space(s[i]) {
        skip_white_end(s, i + 1)
    } else if 0 <= i < s.len() && s[i] == 37 {
        proof {
            lemma_skip_line_end(s, i);
        }
        skip_white_end(s, skip_line_end(s, i))
    } else {
        i
    }
}

pub proof fn lemma_skip_white_end(s: Seq<u8>, i: int)
    requires
        0 <= i <= s.len(),
    ensures
        i <= skip_white_end(s, i) <= s.len(),
        skip_white_end(s, i) < s.len() ==> !is_space(s[skip_white_end(s, i)]) && s[skip_white_end(
            s,
            i,
        )] != 37,
    decreases s.len() - i,
{
    if i < s.len() && is_space(s[i]) {
        lemma_skip_white_end(s, i + 1);
    } else if i < s.len() && s[i] == 37 {
        lemma_skip_line_end(s, i);
        lemma_skip_white_end(s, skip_line_end(s, i));
    }
}

fn skip_line(s: &[u8], pos: usize) -> (r: usize)
    requires
        pos <= s@.len(),
    ensures
        r == skip_line_end(s@, pos as int),
{
    let mut p = pos;
    while p < s.len() && s[p] != 10 && s[p] != 13
        invariant
            pos <= p <= s@.len(),
            skip_line_end(s@, pos as int) == skip_line_end(s@, p as int),
        decreases s@.len() - p,
    {
        p = p + 1;
    }
    if p < s.len() && s[p] == 13 {
        p = p + 1;
    }
    if p < s.len() && s[p] == 10 {
        p = p + 1;
    }
    p
}

/// Skips white space and `%` comments from `pos`; returns the new position.
pub fn skip_white(s: &[u8], pos: usize) -> (r: usize)
    requires
        pos <= s@.len(),
    ensures
        r == skip_white_end(s@, pos as int),
        pos <= r <= s@.len(),
{
    proof {
        lemma_skip_white_end(s@, pos as int);
    }
    let mut p = pos;
    while p < s.len() && (s[p] == 32 || s[p] == 9 || s[p] == 12 || s[p] == 13 || s[p] == 10 || s[p]
        == 0 || s[p] == 37)
        invariant
            pos <= p <= s@.len(),
            skip_white_end(s@, pos as int) == skip_white_end(s@, p as int),
            pos <= skip_white_end(s@, pos as int) <= s@.len(),
        decreases s@.len() - p,
    {
        if s[p] == 37 {
            proof {
                lemma_skip_line_end(s@, p as int);
            }
            p = skip_line(s, p);
        } else {
            p = p + 1;
        }
    }
    p
}

/// A byte that `parse_ident` takes into a name: the printable ASCII bytes other than the
/// delimiters `%()/<>[]{}`, and NUL (which C's `strchr` finds in its set of valid bytes, as
/// the set's terminator). With `val` (`parse_val_ident`), `/` is taken and `=` is not.
pub open spec fn is_ident_byte(c: u8, val: bool) -> bool {
    c == 0 || (33 <= c <= 126 && c != 37 && c != 40 && c != 41 && c != 60 && c != 62 && c != 91
        && c != 93 && c != 123 && c != 125 && (if val { c != 61 } else { c != 47 }))
}

/// Where a run of identifier bytes (see `is_ident_byte`) from `i` ends.
pub open spec fn ident_run_end(s: Seq<u8>, i: int, val: bool) -> int
    decreases s.len() - i,
{
    if 0 <= i < s.len() && is_ident_byte(s[i], val) {
        ident_run_end(s, i + 1, val)
    } else {
        i
    }
}

/// Where a name that starts at `i` ends (see `parse_ident`).
pub open spec fn token_end(s: Seq<u8>, i: int) -> int {
    ident_run_end(s, i, false)
}

pub proof fn lemma_ident_run_end(s: Seq<u8>, i: int, val: bool)
    requires
        0 <= i <= s.len(),
    ensures
        i <= ident_run_end(s, i, val) <= s.len(),
        forall|k: int| i <= k < ident_run_end(s, i, val) ==> is_ident_byte(#[trigger] s[k], val),
        ident_run_end(s, i, val) < s.len() ==> !is_ident_byte(s[ident_run_end(s, i, val)], val),
    decreases s.len() - i,
{
    if i < s.len() && is_ident_byte(s[i], val) {
        lemma_ident_run_end(s, i + 1, val);
    }
}

fn ident_byte(c: u8, val: bool) -> (r: bool)
    ensures
        r == is_ident_byte(c, val),
{
    c == 0 || (33 <= c && c <= 126 && c != 37 && c != 40 && c != 41 && c != 60 && c != 62 && c
        != 91 && c != 93 && c != 123 && c != 125 && (if val {
        c != 61
    } else {
        c != 47
    }))
}

/// The identifier that starts at `pos`, before `end` (`None` when the run is empty), and the
/// position after it.
pub open spec fn spec_gen_ident(s: Seq<u8>, pos: int, end: int, val: bool) -> (
    Option<Seq<u8>>,
    int,
) {
    let e = ident_run_end(s.subrange(0, end), pos, val);
    if e > pos {
        (Some(s.subrange(pos, e)), e)
    } else {
        (None, pos)
    }
}

fn parse_gen_ident(s: &[u8], pos: usize, end: usize, val: bool) -> (r: (Option<Vec<u8>>, usize))
    requires
        pos <= end <= s@.len(),
    ensures
        (crate::dpxutil::opt_bytes(r.0), r.1 as int) == spec_gen_ident(
            s@,
            pos as int,
            end as int,
            val,
        ),
        r.1 == ident_run_end(s@.subrange(0, end as int), pos as int, val),
        pos <= r.1 <= end,
        forall|k: int| pos <= k < r.1 ==> is_ident_byte(#[trigger] s@[k], val),
        match r.0 {
            Some(v) => pos < r.1 && v@ == s@.subrange(pos as int, r.1 as int),
            None => r.1 == pos,
        },
{
    let ghost t = s@.subrange(0, end as int);
    proof {
        lemma_ident_run_end(t, pos as int, val);
    }
    let mut p = pos;
    while p < end && ident_byte(s[p], val)
        invariant
            pos <= p <= end <= s@.len(),
            t == s@.subrange(0, end as int),
            ident_run_end(t, pos as int, val) == ident_run_end(t, p as int, val),
        decreases end - p,
    {
        p = p + 1;
    }
    assert forall|k: int| pos <= k < p implies is_ident_byte(#[trigger] s@[k], val) by {
        assert(t[k] == s@[k]);
    }
    if p > pos {
        let mut v: Vec<u8> = Vec::new();
        let mut i = pos;
        while i < p
            invariant
                pos <= i <= p <= s@.len(),
                v@ == s@.subrange(pos as int, i as int),
            decreases p - i,
        {
            v.push(s[i]);
            i = i + 1;
            assert(v@ =~= s@.subrange(pos as int, i as int));
        }
        (Some(v), p)
    } else {
        (None, p)
    }
}

/// Reads a PDF name token (a run of the bytes of `is_ident_byte`) from `pos` up to `end`.
/// Returns it (`None` when the run is empty) and the position after it.
pub fn parse_ident(s: &[u8], pos: usize, end: usize) -> (r: (Option<Vec<u8>>, usize))
    requires
        pos <= end <= s@.len(),
    ensures
        r.1 == token_end(s@.subrange(0, end as int), pos as int),
        (crate::dpxutil::opt_bytes(r.0), r.1 as int) == spec_gen_ident(
            s@,
            pos as int,
            end as int,
            false,
        ),
        pos <= r.1 <= end,
        forall|k: int| pos <= k < r.1 ==> is_ident_byte(#[trigger] s@[k], false),
        match r.0 {
            Some(v) => pos < r.1 && v@ == s@.subrange(pos as int, r.1 as int),
            None => r.1 == pos,
        },
{
    parse_gen_ident(s, pos, end, false)
}

/// Reads a value token (as `parse_ident`, but `/` is taken and `=` is not) from `pos` up to
/// `end`.
pub fn parse_val_ident(s: &[u8], pos: usize, end: usize) -> (r: (Option<Vec<u8>>, usize))
    requires
        pos <= end <= s@.len(),
    ensures
        (crate::dpxutil::opt_bytes(r.0), r.1 as int) == spec_gen_ident(
            s@,
            pos as int,
            end as int,
            true,
        ),
        pos <= r.1 <= end,
        match r.0 {
            Some(v) => pos < r.1 && v@ == s@.subrange(pos as int, r.1 as int),
            None => r.1 == pos,
        },
{
    parse_gen_ident(s, pos, end, true)
}

} // verus!
