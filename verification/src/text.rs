use vstd::prelude::*;

verus! {

/// `s` begins with the bytes of `pre`.
pub open spec fn has_prefix(s: Seq<u8>, pre: Seq<u8>) -> bool {
    pre.len() <= s.len() && s.subrange(0, pre.len() as int) == pre
}

/// `s` ends with the bytes of `suf`.
pub open spec fn has_suffix(s: Seq<u8>, suf: Seq<u8>) -> bool {
    suf.len() <= s.len() && s.subrange(s.len() - suf.len(), s.len() as int) == suf
}

pub open spec fn is_ascii_digit(c: u8) -> bool {
    48 <= c <= 57
}

pub open spec fn is_ascii_upper(c: u8) -> bool {
    65 <= c <= 90
}

pub open spec fn is_ascii_lower(c: u8) -> bool {
    97 <= c <= 122
}

pub open spec fn is_ascii_alpha(c: u8) -> bool {
    is_ascii_upper(c) || is_ascii_lower(c)
}

/// A digit `0-9` or an upper-case hexadecimal letter `A-F`.
pub open spec fn is_upper_hex(c: u8) -> bool {
    is_ascii_digit(c) || (65 <= c <= 70)
}

/// Value of an upper-case hexadecimal digit.
pub open spec fn upper_hex_value(c: u8) -> int {
    if is_ascii_digit(c) {
        c - 48
    } else {
        c - 55
    }
}

/// The index of the first occurrence of `c` in `s`, if any.
pub open spec fn first_index_of(s: Seq<u8>, c: u8) -> Option<int>
    decreases s.len(),
{
    if s.len() == 0 {
        None
    } else if s[0] == c {
        Some(0)
    } else {
        match first_index_of(s.subrange(1, s.len() as int), c) {
            Some(i) => Some(i + 1),
            None => None,
        }
    }
}

pub proof fn lemma_first_index_of(s: Seq<u8>, c: u8)
    ensures
        match first_index_of(s, c) {
            Some(i) => 0 <= i < s.len() && s[i] == c && forall|j: int| 0 <= j < i ==> s[j] != c,
            None => forall|j: int| 0 <= j < s.len() ==> s[j] != c,
        },
    decreases s.len(),
{
    if s.len() > 0 && s[0] != c {
        lemma_first_index_of(s.subrange(1, s.len() as int), c);
        let t = s.subrange(1, s.len() as int);
        assert forall|j: int| 1 <= j < s.len() implies s[j] == t[j - 1] by {}
    }
}

/// The part of `s` before the first occurrence of `c` (all of `s` when there is none).
pub open spec fn before_first(s: Seq<u8>, c: u8) -> Seq<u8> {
    match first_index_of(s, c) {
        Some(i) => s.subrange(0, i),
        None => s,
    }
}

/// The bytes of `s` with `A-Z` turned into `a-z`.
pub open spec fn ascii_lowercase(s: Seq<u8>) -> Seq<u8> {
    s.map_values(|c: u8| if is_ascii_upper(c) { (c + 32) as u8 } else { c })
}

pub fn starts_with(s: &[u8], pre: &[u8]) -> (r: bool)
    ensures
        r == has_prefix(s@, pre@),
{
    if pre.len() > s.len() {
        return false;
    }
    let mut i: usize = 0;
    while i < pre.len()
        invariant
            pre.len() <= s.len(),
            i <= pre.len(),
            forall|j: int| 0 <= j < i ==> s@[j] == pre@[j],
        decreases pre.len() - i,
    {
        if s[i] != pre[i] {
            assert(s@.subrange(0, pre@.len() as int)[i as int] != pre@[i as int]);
            return false;
        }
        i = i + 1;
    }
    assert(s@.subrange(0, pre@.len() as int) =~= pre@);
    true
}

pub fn ends_with(s: &[u8], suf: &[u8]) -> (r: bool)
    ensures
        r == has_suffix(s@, suf@),
{
    if suf.len() > s.len() {
        return false;
    }
    let off = s.len() - suf.len();
    let mut i: usize = 0;
    while i < suf.len()
        invariant
            suf.len() <= s.len(),
            off == s.len() - suf.len(),
            i <= suf.len(),
            forall|j: int| 0 <= j < i ==> s@[off + j] == suf@[j],
        decreases suf.len() - i,
    {
        if s[off + i] != suf[i] {
            assert(s@.subrange(off as int, s.len() as int)[i as int] != suf@[i as int]);
            return false;
        }
        i = i + 1;
    }
    assert(s@.subrange(off as int, s@.len() as int) =~= suf@);
    true
}

pub fn bytes_eq(a: &[u8], b: &[u8]) -> (r: bool)
    ensures
        r == (a@ == b@),
{
    if a.len() != b.len() {
        return false;
    }
    let r = starts_with(a, b);
    proof {
        if r {
            assert(a@.subrange(0, b@.len() as int) =~= a@);
        } else {
            if a@ == b@ {
                assert(a@.subrange(0, b@.len() as int) =~= a@);
            }
        }
    }
    r
}

/// Position of the first `c` in `s`, if any.
pub fn find_byte(s: &[u8], c: u8) -> (r: Option<usize>)
    ensures
        match r {
            Some(i) => first_index_of(s@, c) == Some(i as int),
            None => first_index_of(s@, c) is None,
        },
{
    proof { lemma_first_index_of(s@, c); }
    let mut i: usize = 0;
    while i < s.len()
        invariant
            i <= s.len(),
            forall|j: int| 0 <= j < i ==> s@[j] != c,
            match first_index_of(s@, c) {
                Some(k) => 0 <= k < s@.len() && s@[k] == c && forall|j: int| 0 <= j < k ==> s@[j] != c,
                None => forall|j: int| 0 <= j < s@.len() ==> s@[j] != c,
            },
        decreases s.len() - i,
    {
        if s[i] == c {
            return Some(i);
        }
        i = i + 1;
    }
    None
}

pub fn slice_to_vec(s: &[u8]) -> (r: Vec<u8>)
    ensures
        r@ == s@,
{
    let mut v: Vec<u8> = Vec::new();
    let mut i: usize = 0;
    while i < s.len()
        invariant
            i <= s.len(),
            v@ == s@.subrange(0, i as int),
        decreases s.len() - i,
    {
        v.push(s[i]);
        i = i + 1;
        assert(v@ =~= s@.subrange(0, i as int));
    }
    assert(s@.subrange(0, s@.len() as int) =~= s@);
    v
}

pub fn to_ascii_lowercase(s: &[u8]) -> (r: Vec<u8>)
    ensures
        r@ == ascii_lowercase(s@),
{
    let mut v: Vec<u8> = Vec::new();
    let mut i: usize = 0;
    while i < s.len()
        invariant
            i <= s.len(),
            v@ == ascii_lowercase(s@.subrange(0, i as int)),
        decreases s.len() - i,
    {
        let c = s[i];
        let d = if 65 <= c && c <= 90 { c + 32 } else { c };
        v.push(d);
        i = i + 1;
        assert(v@ =~= ascii_lowercase(s@.subrange(0, i as int)));
    }
    assert(s@.subrange(0, s@.len() as int) =~= s@);
    v
}

} // verus!
