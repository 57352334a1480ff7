use vstd::prelude::*;

verus! {

/// A byte value lowered as C's `tolower` does in the "C" locale: `A` to `Z` become `a` to `z`,
/// anything else stays.
pub open spec fn c_tolower(c: int) -> int {
    if 65 <= c <= 90 {
        c + 32
    } else {
        c
    }
}

/// C's `tolower` in the "C" locale (see `c_tolower`).
pub fn tolower(c: i32) -> (r: i32)
    ensures
        r == c_tolower(c as int),
{
    if 65 <= c && c <= 90 {
        c + 32
    } else {
        c
    }
}

/// Where the last part of a path starts: just after its last `/` among the first `n` bytes,
/// or at 0.
pub open spec fn base_start(s: Seq<u8>, n: int) -> int
    decreases n,
{
    if n <= 0 {
        0
    } else if s[n - 1] == 47 {
        n
    } else {
        base_start(s, n - 1)
    }
}

proof fn lemma_base_start(s: Seq<u8>, n: int)
    requires
        0 <= n <= s.len(),
    ensures
        0 <= base_start(s, n) <= n,
        forall|k: int| base_start(s, n) <= k < n ==> s[k] != 47,
    decreases n,
{
    if n > 0 && s[n - 1] != 47 {
        lemma_base_start(s, n - 1);
    }
}

/// The last part of a path: what follows its last `/`.
pub fn xbasename(name: &[u8]) -> (r: &[u8])
    ensures
        r@ == name@.subrange(base_start(name@, name@.len() as int), name@.len() as int),
{
    let mut i: usize = name.len();
    proof {
        lemma_base_start(name@, name@.len() as int);
    }
    while i > 0 && name[i - 1] != 47
        invariant
            i <= name@.len(),
            base_start(name@, name@.len() as int) == base_start(name@, i as int),
        decreases i,
    {
        i = i - 1;
    }
    &name[i..name.len()]
}

/// The position of the last `.` among the first `n` bytes.
pub open spec fn last_dot(s: Seq<u8>, n: int) -> Option<int>
    decreases n,
{
    if n <= 0 {
        None
    } else if s[n - 1] == 46 {
        Some(n - 1)
    } else {
        last_dot(s, n - 1)
    }
}

proof fn lemma_last_dot(s: Seq<u8>, n: int)
    requires
        0 <= n <= s.len(),
    ensures
        last_dot(s, n) matches Some(d) ==> 0 <= d < n && s[d] == 46,
    decreases n,
{
    if n > 0 && s[n - 1] != 46 {
        lemma_last_dot(s, n - 1);
    }
}

/// The metrics file sought beside a Type 1 font: the last part of the font's path, with an
/// extension `.pf?` (in either case) turned into `.afm`; otherwise unchanged.
pub open spec fn afm_name_spec(path: Seq<u8>) -> Seq<u8> {
    let b = path.subrange(base_start(path, path.len() as int), path.len() as int);
    match last_dot(b, b.len() as int) {
        Some(d) => if b.len() - d == 4 && c_tolower(b[d + 1] as int) == 112 && c_tolower(b[d + 2] as int) == 102 {
            b.subrange(0, d) + seq![46u8, 97u8, 102u8, 109u8]
        } else {
            b
        },
        None => b,
    }
}

/// The name of the metrics file to attach to a Type 1 font (see `afm_name_spec`).
pub fn afm_name(path: &[u8]) -> (r: Vec<u8>)
    ensures
        r@ == afm_name_spec(path@),
{
    let b = xbasename(path);
    let mut i: usize = b.len();
    proof {
        lemma_last_dot(b@, b@.len() as int);
    }
    while i > 0 && b[i - 1] != 46
        invariant
            i <= b@.len(),
            last_dot(b@, b@.len() as int) == last_dot(b@, i as int),
        decreases i,
    {
        i = i - 1;
    }
    if i > 0 {
        let d = i - 1;
        assert(last_dot(b@, b@.len() as int) == Some(d as int));
        if b.len() - d == 4 && tolower(b[d + 1] as i32) == 112 && tolower(b[d + 2] as i32) == 102 {
            let mut out: Vec<u8> = Vec::new();
            let mut k: usize = 0;
            while k < d
                invariant
                    d < b@.len(),
                    k <= d,
                    out@ == b@.subrange(0, k as int),
                decreases d - k,
            {
                out.push(b[k]);
                k = k + 1;
                assert(out@ =~= b@.subrange(0, k as int));
            }
            out.push(46u8);
            out.push(97u8);
            out.push(102u8);
            out.push(109u8);
            assert(out@ =~= b@.subrange(0, d as int) + seq![46u8, 97u8, 102u8, 109u8]);
            return out;
        }
    }
    crate::text::slice_to_vec(b)
}

} // verus!
