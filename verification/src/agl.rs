use vstd::prelude::*;
use crate::text::{
    ascii_lowercase, before_first, bytes_eq, ends_with, find_byte, first_index_of, has_prefix,
    has_suffix, is_ascii_digit, is_ascii_upper, is_upper_hex, lemma_first_index_of, slice_to_vec,
    starts_with, to_ascii_lowercase, upper_hex_value,
};

verus! {

/// The accent and punctuation names that may follow a capital in a small-capital glyph name, in the order they are tried.
pub open spec fn modifier(i: int) -> Seq<u8> {
    if i == 0 {
        // acute
        seq![97u8, 99u8, 117u8, 116u8, 101u8]
    } else if i == 1 {
        // breve
        seq![98u8, 114u8, 101u8, 118u8, 101u8]
    } else if i == 2 {
        // caron
        seq![99u8, 97u8, 114u8, 111u8, 110u8]
    } else if i == 3 {
        // cedilla
        seq![99u8, 101u8, 100u8, 105u8, 108u8, 108u8, 97u8]
    } else if i == 4 {
        // circumflex
        seq![99u8, 105u8, 114u8, 99u8, 117u8, 109u8, 102u8, 108u8, 101u8, 120u8]
    } else if i == 5 {
        // dieresis
        seq![100u8, 105u8, 101u8, 114u8, 101u8, 115u8, 105u8, 115u8]
    } else if i == 6 {
        // dotaccent
        seq![100u8, 111u8, 116u8, 97u8, 99u8, 99u8, 101u8, 110u8, 116u8]
    } else if i == 7 {
        // grave
        seq![103u8, 114u8, 97u8, 118u8, 101u8]
    } else if i == 8 {
        // hungarumlaut
        seq![104u8, 117u8, 110u8, 103u8, 97u8, 114u8, 117u8, 109u8, 108u8, 97u8, 117u8, 116u8]
    } else if i == 9 {
        // macron
        seq![109u8, 97u8, 99u8, 114u8, 111u8, 110u8]
    } else if i == 10 {
        // ogonek
        seq![111u8, 103u8, 111u8, 110u8, 101u8, 107u8]
    } else if i == 11 {
        // ring
        seq![114u8, 105u8, 110u8, 103u8]
    } else if i == 12 {
        // tilde
        seq![116u8, 105u8, 108u8, 100u8, 101u8]
    } else if i == 13 {
        // commaaccent
        seq![99u8, 111u8, 109u8, 109u8, 97u8, 97u8, 99u8, 99u8, 101u8, 110u8, 116u8]
    } else if i == 14 {
        // slash
        seq![115u8, 108u8, 97u8, 115u8, 104u8]
    } else if i == 15 {
        // ampersand
        seq![97u8, 109u8, 112u8, 101u8, 114u8, 115u8, 97u8, 110u8, 100u8]
    } else if i == 16 {
        // exclam
        seq![101u8, 120u8, 99u8, 108u8, 97u8, 109u8]
    } else if i == 17 {
        // exclamdown
        seq![101u8, 120u8, 99u8, 108u8, 97u8, 109u8, 100u8, 111u8, 119u8, 110u8]
    } else if i == 18 {
        // question
        seq![113u8, 117u8, 101u8, 115u8, 116u8, 105u8, 111u8, 110u8]
    } else if i == 19 {
        // questiondown
        seq![113u8, 117u8, 101u8, 115u8, 116u8, 105u8, 111u8, 110u8, 100u8, 111u8, 119u8, 110u8]
    } else {
        Seq::<u8>::empty()
    }
}

fn modifier_bytes(i: usize) -> (r: Vec<u8>)
    requires
        i < 20,
    ensures
        r@ == modifier(i as int),
{
    match i {
        0 => vec![97u8, 99u8, 117u8, 116u8, 101u8], // acute
        1 => vec![98u8, 114u8, 101u8, 118u8, 101u8], // breve
        2 => vec![99u8, 97u8, 114u8, 111u8, 110u8], // caron
        3 => vec![99u8, 101u8, 100u8, 105u8, 108u8, 108u8, 97u8], // cedilla
        4 => vec![99u8, 105u8, 114u8, 99u8, 117u8, 109u8, 102u8, 108u8, 101u8, 120u8], // circumflex
        5 => vec![100u8, 105u8, 101u8, 114u8, 101u8, 115u8, 105u8, 115u8], // dieresis
        6 => vec![100u8, 111u8, 116u8, 97u8, 99u8, 99u8, 101u8, 110u8, 116u8], // dotaccent
        7 => vec![103u8, 114u8, 97u8, 118u8, 101u8], // grave
        8 => vec![104u8, 117u8, 110u8, 103u8, 97u8, 114u8, 117u8, 109u8, 108u8, 97u8, 117u8, 116u8], // hungarumlaut
        9 => vec![109u8, 97u8, 99u8, 114u8, 111u8, 110u8], // macron
        10 => vec![111u8, 103u8, 111u8, 110u8, 101u8, 107u8], // ogonek
        11 => vec![114u8, 105u8, 110u8, 103u8], // ring
        12 => vec![116u8, 105u8, 108u8, 100u8, 101u8], // tilde
        13 => vec![99u8, 111u8, 109u8, 109u8, 97u8, 97u8, 99u8, 99u8, 101u8, 110u8, 116u8], // commaaccent
        14 => vec![115u8, 108u8, 97u8, 115u8, 104u8], // slash
        15 => vec![97u8, 109u8, 112u8, 101u8, 114u8, 115u8, 97u8, 110u8, 100u8], // ampersand
        16 => vec![101u8, 120u8, 99u8, 108u8, 97u8, 109u8], // exclam
        17 => vec![101u8, 120u8, 99u8, 108u8, 97u8, 109u8, 100u8, 111u8, 119u8, 110u8], // exclamdown
        18 => vec![113u8, 117u8, 101u8, 115u8, 116u8, 105u8, 111u8, 110u8], // question
        _ => vec![113u8, 117u8, 101u8, 115u8, 116u8, 105u8, 111u8, 110u8, 100u8, 111u8, 119u8, 110u8], // questiondown
    }
}

/// The keys of the variant table, in the order they are tried.
pub open spec fn var_key(i: int) -> Seq<u8> {
    if i == 0 {
        // small
        seq![115u8, 109u8, 97u8, 108u8, 108u8]
    } else if i == 1 {
        // swash
        seq![115u8, 119u8, 97u8, 115u8, 104u8]
    } else if i == 2 {
        // superior
        seq![115u8, 117u8, 112u8, 101u8, 114u8, 105u8, 111u8, 114u8]
    } else if i == 3 {
        // inferior
        seq![105u8, 110u8, 102u8, 101u8, 114u8, 105u8, 111u8, 114u8]
    } else if i == 4 {
        // numerator
        seq![110u8, 117u8, 109u8, 101u8, 114u8, 97u8, 116u8, 111u8, 114u8]
    } else if i == 5 {
        // denominator
        seq![100u8, 101u8, 110u8, 111u8, 109u8, 105u8, 110u8, 97u8, 116u8, 111u8, 114u8]
    } else if i == 6 {
        // oldstyle
        seq![111u8, 108u8, 100u8, 115u8, 116u8, 121u8, 108u8, 101u8]
    } else if i == 7 {
        // display
        seq![100u8, 105u8, 115u8, 112u8, 108u8, 97u8, 121u8]
    } else if i == 8 {
        // text
        seq![116u8, 101u8, 120u8, 116u8]
    } else if i == 9 {
        // big
        seq![98u8, 105u8, 103u8]
    } else if i == 10 {
        // bigg
        seq![98u8, 105u8, 103u8, 103u8]
    } else if i == 11 {
        // Big
        seq![66u8, 105u8, 103u8]
    } else if i == 12 {
        // Bigg
        seq![66u8, 105u8, 103u8, 103u8]
    } else {
        Seq::<u8>::empty()
    }
}

fn var_key_bytes(i: usize) -> (r: Vec<u8>)
    requires
        i < 13,
    ensures
        r@ == var_key(i as int),
{
    match i {
        0 => vec![115u8, 109u8, 97u8, 108u8, 108u8], // small
        1 => vec![115u8, 119u8, 97u8, 115u8, 104u8], // swash
        2 => vec![115u8, 117u8, 112u8, 101u8, 114u8, 105u8, 111u8, 114u8], // superior
        3 => vec![105u8, 110u8, 102u8, 101u8, 114u8, 105u8, 111u8, 114u8], // inferior
        4 => vec![110u8, 117u8, 109u8, 101u8, 114u8, 97u8, 116u8, 111u8, 114u8], // numerator
        5 => vec![100u8, 101u8, 110u8, 111u8, 109u8, 105u8, 110u8, 97u8, 116u8, 111u8, 114u8], // denominator
        6 => vec![111u8, 108u8, 100u8, 115u8, 116u8, 121u8, 108u8, 101u8], // oldstyle
        7 => vec![100u8, 105u8, 115u8, 112u8, 108u8, 97u8, 121u8], // display
        8 => vec![116u8, 101u8, 120u8, 116u8], // text
        9 => vec![98u8, 105u8, 103u8], // big
        10 => vec![98u8, 105u8, 103u8, 103u8], // bigg
        11 => vec![66u8, 105u8, 103u8], // Big
        _ => vec![66u8, 105u8, 103u8, 103u8], // Bigg
    }
}

/// The OpenType feature tag of each variant key (empty where there is none).
pub open spec fn var_otl_tag(i: int) -> Seq<u8> {
    if i == 0 {
        // smcp
        seq![115u8, 109u8, 99u8, 112u8]
    } else if i == 1 {
        // swsh
        seq![115u8, 119u8, 115u8, 104u8]
    } else if i == 2 {
        // sups
        seq![115u8, 117u8, 112u8, 115u8]
    } else if i == 3 {
        // sinf
        seq![115u8, 105u8, 110u8, 102u8]
    } else if i == 4 {
        // numr
        seq![110u8, 117u8, 109u8, 114u8]
    } else if i == 5 {
        // dnom
        seq![100u8, 110u8, 111u8, 109u8]
    } else if i == 6 {
        // onum
        seq![111u8, 110u8, 117u8, 109u8]
    } else if i == 7 {
        // 
        Seq::<u8>::empty()
    } else if i == 8 {
        // 
        Seq::<u8>::empty()
    } else if i == 9 {
        // 
        Seq::<u8>::empty()
    } else if i == 10 {
        // 
        Seq::<u8>::empty()
    } else if i == 11 {
        // 
        Seq::<u8>::empty()
    } else if i == 12 {
        // 
        Seq::<u8>::empty()
    } else {
        Seq::<u8>::empty()
    }
}

fn var_otl_tag_bytes(i: usize) -> (r: Vec<u8>)
    requires
        i < 13,
    ensures
        r@ == var_otl_tag(i as int),
{
    match i {
        0 => vec![115u8, 109u8, 99u8, 112u8], // smcp
        1 => vec![115u8, 119u8, 115u8, 104u8], // swsh
        2 => vec![115u8, 117u8, 112u8, 115u8], // sups
        3 => vec![115u8, 105u8, 110u8, 102u8], // sinf
        4 => vec![110u8, 117u8, 109u8, 114u8], // numr
        5 => vec![100u8, 110u8, 111u8, 109u8], // dnom
        6 => vec![111u8, 110u8, 117u8, 109u8], // onum
        7 => Vec::new(), // 
        8 => Vec::new(), // 
        9 => Vec::new(), // 
        10 => Vec::new(), // 
        11 => Vec::new(), // 
        _ => Vec::new(), // 
    }
}

/// Length of the first modifier (from index `i` on) that `buf` begins with, or 0.
pub open spec fn modifier_len_from(buf: Seq<u8>, i: int) -> int
    decreases 20 - i,
{
    if i >= 20 || i < 0 {
        0
    } else if has_prefix(buf, modifier(i)) {
        modifier(i).len() as int
    } else {
        modifier_len_from(buf, i + 1)
    }
}

/// Length of the modifier that `skip_modifier` skips at the start of `buf` (0 if none).
pub open spec fn modifier_len(buf: Seq<u8>) -> int {
    modifier_len_from(buf, 0)
}

pub proof fn lemma_modifier_len_from_bounds(buf: Seq<u8>, i: int)
    ensures
        0 <= modifier_len_from(buf, i) <= buf.len(),
        modifier_len_from(buf, i) != 0 ==> has_prefix(buf, buf.subrange(0, modifier_len_from(buf, i))),
    decreases 20 - i,
{
    if 0 <= i < 20 && !has_prefix(buf, modifier(i)) {
        lemma_modifier_len_from_bounds(buf, i + 1);
    }
}

pub proof fn lemma_modifier_len_bounds(buf: Seq<u8>)
    ensures
        0 <= modifier_len(buf) <= buf.len(),
{
    lemma_modifier_len_from_bounds(buf, 0);
}

/// Length of the capital letter (or the ligature `AE`, `OE`, `Eth`, `Thorn`) at the start of `p`.
pub open spec fn capital_len(p: Seq<u8>) -> int {
    if has_prefix(p, seq![65u8, 69u8]) || has_prefix(p, seq![79u8, 69u8]) {
        2
    } else if has_prefix(p, seq![69u8, 116u8, 104u8]) {
        3
    } else if has_prefix(p, seq![84u8, 104u8, 111u8, 114u8, 110u8]) {
        5
    } else if p.len() >= 1 && is_ascii_upper(p[0]) {
        1
    } else {
        0
    }
}

/// `rest` is a (possibly empty) run of modifiers, each taken as `skip_modifier` takes it.
pub open spec fn all_modifiers(rest: Seq<u8>) -> bool
    decreases rest.len(),
{
    if rest.len() == 0 {
        true
    } else {
        let m = modifier_len(rest);
        if m == 0 {
            false
        } else {
            proof {
                lemma_modifier_len_bounds(rest);
            }
            all_modifiers(rest.subrange(m, rest.len() as int))
        }
    }
}

/// The suffix "small".
pub open spec fn small_bytes() -> Seq<u8> {
    seq![115u8, 109u8, 97u8, 108u8, 108u8]
}

/// Whether a glyph name names a small capital: it ends with `small` after at least one byte,
/// and what comes before is a modifier name, or a capital (`A`..`Z`, `AE`, `OE`, `Eth`,
/// `Thorn`) followed by modifier names (`Asmall`, `AEsmall`, `Aacutesmall`, `acutesmall`).
pub open spec fn spec_is_smallcap(g: Seq<u8>) -> bool {
    if g.len() == 0 {
        false
    } else if g.len() < 6 || !has_suffix(g, small_bytes()) {
        false
    } else {
        let len = g.len() - 5;
        let p = g.subrange(0, len);
        let slen = modifier_len(p);
        if slen == len {
            true
        } else if slen > 0 {
            false
        } else {
            let c = capital_len(p);
            all_modifiers(p.subrange(c, len))
        }
    }
}

/// Skips a capital letter (or `AE`, `OE`, `Eth`, `Thorn`) at the start of `p`; returns the rest and
/// the number of bytes skipped.
pub fn skip_capital<'a>(p: &'a [u8]) -> (r: (&'a [u8], usize))
    ensures
        r.1 == capital_len(p@),
        r.0@ == p@.subrange(r.1 as int, p@.len() as int),
{
    let ae: [u8; 2] = [65u8, 69u8];
    let oe: [u8; 2] = [79u8, 69u8];
    let eth: [u8; 3] = [69u8, 116u8, 104u8];
    let thorn: [u8; 5] = [84u8, 104u8, 111u8, 114u8, 110u8];
    assert(ae@ == seq![65u8, 69u8]);
    assert(oe@ == seq![79u8, 69u8]);
    assert(eth@ == seq![69u8, 116u8, 104u8]);
    assert(thorn@ == seq![84u8, 104u8, 111u8, 114u8, 110u8]);
    if starts_with(p, ae.as_slice()) || starts_with(p, oe.as_slice()) {
        (&p[2..p.len()], 2)
    } else if starts_with(p, eth.as_slice()) {
        (&p[3..p.len()], 3)
    } else if starts_with(p, thorn.as_slice()) {
        (&p[5..p.len()], 5)
    } else if p.len() >= 1 {
        if 65 <= p[0] && p[0] <= 90 {
            (&p[1..p.len()], 1)
        } else {
            (&p[0..p.len()], 0)
        }
    } else {
        (&p[0..p.len()], 0)
    }
}

/// Skips the first modifier name (see `modifier`) that `buf` begins with; returns the rest and
/// the number of bytes skipped (0 when `buf` begins with none).
pub fn skip_modifier<'a>(buf: &'a [u8]) -> (r: (&'a [u8], usize))
    ensures
        r.1 == modifier_len(buf@),
        r.0@ == buf@.subrange(r.1 as int, buf@.len() as int),
{
    let mut i: usize = 0;
    proof {
        lemma_modifier_len_bounds(buf@);
    }
    while i < 20
        invariant
            i <= 20,
            0 <= modifier_len(buf@) <= buf@.len(),
            modifier_len(buf@) == modifier_len_from(buf@, i as int),
        decreases 20 - i,
    {
        let m = modifier_bytes(i);
        if starts_with(buf, m.as_slice()) {
            let slen = m.len();
            return (&buf[slen..buf.len()], slen);
        }
        i = i + 1;
    }
    (&buf[0..buf.len()], 0)
}

/// Decides whether a glyph name is taken for a small capital (see `spec_is_smallcap`).
pub fn is_smallcap(glyphname: &[u8]) -> (r: bool)
    ensures
        r == spec_is_smallcap(glyphname@),
{
    if glyphname.len() == 0 {
        return false;
    }
    let len = glyphname.len();
    let small: [u8; 5] = [115u8, 109u8, 97u8, 108u8, 108u8];
    assert(small@ == small_bytes());
    if len < 6 || !ends_with(glyphname, small.as_slice()) {
        return false;
    }
    let len = len - 5;
    let p = &glyphname[0..len];
    let (p, slen) = skip_modifier(p);
    if slen == len {
        return true;
    } else {
        if slen > 0 {
            return false;
        }
    }
    let ghost p0 = glyphname@.subrange(0, len as int);
    assert(p@ =~= p0);
    let (p, slen) = skip_capital(p);
    let mut len = len - slen;
    let mut p = p;
    assert(p@ == p0.subrange(capital_len(p0), p0.len() as int));
    while len > 0
        invariant
            len == p@.len(),
            spec_is_smallcap(glyphname@) == all_modifiers(p0.subrange(capital_len(p0), p0.len() as int)),
            all_modifiers(p0.subrange(capital_len(p0), p0.len() as int)) == all_modifiers(p@),
        decreases len,
    {
        let (pnew, slen) = skip_modifier(p);
        if slen == 0 {
            assert(modifier_len(p@) == 0);
            assert(!all_modifiers(p@));
            return false;
        }
        proof {
            lemma_modifier_len_bounds(p@);
        }
        p = pnew;
        len = len - slen;
    }
    true
}

/// The extra suffixes of each variant key (only "small" has one, "sc").
pub open spec fn var_suffixes(i: int) -> Seq<Seq<u8>> {
    if i == 0 {
        seq![seq![115u8, 99u8]]
    } else {
        Seq::empty()
    }
}

/// One entry of the variant table: a glyph-name key such as "small", its OpenType feature tag
/// and the short suffixes that stand for it.
#[allow(non_camel_case_types)]
pub struct C2RustUnnamed_0 {
    pub key: Vec<u8>,
    pub otl_tag: Vec<u8>,
    pub suffixes: Vec<Vec<u8>>,
}

/// Entry `i` of the variant table (13 entries).
pub fn var_list_entry(i: usize) -> (e: C2RustUnnamed_0)
    requires
        i < 13,
    ensures
        e.key@ == var_key(i as int),
        e.otl_tag@ == var_otl_tag(i as int),
        e.suffixes@.len() == var_suffixes(i as int).len(),
        forall|j: int| 0 <= j < e.suffixes@.len() ==> e.suffixes@[j]@ == var_suffixes(i as int)[j],
{
    let mut suffixes: Vec<Vec<u8>> = Vec::new();
    if i == 0 {
        suffixes.push(vec![115u8, 99u8]);
    }
    C2RustUnnamed_0 { key: var_key_bytes(i), otl_tag: var_otl_tag_bytes(i), suffixes }
}

/// The feature tag that `suffix` names, looking from table entry `i` on.
pub open spec fn otltag_from(suffix: Seq<u8>, i: int) -> Option<Seq<u8>>
    decreases 13 - i,
{
    if i >= 13 || i < 0 {
        None
    } else if var_suffixes(i).contains(suffix) || suffix == var_key(i) || (var_otl_tag(i).len() > 0
        && suffix == var_otl_tag(i)) {
        Some(var_otl_tag(i))
    } else {
        otltag_from(suffix, i + 1)
    }
}

proof fn lemma_otltag_from_is_tag(suffix: Seq<u8>, i: int)
    requires
        0 <= i,
    ensures
        otltag_from(suffix, i) matches Some(t) ==> exists|k: int| i <= k < 13 && t == #[trigger] var_otl_tag(k),
    decreases 13 - i,
{
    if i < 13 {
        if !(var_suffixes(i).contains(suffix) || suffix == var_key(i) || (var_otl_tag(i).len() > 0
            && suffix == var_otl_tag(i))) {
            lemma_otltag_from_is_tag(suffix, i + 1);
        }
    }
}

/// A feature tag that a suffix maps to is itself a suffix that maps to that tag (`smcp`,
/// `swsh`, `sups`, `sinf`, `numr`, `dnom`, `onum` each name their own feature).
pub proof fn law_otl_tag_maps_to_itself(suffix: Seq<u8>)
    ensures
        otltag_from(suffix, 0) matches Some(t) ==> (t.len() > 0 ==> otltag_from(t, 0) == Some(t)),
{
    lemma_otltag_from_is_tag(suffix, 0);
    if otltag_from(suffix, 0) is Some && otltag_from(suffix, 0).unwrap().len() > 0 {
        let t = otltag_from(suffix, 0).unwrap();
        let k = choose|k: int| 0 <= k < 13 && t == #[trigger] var_otl_tag(k);
        reveal_with_fuel(otltag_from, 8);
        assert(var_suffixes(0).contains(t) ==> t == seq![115u8, 99u8]) by {
            if var_suffixes(0).contains(t) {
                let j = choose|j: int| 0 <= j < var_suffixes(0).len() && var_suffixes(0)[j] == t;
            }
        }
        if k == 0 {
            assert(t[2] != seq![115u8, 109u8, 97u8, 108u8, 108u8][2]);
            assert(t != seq![115u8, 99u8]);
        } else if k == 1 {
            assert(t[2] != var_otl_tag(0)[2]);
            assert(t[1] != var_key(0)[1]);
            assert(t != seq![115u8, 99u8]);
            assert(t[2] != var_key(1)[2]);
        } else if k == 2 {
            assert(t[1] != var_otl_tag(0)[1]);
            assert(t[1] != var_otl_tag(1)[1]);
            assert(t[1] != var_key(0)[1]);
            assert(t[1] != var_key(1)[1]);
            assert(t != seq![115u8, 99u8]);
            assert(t.len() != var_key(2).len());
        } else if k == 3 {
            assert(t[1] != var_otl_tag(0)[1]);
            assert(t[1] != var_otl_tag(1)[1]);
            assert(t[1] != var_otl_tag(2)[1]);
            assert(t[1] != var_key(0)[1]);
            assert(t[1] != var_key(1)[1]);
            assert(t != seq![115u8, 99u8]);
            assert(t.len() != var_key(2).len());
            assert(t.len() != var_key(3).len());
        } else if k == 4 {
            assert(t[0] != var_otl_tag(0)[0]);
            assert(t[0] != var_otl_tag(1)[0]);
            assert(t[0] != var_otl_tag(2)[0]);
            assert(t[0] != var_otl_tag(3)[0]);
            assert(t[0] != var_key(0)[0]);
            assert(t[0] != var_key(1)[0]);
            assert(t[0] != var_key(2)[0]);
            assert(t[0] != var_key(3)[0]);
            assert(t != seq![115u8, 99u8]);
            assert(t.len() != var_key(4).len());
        } else if k == 5 {
            assert(t[0] != var_otl_tag(0)[0]);
            assert(t[0] != var_otl_tag(1)[0]);
            assert(t[0] != var_otl_tag(2)[0]);
            assert(t[0] != var_otl_tag(3)[0]);
            assert(t[0] != var_otl_tag(4)[0]);
            assert(t[0] != var_key(0)[0]);
            assert(t[0] != var_key(1)[0]);
            assert(t[0] != var_key(2)[0]);
            assert(t[0] != var_key(3)[0]);
            assert(t[0] != var_key(4)[0]);
            assert(t != seq![115u8, 99u8]);
            assert(t.len() != var_key(5).len());
        } else if k == 6 {
            assert(t[0] != var_otl_tag(0)[0]);
            assert(t[0] != var_otl_tag(1)[0]);
            assert(t[0] != var_otl_tag(2)[0]);
            assert(t[0] != var_otl_tag(3)[0]);
            assert(t[0] != var_otl_tag(4)[0]);
            assert(t[0] != var_otl_tag(5)[0]);
            assert(t[0] != var_key(0)[0]);
            assert(t[0] != var_key(1)[0]);
            assert(t[0] != var_key(2)[0]);
            assert(t[0] != var_key(3)[0]);
            assert(t[0] != var_key(4)[0]);
            assert(t[0] != var_key(5)[0]);
            assert(t != seq![115u8, 99u8]);
            assert(t.len() != var_key(6).len());
        }
    }
}

fn vec_bytes_eq(a: &[u8], b: &Vec<u8>) -> (r: bool)
    ensures
        r == (a@ == b@),
{
    bytes_eq(a, b.as_slice())
}

/// Maps a glyph-name suffix ("sc", "small", "smcp", "swash", ...) to its OpenType feature tag.
/// A key without a tag ("display", "big", ...) gives `Some` of an empty tag.
pub fn agl_suffix_to_otltag(suffix: &[u8]) -> (r: Option<Vec<u8>>)
    ensures
        match r {
            Some(t) => otltag_from(suffix@, 0) == Some(t@),
            None => otltag_from(suffix@, 0) is None,
        },
{
    let mut i: usize = 0;
    while i < 13
        invariant
            i <= 13,
            otltag_from(suffix@, 0) == otltag_from(suffix@, i as int),
        decreases 13 - i,
    {
        let e = var_list_entry(i);
        let mut j: usize = 0;
        while j < e.suffixes.len()
            invariant
                i < 13,
                otltag_from(suffix@, 0) == otltag_from(suffix@, i as int),
                e.otl_tag@ == var_otl_tag(i as int),
                j <= e.suffixes@.len(),
                e.suffixes@.len() == var_suffixes(i as int).len(),
                forall|k: int| 0 <= k < e.suffixes@.len() ==> e.suffixes@[k]@ == var_suffixes(i as int)[k],
                forall|k: int| 0 <= k < j ==> var_suffixes(i as int)[k] != suffix@,
            decreases e.suffixes@.len() - j,
        {
            if vec_bytes_eq(suffix, &e.suffixes[j]) {
                assert(var_suffixes(i as int)[j as int] == suffix@);
                assert(var_suffixes(i as int).contains(suffix@));
                return Some(e.otl_tag);
            }
            j = j + 1;
        }
        assert(!var_suffixes(i as int).contains(suffix@));
        if vec_bytes_eq(suffix, &e.key) {
            return Some(e.otl_tag);
        }
        if e.otl_tag.len() > 0 && vec_bytes_eq(suffix, &e.otl_tag) {
            return Some(e.otl_tag);
        }
        i = i + 1;
    }
    None
}

/// The variant key (from entry `i` on) that a glyph name ends with, beyond its first byte.
pub open spec fn guess_from(g: Seq<u8>, i: int) -> Option<int>
    decreases 13 - i,
{
    if i >= 13 || i < 1 {
        None
    } else if g.len() > var_key(i).len() && has_suffix(g, var_key(i)) {
        Some(i)
    } else {
        guess_from(g, i + 1)
    }
}

/// The variant-table entry that a glyph name appears to use.
pub open spec fn spec_agl_guess_name(g: Seq<u8>) -> Option<int> {
    if spec_is_smallcap(g) {
        Some(0)
    } else {
        guess_from(g, 1)
    }
}

pub proof fn lemma_guess_from_range(g: Seq<u8>, i: int)
    ensures
        guess_from(g, i) matches Some(k) ==> 1 <= k < 13 && g.len() > var_key(k).len()
            && has_suffix(g, var_key(k)),
    decreases 13 - i,
{
    if 1 <= i < 13 && !(g.len() > var_key(i).len() && has_suffix(g, var_key(i))) {
        lemma_guess_from_range(g, i + 1);
    }
}

/// Guesses which variant-table entry a glyph name uses (0 for a small capital).
pub fn agl_guess_name(glyphname: &[u8]) -> (r: Option<usize>)
    ensures
        match r {
            Some(k) => spec_agl_guess_name(glyphname@) == Some(k as int),
            None => spec_agl_guess_name(glyphname@) is None,
        },
{
    if is_smallcap(glyphname) {
        return Some(0);
    }
    let len = glyphname.len();
    let mut i: usize = 1;
    while i < 13
        invariant
            1 <= i <= 13,
            len == glyphname@.len(),
            !spec_is_smallcap(glyphname@),
            guess_from(glyphname@, 1) == guess_from(glyphname@, i as int),
        decreases 13 - i,
    {
        let key = var_key_bytes(i);
        if len > key.len() && ends_with(glyphname, key.as_slice()) {
            return Some(i);
        }
        i = i + 1;
    }
    None
}

/// `s` holds no NUL byte.
pub open spec fn no_nul(s: Seq<u8>) -> bool {
    forall|i: int| 0 <= i < s.len() ==> s[i] != 0
}

pub open spec fn opt_view(o: Option<Vec<u8>>) -> Option<Seq<u8>> {
    match o {
        Some(v) => Some(v@),
        None => None,
    }
}

/// What `agl_chop_suffix` returns: the name before the first '.', and the suffix after it.
pub open spec fn spec_chop_suffix(g: Seq<u8>) -> (Option<Seq<u8>>, Option<Seq<u8>>) {
    match first_index_of(g, 46u8) {
        Some(len) => if len < 1 {
            (None, Some(g.subrange(1, g.len() as int)))
        } else if len + 1 == g.len() {
            (Some(g.subrange(0, len)), None)
        } else {
            (Some(g.subrange(0, len)), Some(g.subrange(len + 1, g.len() as int)))
        },
        None => (Some(g), None),
    }
}

/// Splits a glyph name at its first '.' into name and suffix. The parts are C strings, which
/// cannot hold a NUL byte, so the name holds none.
pub fn agl_chop_suffix(glyphname: &[u8]) -> (r: (Option<Vec<u8>>, Option<Vec<u8>>))
    requires
        no_nul(glyphname@),
    ensures
        (opt_view(r.0), opt_view(r.1)) == spec_chop_suffix(glyphname@),
{
    proof { lemma_first_index_of(glyphname@, 46u8); }
    if let Some(len) = find_byte(glyphname, 46u8) {
        assert(len < glyphname@.len());
        if len < 1 {
            (None, Some(slice_to_vec(&glyphname[1..glyphname.len()])))
        } else {
            let name = Some(slice_to_vec(&glyphname[0..len]));
            if len == glyphname.len() - 1 {
                (name, None)
            } else {
                (name, Some(slice_to_vec(&glyphname[len + 1..glyphname.len()])))
            }
        }
    } else {
        (Some(slice_to_vec(glyphname)), None)
    }
}

/// A glyph name as the glyph list knows it: the base name, the variant suffix, the Unicode
/// values it stands for (at most 16) and whether it came from a predefined list.
#[allow(non_camel_case_types)]
pub struct agl_name {
    pub name: Vec<u8>,
    pub suffix: Option<Vec<u8>>,
    pub unicodes: Vec<i32>,
    pub is_predef: i32,
}

pub struct AglNameView {
    pub name: Seq<u8>,
    pub suffix: Option<Seq<u8>>,
    pub unicodes: Seq<i32>,
    pub is_predef: i32,
}

impl View for agl_name {
    type V = AglNameView;

    open spec fn view(&self) -> AglNameView {
        AglNameView {
            name: self.name@,
            suffix: opt_view(self.suffix),
            unicodes: self.unicodes@,
            is_predef: self.is_predef,
        }
    }
}

/// What `agl_normalized_name` makes of a glyph name: the base name and the variant suffix.
pub open spec fn spec_normalized_name(g: Seq<u8>) -> Option<(Seq<u8>, Option<Seq<u8>>)> {
    if g.len() == 0 {
        None
    } else {
        match first_index_of(g, 46u8) {
            Some(n) => Some(
                (
                    g.subrange(0, n),
                    if n + 1 < g.len() {
                        Some(g.subrange(n + 1, g.len() as int))
                    } else {
                        None
                    },
                ),
            ),
            None => if spec_is_smallcap(g) {
                Some((ascii_lowercase(g.subrange(0, g.len() - 5)), Some(seq![115u8, 99u8])))
            } else {
                match spec_agl_guess_name(g) {
                    Some(idx) => if var_key(idx).len() == 0 {
                        Some((g, None))
                    } else {
                        Some(
                            (
                                g.subrange(0, g.len() - var_key(idx).len()),
                                Some(
                                    if var_suffixes(idx).len() > 0 {
                                        var_suffixes(idx)[0]
                                    } else {
                                        var_key(idx)
                                    },
                                ),
                            ),
                        )
                    },
                    None => Some((g, None)),
                }
            },
        }
    }
}

/// Splits a glyph name into base name and variant suffix: at a '.', by the small-capital
/// pattern ("sc"), or by a variant key at its end ("onesuperior" gives "one" and "superior").
/// The result has no Unicode values yet.
pub fn agl_normalized_name(glyphname: &[u8]) -> (r: Option<agl_name>)
    requires
        no_nul(glyphname@),
    ensures
        match r {
            Some(a) => spec_normalized_name(glyphname@) == Some((a@.name, a@.suffix))
                && a@.unicodes.len() == 0 && a.is_predef == 0,
            None => spec_normalized_name(glyphname@) is None,
        },
{
    if glyphname.len() == 0 {
        return None;
    }
    proof { lemma_first_index_of(glyphname@, 46u8); }
    let mut suffix: Option<Vec<u8>> = None;
    let name: Vec<u8>;
    if let Some(n) = find_byte(glyphname, 46u8) {
        if n + 1 < glyphname.len() {
            suffix = Some(slice_to_vec(&glyphname[n + 1..glyphname.len()]));
        }
        name = slice_to_vec(&glyphname[0..n]);
    } else if is_smallcap(glyphname) {
        let n = glyphname.len() - 5;
        suffix = Some(vec![115u8, 99u8]);
        name = to_ascii_lowercase(&glyphname[0..n]);
    } else {
        let n: usize;
        if let Some(var_idx) = agl_guess_name(glyphname) {
            proof { lemma_guess_from_range(glyphname@, 1); }
            let e = var_list_entry(var_idx);
            if e.key.len() == 0 {
                n = glyphname.len();
            } else {
                n = glyphname.len() - e.key.len();
                if e.suffixes.len() > 0 {
                    suffix = Some(slice_to_vec(e.suffixes[0].as_slice()));
                } else {
                    suffix = Some(e.key);
                }
            }
        } else {
            n = glyphname.len();
        }
        name = slice_to_vec(&glyphname[0..n]);
        assert(glyphname@.subrange(0, glyphname@.len() as int) =~= glyphname@);
    }
    Some(agl_name { name, suffix, unicodes: Vec::new(), is_predef: 0 })
}

/// "uni".
pub open spec fn uni_bytes() -> Seq<u8> {
    seq![117u8, 110u8, 105u8]
}

/// Whether `agl_name_is_unicode` takes a glyph name for a Unicode name ("uniXXXX", "uXXXX").
pub open spec fn spec_name_is_unicode(g: Seq<u8>) -> bool {
    if g.len() == 0 {
        false
    } else {
        let len = before_first(g, 46u8).len();
        if len >= 7 && (len - 3) % 4 == 0 && has_prefix(g, uni_bytes()) {
            is_upper_hex(g[3])
        } else if len <= 7 && len >= 5 && g[0] == 117u8 {
            forall|i: int| 1 <= i < len - 1 ==> is_upper_hex(#[trigger] g[i])
        } else {
            false
        }
    }
}

/// Decides whether a glyph name has the form of a Unicode glyph name, "uni" followed by groups
/// of four upper-case hex digits, or "u" followed by four to six of them. Only the fourth byte
/// of the first form is looked at, and the last digit of the second form is not.
pub fn agl_name_is_unicode(glyphname: &[u8]) -> (r: bool)
    ensures
        r == spec_name_is_unicode(glyphname@),
{
    if glyphname.len() == 0 {
        return false;
    }
    proof { lemma_first_index_of(glyphname@, 46u8); }
    let len = match find_byte(glyphname, 46u8) {
        Some(n) => n,
        None => glyphname.len(),
    };
    assert(len == before_first(glyphname@, 46u8).len());
    let uni: [u8; 3] = [117u8, 110u8, 105u8];
    assert(uni@ == uni_bytes());
    if len >= 7 && (len - 3) % 4 == 0 && starts_with(glyphname, uni.as_slice()) {
        let c = glyphname[3];
        if (48 <= c && c <= 57) || (c >= 65 && c <= 70) {
            return true;
        } else {
            return false;
        }
    } else {
        if len <= 7 && len >= 5 && glyphname[0] == 117u8 {
            let mut i: usize = 1;
            while i < len - 1
                invariant
                    5 <= len <= 7,
                    glyphname@.len() > 0,
                    len == before_first(glyphname@, 46u8).len(),
                    !(len >= 7 && (len - 3) % 4 == 0 && has_prefix(glyphname@, uni_bytes())),
                    glyphname@[0] == 117u8,
                    len <= glyphname@.len(),
                    1 <= i <= len - 1,
                    forall|k: int| 1 <= k < i ==> is_upper_hex(#[trigger] glyphname@[k]),
                decreases len - i,
            {
                let c = glyphname[i];
                if !(48 <= c && c <= 57) && (c < 65 || c > 70) {
                    return false;
                }
                i = i + 1;
            }
            return true;
        }
    }
    false
}

/// The value of a run of upper-case hex digits, read as `xtol` reads it: 32-bit wrapping.
pub open spec fn xtol_acc(b: Seq<u8>) -> u32
    decreases b.len(),
{
    if b.len() == 0 {
        0
    } else {
        ((xtol_acc(b.drop_last()) as int * 16 + upper_hex_value(b.last())) % 0x1_0000_0000) as u32
    }
}

/// Every byte of `b` is an upper-case hex digit.
pub open spec fn all_upper_hex(b: Seq<u8>) -> bool {
    forall|i: int| 0 <= i < b.len() ==> is_upper_hex(#[trigger] b[i])
}

/// What `xtol` returns: the hex value (as a 32-bit two's-complement number), or -1 when a byte
/// is not an upper-case hex digit.
pub open spec fn spec_xtol(b: Seq<u8>) -> i32 {
    if all_upper_hex(b) {
        xtol_acc(b) as i32
    } else {
        -1i32
    }
}

/// The value of a run of hex digits as an unbounded number.
pub open spec fn hex_value(b: Seq<u8>) -> int
    decreases b.len(),
{
    if b.len() == 0 {
        0
    } else {
        hex_value(b.drop_last()) * 16 + upper_hex_value(b.last())
    }
}

pub open spec fn pow16(n: nat) -> int
    decreases n,
{
    if n == 0 {
        1
    } else {
        16 * pow16((n - 1) as nat)
    }
}

pub proof fn lemma_hex_value_bound(b: Seq<u8>)
    requires
        all_upper_hex(b),
    ensures
        0 <= hex_value(b) < pow16(b.len()),
        pow16(b.len()) > 0,
        b.len() <= 7 ==> xtol_acc(b) == hex_value(b),
    decreases b.len(),
{
    if b.len() > 0 {
        lemma_hex_value_bound(b.drop_last());
        assert(pow16(b.len()) == 16 * pow16(b.drop_last().len()));
        if b.len() <= 7 {
            assert(pow16(6) == 16777216) by {
                reveal_with_fuel(pow16, 7);
            }
            assert(pow16((b.len() - 1) as nat) <= pow16(6)) by {
                lemma_pow16_mono((b.len() - 1) as nat, 6);
            }
        }
    }
}

pub proof fn lemma_pow16_mono(a: nat, b: nat)
    requires
        a <= b,
    ensures
        0 < pow16(a) <= pow16(b),
    decreases b,
{
    if a < b {
        lemma_pow16_mono(a, (b - 1) as nat);
    } else if a > 0 {
        lemma_pow16_mono((a - 1) as nat, (a - 1) as nat);
    }
}

/// Reads upper-case hex digits into a 32-bit value; -1 if any byte is not one.
pub fn xtol(buf: &[u8]) -> (r: i32)
    ensures
        r == spec_xtol(buf@),
{
    let mut v: u32 = 0;
    let mut i: usize = 0;
    while i < buf.len()
        invariant
            i <= buf.len(),
            all_upper_hex(buf@.subrange(0, i as int)),
            v == xtol_acc(buf@.subrange(0, i as int)),
        decreases buf.len() - i,
    {
        let b = buf[i];
        let d: u32;
        if 48 <= b && b <= 57 {
            d = (b - 48) as u32;
        } else if b >= 65 && b <= 70 {
            d = (b - 55) as u32;
        } else {
            assert(!all_upper_hex(buf@)) by {
                assert(!is_upper_hex(buf@[i as int]));
            }
            return -1;
        }
        let ghost pre = buf@.subrange(0, i as int);
        v = ((v as u64 * 16 + d as u64) % 0x1_0000_0000u64) as u32;
        i = i + 1;
        assert(buf@.subrange(0, i as int).drop_last() =~= pre);
        assert(all_upper_hex(buf@.subrange(0, i as int)));
    }
    assert(buf@.subrange(0, buf@.len() as int) =~= buf@);
    v as i32
}

/// Whether a number is a Unicode scalar value (0..0x10FFFF, not a surrogate).
pub open spec fn uc_is_valid(ucv: int) -> bool {
    !(ucv < 0 || ucv > 0x10FFFF || (0xD800 <= ucv <= 0xDFFF))
}

/// What `agl_name_convert_unicode` returns for a glyph name.
pub open spec fn spec_convert_unicode(g: Seq<u8>) -> i32 {
    if !spec_name_is_unicode(g) {
        -1i32
    } else if g.len() > 7 && g[7] != 46u8 {
        -1i32
    } else {
        let base = before_first(g, 46u8);
        let off: int = if g[1] == 110u8 { 3 } else { 1 };
        let digits = base.subrange(off, base.len() as int);
        if !all_upper_hex(digits) {
            -1i32
        } else if uc_is_valid(hex_value(digits)) {
            hex_value(digits) as i32
        } else {
            -1i32
        }
    }
}

/// The Unicode value of a single-character Unicode glyph name ("uni0041", "u1F600.alt"),
/// or -1 when it is none, maps to several characters, or is not a Unicode scalar value.
pub fn agl_name_convert_unicode(glyphname: &[u8]) -> (r: i32)
    requires
        no_nul(glyphname@),
    ensures
        r == spec_convert_unicode(glyphname@),
{
    if !agl_name_is_unicode(glyphname) {
        return -1;
    }
    if glyphname.len() > 7 && glyphname[7] != 46u8 {
        return -1;
    }
    proof { lemma_first_index_of(glyphname@, 46u8); }
    let base_len = match find_byte(glyphname, 46u8) {
        Some(n) => n,
        None => glyphname.len(),
    };
    let ghost base = before_first(glyphname@, 46u8);
    assert(base.len() == base_len);
    assert(5 <= base_len <= 7);
    let off: usize = if glyphname[1] == 110u8 { 3 } else { 1 };
    assert(off <= base_len);
    let ghost digits = base.subrange(off as int, base_len as int);
    let mut ucv: i32 = 0;
    let mut p: usize = off;
    proof {
        lemma_pow16_mono(0, 6);
    }
    while p < base_len
        invariant
            1 <= off <= p <= base_len <= 7,
            spec_name_is_unicode(glyphname@),
            !(glyphname@.len() > 7 && glyphname@[7] != 46u8),
            off == (if glyphname@[1] == 110u8 { 3usize } else { 1usize }),
            base == before_first(glyphname@, 46u8),
            base_len <= glyphname@.len(),
            base == glyphname@.subrange(0, base_len as int),
            digits == base.subrange(off as int, base_len as int),
            all_upper_hex(digits.subrange(0, p - off)),
            ucv == hex_value(digits.subrange(0, p - off)),
            0 <= hex_value(digits.subrange(0, p - off)) < pow16((p - off) as nat),
            pow16((p - off) as nat) <= pow16(6),
        decreases base_len - p,
    {
        let c = glyphname[p];
        let ghost pre = digits.subrange(0, p - off);
        assert(c == digits[p - off]);
        if !(48 <= c && c <= 57) && (c < 65 || c > 70) {
            assert(!all_upper_hex(digits) ) by {
                assert(!is_upper_hex(digits[p - off]));
            }
            return -1;
        }
        proof {
            assert(pow16(6) == 16777216) by {
                reveal_with_fuel(pow16, 7);
            }
            lemma_pow16_mono(((p - off) + 1) as nat, 6);
        }
        let d: i32 = if 48 <= c && c <= 57 { (c - 48) as i32 } else { (c - 55) as i32 };
        ucv = ucv * 16 + d;
        p = p + 1;
        assert(digits.subrange(0, p - off).drop_last() =~= pre);
        assert(all_upper_hex(digits.subrange(0, p - off)));
    }
    assert(digits.subrange(0, digits.len() as int) =~= digits);
    if !(ucv < 0 || ucv > 0x10FFFF || (ucv >= 0xD800 && ucv <= 0xDFFF)) {
        ucv
    } else {
        -1
    }
}

/// The accents and punctuation that a small-capital glyph name may carry after a capital,
/// tried in this order: `acute`, `breve`, `caron`, `cedilla`, `circumflex`, `dieresis`,
/// `dotaccent`, `grave`, `hungarumlaut`, `macron`, `ogonek`, `ring`, `tilde`, `commaaccent`,
/// `slash`, `ampersand`, `exclam`, `exclamdown`, `question`, `questiondown`: what is skipped
/// is the first of them that the name starts with.
pub proof fn law_modifier_names(buf: Seq<u8>)
    ensures
        modifier_len(buf) == (if has_prefix(buf, seq![97u8, 99u8, 117u8, 116u8, 101u8]) {
            5int
        } else if has_prefix(buf, seq![98u8, 114u8, 101u8, 118u8, 101u8]) {
            5int
        } else if has_prefix(buf, seq![99u8, 97u8, 114u8, 111u8, 110u8]) {
            5int
        } else if has_prefix(buf, seq![99u8, 101u8, 100u8, 105u8, 108u8, 108u8, 97u8]) {
            7int
        } else if has_prefix(buf, seq![99u8, 105u8, 114u8, 99u8, 117u8, 109u8, 102u8, 108u8, 101u8, 120u8]) {
            10int
        } else if has_prefix(buf, seq![100u8, 105u8, 101u8, 114u8, 101u8, 115u8, 105u8, 115u8]) {
            8int
        } else if has_prefix(buf, seq![100u8, 111u8, 116u8, 97u8, 99u8, 99u8, 101u8, 110u8, 116u8]) {
            9int
        } else if has_prefix(buf, seq![103u8, 114u8, 97u8, 118u8, 101u8]) {
            5int
        } else if has_prefix(buf, seq![104u8, 117u8, 110u8, 103u8, 97u8, 114u8, 117u8, 109u8, 108u8, 97u8, 117u8, 116u8]) {
            12int
        } else if has_prefix(buf, seq![109u8, 97u8, 99u8, 114u8, 111u8, 110u8]) {
            6int
        } else if has_prefix(buf, seq![111u8, 103u8, 111u8, 110u8, 101u8, 107u8]) {
            6int
        } else if has_prefix(buf, seq![114u8, 105u8, 110u8, 103u8]) {
            4int
        } else if has_prefix(buf, seq![116u8, 105u8, 108u8, 100u8, 101u8]) {
            5int
        } else if has_prefix(buf, seq![99u8, 111u8, 109u8, 109u8, 97u8, 97u8, 99u8, 99u8, 101u8, 110u8, 116u8]) {
            11int
        } else if has_prefix(buf, seq![115u8, 108u8, 97u8, 115u8, 104u8]) {
            5int
        } else if has_prefix(buf, seq![97u8, 109u8, 112u8, 101u8, 114u8, 115u8, 97u8, 110u8, 100u8]) {
            9int
        } else if has_prefix(buf, seq![101u8, 120u8, 99u8, 108u8, 97u8, 109u8]) {
            6int
        } else if has_prefix(buf, seq![101u8, 120u8, 99u8, 108u8, 97u8, 109u8, 100u8, 111u8, 119u8, 110u8]) {
            10int
        } else if has_prefix(buf, seq![113u8, 117u8, 101u8, 115u8, 116u8, 105u8, 111u8, 110u8]) {
            8int
        } else if has_prefix(buf, seq![113u8, 117u8, 101u8, 115u8, 116u8, 105u8, 111u8, 110u8, 100u8, 111u8, 119u8, 110u8]) {
            12int
        } else {
            0int
        }),
{
    reveal_with_fuel(modifier_len_from, 21);
    assert(modifier(0) =~= seq![97u8, 99u8, 117u8, 116u8, 101u8]);
    assert(modifier(1) =~= seq![98u8, 114u8, 101u8, 118u8, 101u8]);
    assert(modifier(2) =~= seq![99u8, 97u8, 114u8, 111u8, 110u8]);
    assert(modifier(3) =~= seq![99u8, 101u8, 100u8, 105u8, 108u8, 108u8, 97u8]);
    assert(modifier(4) =~= seq![99u8, 105u8, 114u8, 99u8, 117u8, 109u8, 102u8, 108u8, 101u8, 120u8]);
    assert(modifier(5) =~= seq![100u8, 105u8, 101u8, 114u8, 101u8, 115u8, 105u8, 115u8]);
    assert(modifier(6) =~= seq![100u8, 111u8, 116u8, 97u8, 99u8, 99u8, 101u8, 110u8, 116u8]);
    assert(modifier(7) =~= seq![103u8, 114u8, 97u8, 118u8, 101u8]);
    assert(modifier(8) =~= seq![104u8, 117u8, 110u8, 103u8, 97u8, 114u8, 117u8, 109u8, 108u8, 97u8, 117u8, 116u8]);
    assert(modifier(9) =~= seq![109u8, 97u8, 99u8, 114u8, 111u8, 110u8]);
    assert(modifier(10) =~= seq![111u8, 103u8, 111u8, 110u8, 101u8, 107u8]);
    assert(modifier(11) =~= seq![114u8, 105u8, 110u8, 103u8]);
    assert(modifier(12) =~= seq![116u8, 105u8, 108u8, 100u8, 101u8]);
    assert(modifier(13) =~= seq![99u8, 111u8, 109u8, 109u8, 97u8, 97u8, 99u8, 99u8, 101u8, 110u8, 116u8]);
    assert(modifier(14) =~= seq![115u8, 108u8, 97u8, 115u8, 104u8]);
    assert(modifier(15) =~= seq![97u8, 109u8, 112u8, 101u8, 114u8, 115u8, 97u8, 110u8, 100u8]);
    assert(modifier(16) =~= seq![101u8, 120u8, 99u8, 108u8, 97u8, 109u8]);
    assert(modifier(17) =~= seq![101u8, 120u8, 99u8, 108u8, 97u8, 109u8, 100u8, 111u8, 119u8, 110u8]);
    assert(modifier(18) =~= seq![113u8, 117u8, 101u8, 115u8, 116u8, 105u8, 111u8, 110u8]);
    assert(modifier(19) =~= seq![113u8, 117u8, 101u8, 115u8, 116u8, 105u8, 111u8, 110u8, 100u8, 111u8, 119u8, 110u8]);
}

/// The glyph-name suffixes and the OpenType features they stand for: `small`, `sc` and
/// `smcp` small capitals (`smcp`); `swash`, `swsh` swashes (`swsh`); `superior`, `sups`
/// (`sups`); `inferior`, `sinf` (`sinf`); `numerator`, `numr` (`numr`); `denominator`, `dnom`
/// (`dnom`); `oldstyle`, `onum` old-style figures (`onum`); `display`, `text`, `big`, `bigg`,
/// `Big`, `Bigg` name sizes and no feature (the empty tag). Any other suffix names none.
pub proof fn law_suffix_features(suffix: Seq<u8>)
    ensures
        otltag_from(suffix, 0) == (if suffix == seq![115u8, 109u8, 97u8, 108u8, 108u8] || suffix == seq![115u8, 99u8] || suffix == seq![115u8, 109u8, 99u8, 112u8] {
            Some(seq![115u8, 109u8, 99u8, 112u8])
        } else if suffix == seq![115u8, 119u8, 97u8, 115u8, 104u8] || suffix == seq![115u8, 119u8, 115u8, 104u8] {
            Some(seq![115u8, 119u8, 115u8, 104u8])
        } else if suffix == seq![115u8, 117u8, 112u8, 101u8, 114u8, 105u8, 111u8, 114u8] || suffix == seq![115u8, 117u8, 112u8, 115u8] {
            Some(seq![115u8, 117u8, 112u8, 115u8])
        } else if suffix == seq![105u8, 110u8, 102u8, 101u8, 114u8, 105u8, 111u8, 114u8] || suffix == seq![115u8, 105u8, 110u8, 102u8] {
            Some(seq![115u8, 105u8, 110u8, 102u8])
        } else if suffix == seq![110u8, 117u8, 109u8, 101u8, 114u8, 97u8, 116u8, 111u8, 114u8] || suffix == seq![110u8, 117u8, 109u8, 114u8] {
            Some(seq![110u8, 117u8, 109u8, 114u8])
        } else if suffix == seq![100u8, 101u8, 110u8, 111u8, 109u8, 105u8, 110u8, 97u8, 116u8, 111u8, 114u8] || suffix == seq![100u8, 110u8, 111u8, 109u8] {
            Some(seq![100u8, 110u8, 111u8, 109u8])
        } else if suffix == seq![111u8, 108u8, 100u8, 115u8, 116u8, 121u8, 108u8, 101u8] || suffix == seq![111u8, 110u8, 117u8, 109u8] {
            Some(seq![111u8, 110u8, 117u8, 109u8])
        } else if suffix == seq![100u8, 105u8, 115u8, 112u8, 108u8, 97u8, 121u8] || suffix == seq![116u8, 101u8, 120u8, 116u8] || suffix == seq![98u8, 105u8, 103u8] || suffix == seq![98u8, 105u8, 103u8, 103u8]
            || suffix == seq![66u8, 105u8, 103u8] || suffix == seq![66u8, 105u8, 103u8, 103u8] {
            Some(Seq::<u8>::empty())
        } else {
            None
        }),
{
    reveal_with_fuel(otltag_from, 14);
    assert(var_key(0) =~= seq![115u8, 109u8, 97u8, 108u8, 108u8]);
    assert(var_key(1) =~= seq![115u8, 119u8, 97u8, 115u8, 104u8]);
    assert(var_key(2) =~= seq![115u8, 117u8, 112u8, 101u8, 114u8, 105u8, 111u8, 114u8]);
    assert(var_key(3) =~= seq![105u8, 110u8, 102u8, 101u8, 114u8, 105u8, 111u8, 114u8]);
    assert(var_key(4) =~= seq![110u8, 117u8, 109u8, 101u8, 114u8, 97u8, 116u8, 111u8, 114u8]);
    assert(var_key(5) =~= seq![100u8, 101u8, 110u8, 111u8, 109u8, 105u8, 110u8, 97u8, 116u8, 111u8, 114u8]);
    assert(var_key(6) =~= seq![111u8, 108u8, 100u8, 115u8, 116u8, 121u8, 108u8, 101u8]);
    assert(var_key(7) =~= seq![100u8, 105u8, 115u8, 112u8, 108u8, 97u8, 121u8]);
    assert(var_key(8) =~= seq![116u8, 101u8, 120u8, 116u8]);
    assert(var_key(9) =~= seq![98u8, 105u8, 103u8]);
    assert(var_key(10) =~= seq![98u8, 105u8, 103u8, 103u8]);
    assert(var_key(11) =~= seq![66u8, 105u8, 103u8]);
    assert(var_key(12) =~= seq![66u8, 105u8, 103u8, 103u8]);
    assert(var_otl_tag(0) =~= seq![115u8, 109u8, 99u8, 112u8]);
    assert(var_otl_tag(1) =~= seq![115u8, 119u8, 115u8, 104u8]);
    assert(var_otl_tag(2) =~= seq![115u8, 117u8, 112u8, 115u8]);
    assert(var_otl_tag(3) =~= seq![115u8, 105u8, 110u8, 102u8]);
    assert(var_otl_tag(4) =~= seq![110u8, 117u8, 109u8, 114u8]);
    assert(var_otl_tag(5) =~= seq![100u8, 110u8, 111u8, 109u8]);
    assert(var_otl_tag(6) =~= seq![111u8, 110u8, 117u8, 109u8]);
    assert(var_otl_tag(7) =~= Seq::<u8>::empty());
    assert(var_otl_tag(8) =~= Seq::<u8>::empty());
    assert(var_otl_tag(9) =~= Seq::<u8>::empty());
    assert(var_otl_tag(10) =~= Seq::<u8>::empty());
    assert(var_otl_tag(11) =~= Seq::<u8>::empty());
    assert(var_otl_tag(12) =~= Seq::<u8>::empty());
    assert(var_suffixes(0) =~= seq![seq![115u8, 99u8]]);
    assert(forall|i: int| 1 <= i < 13 ==> var_suffixes(i) =~= Seq::<Seq<u8>>::empty());
    assert(var_suffixes(0).contains(suffix) <==> suffix == seq![115u8, 99u8]) by {
        if suffix == seq![115u8, 99u8] {
            assert(var_suffixes(0)[0] == suffix);
        }
    }
    assert forall|i: int| 1 <= i < 13 implies !#[trigger] var_suffixes(i).contains(suffix) by {
        assert(var_suffixes(i) =~= Seq::<Seq<u8>>::empty());
    }
    assert(seq![115u8, 109u8, 97u8, 108u8, 108u8].len() != seq![115u8, 99u8].len());
    assert(seq![115u8, 109u8, 97u8, 108u8, 108u8].len() != seq![115u8, 109u8, 99u8, 112u8].len());
    assert(seq![115u8, 99u8].len() != seq![115u8, 109u8, 99u8, 112u8].len());
    assert(seq![115u8, 109u8, 97u8, 108u8, 108u8][1] != seq![115u8, 119u8, 97u8, 115u8, 104u8][1]);
    assert(seq![115u8, 99u8].len() != seq![115u8, 119u8, 97u8, 115u8, 104u8].len());
    assert(seq![115u8, 109u8, 99u8, 112u8].len() != seq![115u8, 119u8, 97u8, 115u8, 104u8].len());
    assert(seq![115u8, 109u8, 97u8, 108u8, 108u8].len() != seq![115u8, 119u8, 115u8, 104u8].len());
    assert(seq![115u8, 99u8].len() != seq![115u8, 119u8, 115u8, 104u8].len());
    assert(seq![115u8, 109u8, 99u8, 112u8][1] != seq![115u8, 119u8, 115u8, 104u8][1]);
    assert(seq![115u8, 119u8, 97u8, 115u8, 104u8].len() != seq![115u8, 119u8, 115u8, 104u8].len());
    assert(seq![115u8, 109u8, 97u8, 108u8, 108u8].len() != seq![115u8, 117u8, 112u8, 101u8, 114u8, 105u8, 111u8, 114u8].len());
    assert(seq![115u8, 99u8].len() != seq![115u8, 117u8, 112u8, 101u8, 114u8, 105u8, 111u8, 114u8].len());
    assert(seq![115u8, 109u8, 99u8, 112u8].len() != seq![115u8, 117u8, 112u8, 101u8, 114u8, 105u8, 111u8, 114u8].len());
    assert(seq![115u8, 119u8, 97u8, 115u8, 104u8].len() != seq![115u8, 117u8, 112u8, 101u8, 114u8, 105u8, 111u8, 114u8].len());
    assert(seq![115u8, 119u8, 115u8, 104u8].len() != seq![115u8, 117u8, 112u8, 101u8, 114u8, 105u8, 111u8, 114u8].len());
    assert(seq![115u8, 109u8, 97u8, 108u8, 108u8].len() != seq![115u8, 117u8, 112u8, 115u8].len());
    assert(seq![115u8, 99u8].len() != seq![115u8, 117u8, 112u8, 115u8].len());
    assert(seq![115u8, 109u8, 99u8, 112u8][1] != seq![115u8, 117u8, 112u8, 115u8][1]);
    assert(seq![115u8, 119u8, 97u8, 115u8, 104u8].len() != seq![115u8, 117u8, 112u8, 115u8].len());
    assert(seq![115u8, 119u8, 115u8, 104u8][1] != seq![115u8, 117u8, 112u8, 115u8][1]);
    assert(seq![115u8, 117u8, 112u8, 101u8, 114u8, 105u8, 111u8, 114u8].len() != seq![115u8, 117u8, 112u8, 115u8].len());
    assert(seq![115u8, 109u8, 97u8, 108u8, 108u8].len() != seq![105u8, 110u8, 102u8, 101u8, 114u8, 105u8, 111u8, 114u8].len());
    assert(seq![115u8, 99u8].len() != seq![105u8, 110u8, 102u8, 101u8, 114u8, 105u8, 111u8, 114u8].len());
    assert(seq![115u8, 109u8, 99u8, 112u8].len() != seq![105u8, 110u8, 102u8, 101u8, 114u8, 105u8, 111u8, 114u8].len());
    assert(seq![115u8, 119u8, 97u8, 115u8, 104u8].len() != seq![105u8, 110u8, 102u8, 101u8, 114u8, 105u8, 111u8, 114u8].len());
    assert(seq![115u8, 119u8, 115u8, 104u8].len() != seq![105u8, 110u8, 102u8, 101u8, 114u8, 105u8, 111u8, 114u8].len());
    assert(seq![115u8, 117u8, 112u8, 101u8, 114u8, 105u8, 111u8, 114u8][0] != seq![105u8, 110u8, 102u8, 101u8, 114u8, 105u8, 111u8, 114u8][0]);
    assert(seq![115u8, 117u8, 112u8, 115u8].len() != seq![105u8, 110u8, 102u8, 101u8, 114u8, 105u8, 111u8, 114u8].len());
    assert(seq![115u8, 109u8, 97u8, 108u8, 108u8].len() != seq![115u8, 105u8, 110u8, 102u8].len());
    assert(seq![115u8, 99u8].len() != seq![115u8, 105u8, 110u8, 102u8].len());
    assert(seq![115u8, 109u8, 99u8, 112u8][1] != seq![115u8, 105u8, 110u8, 102u8][1]);
    assert(seq![115u8, 119u8, 97u8, 115u8, 104u8].len() != seq![115u8, 105u8, 110u8, 102u8].len());
    assert(seq![115u8, 119u8, 115u8, 104u8][1] != seq![115u8, 105u8, 110u8, 102u8][1]);
    assert(seq![115u8, 117u8, 112u8, 101u8, 114u8, 105u8, 111u8, 114u8].len() != seq![115u8, 105u8, 110u8, 102u8].len());
    assert(seq![115u8, 117u8, 112u8, 115u8][1] != seq![115u8, 105u8, 110u8, 102u8][1]);
    assert(seq![105u8, 110u8, 102u8, 101u8, 114u8, 105u8, 111u8, 114u8].len() != seq![115u8, 105u8, 110u8, 102u8].len());
    assert(seq![115u8, 109u8, 97u8, 108u8, 108u8].len() != seq![110u8, 117u8, 109u8, 101u8, 114u8, 97u8, 116u8, 111u8, 114u8].len());
    assert(seq![115u8, 99u8].len() != seq![110u8, 117u8, 109u8, 101u8, 114u8, 97u8, 116u8, 111u8, 114u8].len());
    assert(seq![115u8, 109u8, 99u8, 112u8].len() != seq![110u8, 117u8, 109u8, 101u8, 114u8, 97u8, 116u8, 111u8, 114u8].len());
    assert(seq![115u8, 119u8, 97u8, 115u8, 104u8].len() != seq![110u8, 117u8, 109u8, 101u8, 114u8, 97u8, 116u8, 111u8, 114u8].len());
    assert(seq![115u8, 119u8, 115u8, 104u8].len() != seq![110u8, 117u8, 109u8, 101u8, 114u8, 97u8, 116u8, 111u8, 114u8].len());
    assert(seq![115u8, 117u8, 112u8, 101u8, 114u8, 105u8, 111u8, 114u8].len() != seq![110u8, 117u8, 109u8, 101u8, 114u8, 97u8, 116u8, 111u8, 114u8].len());
    assert(seq![115u8, 117u8, 112u8, 115u8].len() != seq![110u8, 117u8, 109u8, 101u8, 114u8, 97u8, 116u8, 111u8, 114u8].len());
    assert(seq![105u8, 110u8, 102u8, 101u8, 114u8, 105u8, 111u8, 114u8].len() != seq![110u8, 117u8, 109u8, 101u8, 114u8, 97u8, 116u8, 111u8, 114u8].len());
    assert(seq![115u8, 105u8, 110u8, 102u8].len() != seq![110u8, 117u8, 109u8, 101u8, 114u8, 97u8, 116u8, 111u8, 114u8].len());
    assert(seq![115u8, 109u8, 97u8, 108u8, 108u8].len() != seq![110u8, 117u8, 109u8, 114u8].len());
    assert(seq![115u8, 99u8].len() != seq![110u8, 117u8, 109u8, 114u8].len());
    assert(seq![115u8, 109u8, 99u8, 112u8][0] != seq![110u8, 117u8, 109u8, 114u8][0]);
    assert(seq![115u8, 119u8, 97u8, 115u8, 104u8].len() != seq![110u8, 117u8, 109u8, 114u8].len());
    assert(seq![115u8, 119u8, 115u8, 104u8][0] != seq![110u8, 117u8, 109u8, 114u8][0]);
    assert(seq![115u8, 117u8, 112u8, 101u8, 114u8, 105u8, 111u8, 114u8].len() != seq![110u8, 117u8, 109u8, 114u8].len());
    assert(seq![115u8, 117u8, 112u8, 115u8][0] != seq![110u8, 117u8, 109u8, 114u8][0]);
    assert(seq![105u8, 110u8, 102u8, 101u8, 114u8, 105u8, 111u8, 114u8].len() != seq![110u8, 117u8, 109u8, 114u8].len());
    assert(seq![115u8, 105u8, 110u8, 102u8][0] != seq![110u8, 117u8, 109u8, 114u8][0]);
    assert(seq![110u8, 117u8, 109u8, 101u8, 114u8, 97u8, 116u8, 111u8, 114u8].len() != seq![110u8, 117u8, 109u8, 114u8].len());
    assert(seq![115u8, 109u8, 97u8, 108u8, 108u8].len() != seq![100u8, 101u8, 110u8, 111u8, 109u8, 105u8, 110u8, 97u8, 116u8, 111u8, 114u8].len());
    assert(seq![115u8, 99u8].len() != seq![100u8, 101u8, 110u8, 111u8, 109u8, 105u8, 110u8, 97u8, 116u8, 111u8, 114u8].len());
    assert(seq![115u8, 109u8, 99u8, 112u8].len() != seq![100u8, 101u8, 110u8, 111u8, 109u8, 105u8, 110u8, 97u8, 116u8, 111u8, 114u8].len());
    assert(seq![115u8, 119u8, 97u8, 115u8, 104u8].len() != seq![100u8, 101u8, 110u8, 111u8, 109u8, 105u8, 110u8, 97u8, 116u8, 111u8, 114u8].len());
    assert(seq![115u8, 119u8, 115u8, 104u8].len() != seq![100u8, 101u8, 110u8, 111u8, 109u8, 105u8, 110u8, 97u8, 116u8, 111u8, 114u8].len());
    assert(seq![115u8, 117u8, 112u8, 101u8, 114u8, 105u8, 111u8, 114u8].len() != seq![100u8, 101u8, 110u8, 111u8, 109u8, 105u8, 110u8, 97u8, 116u8, 111u8, 114u8].len());
    assert(seq![115u8, 117u8, 112u8, 115u8].len() != seq![100u8, 101u8, 110u8, 111u8, 109u8, 105u8, 110u8, 97u8, 116u8, 111u8, 114u8].len());
    assert(seq![105u8, 110u8, 102u8, 101u8, 114u8, 105u8, 111u8, 114u8].len() != seq![100u8, 101u8, 110u8, 111u8, 109u8, 105u8, 110u8, 97u8, 116u8, 111u8, 114u8].len());
    assert(seq![115u8, 105u8, 110u8, 102u8].len() != seq![100u8, 101u8, 110u8, 111u8, 109u8, 105u8, 110u8, 97u8, 116u8, 111u8, 114u8].len());
    assert(seq![110u8, 117u8, 109u8, 101u8, 114u8, 97u8, 116u8, 111u8, 114u8].len() != seq![100u8, 101u8, 110u8, 111u8, 109u8, 105u8, 110u8, 97u8, 116u8, 111u8, 114u8].len());
    assert(seq![110u8, 117u8, 109u8, 114u8].len() != seq![100u8, 101u8, 110u8, 111u8, 109u8, 105u8, 110u8, 97u8, 116u8, 111u8, 114u8].len());
    assert(seq![115u8, 109u8, 97u8, 108u8, 108u8].len() != seq![100u8, 110u8, 111u8, 109u8].len());
    assert(seq![115u8, 99u8].len() != seq![100u8, 110u8, 111u8, 109u8].len());
    assert(seq![115u8, 109u8, 99u8, 112u8][0] != seq![100u8, 110u8, 111u8, 109u8][0]);
    assert(seq![115u8, 119u8, 97u8, 115u8, 104u8].len() != seq![100u8, 110u8, 111u8, 109u8].len());
    assert(seq![115u8, 119u8, 115u8, 104u8][0] != seq![100u8, 110u8, 111u8, 109u8][0]);
    assert(seq![115u8, 117u8, 112u8, 101u8, 114u8, 105u8, 111u8, 114u8].len() != seq![100u8, 110u8, 111u8, 109u8].len());
    assert(seq![115u8, 117u8, 112u8, 115u8][0] != seq![100u8, 110u8, 111u8, 109u8][0]);
    assert(seq![105u8, 110u8, 102u8, 101u8, 114u8, 105u8, 111u8, 114u8].len() != seq![100u8, 110u8, 111u8, 109u8].len());
    assert(seq![115u8, 105u8, 110u8, 102u8][0] != seq![100u8, 110u8, 111u8, 109u8][0]);
    assert(seq![110u8, 117u8, 109u8, 101u8, 114u8, 97u8, 116u8, 111u8, 114u8].len() != seq![100u8, 110u8, 111u8, 109u8].len());
    assert(seq![110u8, 117u8, 109u8, 114u8][0] != seq![100u8, 110u8, 111u8, 109u8][0]);
    assert(seq![100u8, 101u8, 110u8, 111u8, 109u8, 105u8, 110u8, 97u8, 116u8, 111u8, 114u8].len() != seq![100u8, 110u8, 111u8, 109u8].len());
    assert(seq![115u8, 109u8, 97u8, 108u8, 108u8].len() != seq![111u8, 108u8, 100u8, 115u8, 116u8, 121u8, 108u8, 101u8].len());
    assert(seq![115u8, 99u8].len() != seq![111u8, 108u8, 100u8, 115u8, 116u8, 121u8, 108u8, 101u8].len());
    assert(seq![115u8, 109u8, 99u8, 112u8].len() != seq![111u8, 108u8, 100u8, 115u8, 116u8, 121u8, 108u8, 101u8].len());
    assert(seq![115u8, 119u8, 97u8, 115u8, 104u8].len() != seq![111u8, 108u8, 100u8, 115u8, 116u8, 121u8, 108u8, 101u8].len());
    assert(seq![115u8, 119u8, 115u8, 104u8].len() != seq![111u8, 108u8, 100u8, 115u8, 116u8, 121u8, 108u8, 101u8].len());
    assert(seq![115u8, 117u8, 112u8, 101u8, 114u8, 105u8, 111u8, 114u8][0] != seq![111u8, 108u8, 100u8, 115u8, 116u8, 121u8, 108u8, 101u8][0]);
    assert(seq![115u8, 117u8, 112u8, 115u8].len() != seq![111u8, 108u8, 100u8, 115u8, 116u8, 121u8, 108u8, 101u8].len());
    assert(seq![105u8, 110u8, 102u8, 101u8, 114u8, 105u8, 111u8, 114u8][0] != seq![111u8, 108u8, 100u8, 115u8, 116u8, 121u8, 108u8, 101u8][0]);
    assert(seq![115u8, 105u8, 110u8, 102u8].len() != seq![111u8, 108u8, 100u8, 115u8, 116u8, 121u8, 108u8, 101u8].len());
    assert(seq![110u8, 117u8, 109u8, 101u8, 114u8, 97u8, 116u8, 111u8, 114u8].len() != seq![111u8, 108u8, 100u8, 115u8, 116u8, 121u8, 108u8, 101u8].len());
    assert(seq![110u8, 117u8, 109u8, 114u8].len() != seq![111u8, 108u8, 100u8, 115u8, 116u8, 121u8, 108u8, 101u8].len());
    assert(seq![100u8, 101u8, 110u8, 111u8, 109u8, 105u8, 110u8, 97u8, 116u8, 111u8, 114u8].len() != seq![111u8, 108u8, 100u8, 115u8, 116u8, 121u8, 108u8, 101u8].len());
    assert(seq![100u8, 110u8, 111u8, 109u8].len() != seq![111u8, 108u8, 100u8, 115u8, 116u8, 121u8, 108u8, 101u8].len());
    assert(seq![115u8, 109u8, 97u8, 108u8, 108u8].len() != seq![111u8, 110u8, 117u8, 109u8].len());
    assert(seq![115u8, 99u8].len() != seq![111u8, 110u8, 117u8, 109u8].len());
    assert(seq![115u8, 109u8, 99u8, 112u8][0] != seq![111u8, 110u8, 117u8, 109u8][0]);
    assert(seq![115u8, 119u8, 97u8, 115u8, 104u8].len() != seq![111u8, 110u8, 117u8, 109u8].len());
    assert(seq![115u8, 119u8, 115u8, 104u8][0] != seq![111u8, 110u8, 117u8, 109u8][0]);
    assert(seq![115u8, 117u8, 112u8, 101u8, 114u8, 105u8, 111u8, 114u8].len() != seq![111u8, 110u8, 117u8, 109u8].len());
    assert(seq![115u8, 117u8, 112u8, 115u8][0] != seq![111u8, 110u8, 117u8, 109u8][0]);
    assert(seq![105u8, 110u8, 102u8, 101u8, 114u8, 105u8, 111u8, 114u8].len() != seq![111u8, 110u8, 117u8, 109u8].len());
    assert(seq![115u8, 105u8, 110u8, 102u8][0] != seq![111u8, 110u8, 117u8, 109u8][0]);
    assert(seq![110u8, 117u8, 109u8, 101u8, 114u8, 97u8, 116u8, 111u8, 114u8].len() != seq![111u8, 110u8, 117u8, 109u8].len());
    assert(seq![110u8, 117u8, 109u8, 114u8][0] != seq![111u8, 110u8, 117u8, 109u8][0]);
    assert(seq![100u8, 101u8, 110u8, 111u8, 109u8, 105u8, 110u8, 97u8, 116u8, 111u8, 114u8].len() != seq![111u8, 110u8, 117u8, 109u8].len());
    assert(seq![100u8, 110u8, 111u8, 109u8][0] != seq![111u8, 110u8, 117u8, 109u8][0]);
    assert(seq![111u8, 108u8, 100u8, 115u8, 116u8, 121u8, 108u8, 101u8].len() != seq![111u8, 110u8, 117u8, 109u8].len());
    assert(seq![115u8, 109u8, 97u8, 108u8, 108u8].len() != seq![100u8, 105u8, 115u8, 112u8, 108u8, 97u8, 121u8].len());
    assert(seq![115u8, 99u8].len() != seq![100u8, 105u8, 115u8, 112u8, 108u8, 97u8, 121u8].len());
    assert(seq![115u8, 109u8, 99u8, 112u8].len() != seq![100u8, 105u8, 115u8, 112u8, 108u8, 97u8, 121u8].len());
    assert(seq![115u8, 119u8, 97u8, 115u8, 104u8].len() != seq![100u8, 105u8, 115u8, 112u8, 108u8, 97u8, 121u8].len());
    assert(seq![115u8, 119u8, 115u8, 104u8].len() != seq![100u8, 105u8, 115u8, 112u8, 108u8, 97u8, 121u8].len());
    assert(seq![115u8, 117u8, 112u8, 101u8, 114u8, 105u8, 111u8, 114u8].len() != seq![100u8, 105u8, 115u8, 112u8, 108u8, 97u8, 121u8].len());
    assert(seq![115u8, 117u8, 112u8, 115u8].len() != seq![100u8, 105u8, 115u8, 112u8, 108u8, 97u8, 121u8].len());
    assert(seq![105u8, 110u8, 102u8, 101u8, 114u8, 105u8, 111u8, 114u8].len() != seq![100u8, 105u8, 115u8, 112u8, 108u8, 97u8, 121u8].len());
    assert(seq![115u8, 105u8, 110u8, 102u8].len() != seq![100u8, 105u8, 115u8, 112u8, 108u8, 97u8, 121u8].len());
    assert(seq![110u8, 117u8, 109u8, 101u8, 114u8, 97u8, 116u8, 111u8, 114u8].len() != seq![100u8, 105u8, 115u8, 112u8, 108u8, 97u8, 121u8].len());
    assert(seq![110u8, 117u8, 109u8, 114u8].len() != seq![100u8, 105u8, 115u8, 112u8, 108u8, 97u8, 121u8].len());
    assert(seq![100u8, 101u8, 110u8, 111u8, 109u8, 105u8, 110u8, 97u8, 116u8, 111u8, 114u8].len() != seq![100u8, 105u8, 115u8, 112u8, 108u8, 97u8, 121u8].len());
    assert(seq![100u8, 110u8, 111u8, 109u8].len() != seq![100u8, 105u8, 115u8, 112u8, 108u8, 97u8, 121u8].len());
    assert(seq![111u8, 108u8, 100u8, 115u8, 116u8, 121u8, 108u8, 101u8].len() != seq![100u8, 105u8, 115u8, 112u8, 108u8, 97u8, 121u8].len());
    assert(seq![111u8, 110u8, 117u8, 109u8].len() != seq![100u8, 105u8, 115u8, 112u8, 108u8, 97u8, 121u8].len());
    assert(seq![115u8, 109u8, 97u8, 108u8, 108u8].len() != seq![116u8, 101u8, 120u8, 116u8].len());
    assert(seq![115u8, 99u8].len() != seq![116u8, 101u8, 120u8, 116u8].len());
    assert(seq![115u8, 109u8, 99u8, 112u8][0] != seq![116u8, 101u8, 120u8, 116u8][0]);
    assert(seq![115u8, 119u8, 97u8, 115u8, 104u8].len() != seq![116u8, 101u8, 120u8, 116u8].len());
    assert(seq![115u8, 119u8, 115u8, 104u8][0] != seq![116u8, 101u8, 120u8, 116u8][0]);
    assert(seq![115u8, 117u8, 112u8, 101u8, 114u8, 105u8, 111u8, 114u8].len() != seq![116u8, 101u8, 120u8, 116u8].len());
    assert(seq![115u8, 117u8, 112u8, 115u8][0] != seq![116u8, 101u8, 120u8, 116u8][0]);
    assert(seq![105u8, 110u8, 102u8, 101u8, 114u8, 105u8, 111u8, 114u8].len() != seq![116u8, 101u8, 120u8, 116u8].len());
    assert(seq![115u8, 105u8, 110u8, 102u8][0] != seq![116u8, 101u8, 120u8, 116u8][0]);
    assert(seq![110u8, 117u8, 109u8, 101u8, 114u8, 97u8, 116u8, 111u8, 114u8].len() != seq![116u8, 101u8, 120u8, 116u8].len());
    assert(seq![110u8, 117u8, 109u8, 114u8][0] != seq![116u8, 101u8, 120u8, 116u8][0]);
    assert(seq![100u8, 101u8, 110u8, 111u8, 109u8, 105u8, 110u8, 97u8, 116u8, 111u8, 114u8].len() != seq![116u8, 101u8, 120u8, 116u8].len());
    assert(seq![100u8, 110u8, 111u8, 109u8][0] != seq![116u8, 101u8, 120u8, 116u8][0]);
    assert(seq![111u8, 108u8, 100u8, 115u8, 116u8, 121u8, 108u8, 101u8].len() != seq![116u8, 101u8, 120u8, 116u8].len());
    assert(seq![111u8, 110u8, 117u8, 109u8][0] != seq![116u8, 101u8, 120u8, 116u8][0]);
    assert(seq![100u8, 105u8, 115u8, 112u8, 108u8, 97u8, 121u8].len() != seq![116u8, 101u8, 120u8, 116u8].len());
    assert(seq![115u8, 109u8, 97u8, 108u8, 108u8].len() != seq![98u8, 105u8, 103u8].len());
    assert(seq![115u8, 99u8].len() != seq![98u8, 105u8, 103u8].len());
    assert(seq![115u8, 109u8, 99u8, 112u8].len() != seq![98u8, 105u8, 103u8].len());
    assert(seq![115u8, 119u8, 97u8, 115u8, 104u8].len() != seq![98u8, 105u8, 103u8].len());
    assert(seq![115u8, 119u8, 115u8, 104u8].len() != seq![98u8, 105u8, 103u8].len());
    assert(seq![115u8, 117u8, 112u8, 101u8, 114u8, 105u8, 111u8, 114u8].len() != seq![98u8, 105u8, 103u8].len());
    assert(seq![115u8, 117u8, 112u8, 115u8].len() != seq![98u8, 105u8, 103u8].len());
    assert(seq![105u8, 110u8, 102u8, 101u8, 114u8, 105u8, 111u8, 114u8].len() != seq![98u8, 105u8, 103u8].len());
    assert(seq![115u8, 105u8, 110u8, 102u8].len() != seq![98u8, 105u8, 103u8].len());
    assert(seq![110u8, 117u8, 109u8, 101u8, 114u8, 97u8, 116u8, 111u8, 114u8].len() != seq![98u8, 105u8, 103u8].len());
    assert(seq![110u8, 117u8, 109u8, 114u8].len() != seq![98u8, 105u8, 103u8].len());
    assert(seq![100u8, 101u8, 110u8, 111u8, 109u8, 105u8, 110u8, 97u8, 116u8, 111u8, 114u8].len() != seq![98u8, 105u8, 103u8].len());
    assert(seq![100u8, 110u8, 111u8, 109u8].len() != seq![98u8, 105u8, 103u8].len());
    assert(seq![111u8, 108u8, 100u8, 115u8, 116u8, 121u8, 108u8, 101u8].len() != seq![98u8, 105u8, 103u8].len());
    assert(seq![111u8, 110u8, 117u8, 109u8].len() != seq![98u8, 105u8, 103u8].len());
    assert(seq![100u8, 105u8, 115u8, 112u8, 108u8, 97u8, 121u8].len() != seq![98u8, 105u8, 103u8].len());
    assert(seq![116u8, 101u8, 120u8, 116u8].len() != seq![98u8, 105u8, 103u8].len());
    assert(seq![115u8, 109u8, 97u8, 108u8, 108u8].len() != seq![98u8, 105u8, 103u8, 103u8].len());
    assert(seq![115u8, 99u8].len() != seq![98u8, 105u8, 103u8, 103u8].len());
    assert(seq![115u8, 109u8, 99u8, 112u8][0] != seq![98u8, 105u8, 103u8, 103u8][0]);
    assert(seq![115u8, 119u8, 97u8, 115u8, 104u8].len() != seq![98u8, 105u8, 103u8, 103u8].len());
    assert(seq![115u8, 119u8, 115u8, 104u8][0] != seq![98u8, 105u8, 103u8, 103u8][0]);
    assert(seq![115u8, 117u8, 112u8, 101u8, 114u8, 105u8, 111u8, 114u8].len() != seq![98u8, 105u8, 103u8, 103u8].len());
    assert(seq![115u8, 117u8, 112u8, 115u8][0] != seq![98u8, 105u8, 103u8, 103u8][0]);
    assert(seq![105u8, 110u8, 102u8, 101u8, 114u8, 105u8, 111u8, 114u8].len() != seq![98u8, 105u8, 103u8, 103u8].len());
    assert(seq![115u8, 105u8, 110u8, 102u8][0] != seq![98u8, 105u8, 103u8, 103u8][0]);
    assert(seq![110u8, 117u8, 109u8, 101u8, 114u8, 97u8, 116u8, 111u8, 114u8].len() != seq![98u8, 105u8, 103u8, 103u8].len());
    assert(seq![110u8, 117u8, 109u8, 114u8][0] != seq![98u8, 105u8, 103u8, 103u8][0]);
    assert(seq![100u8, 101u8, 110u8, 111u8, 109u8, 105u8, 110u8, 97u8, 116u8, 111u8, 114u8].len() != seq![98u8, 105u8, 103u8, 103u8].len());
    assert(seq![100u8, 110u8, 111u8, 109u8][0] != seq![98u8, 105u8, 103u8, 103u8][0]);
    assert(seq![111u8, 108u8, 100u8, 115u8, 116u8, 121u8, 108u8, 101u8].len() != seq![98u8, 105u8, 103u8, 103u8].len());
    assert(seq![111u8, 110u8, 117u8, 109u8][0] != seq![98u8, 105u8, 103u8, 103u8][0]);
    assert(seq![100u8, 105u8, 115u8, 112u8, 108u8, 97u8, 121u8].len() != seq![98u8, 105u8, 103u8, 103u8].len());
    assert(seq![116u8, 101u8, 120u8, 116u8][0] != seq![98u8, 105u8, 103u8, 103u8][0]);
    assert(seq![98u8, 105u8, 103u8].len() != seq![98u8, 105u8, 103u8, 103u8].len());
    assert(seq![115u8, 109u8, 97u8, 108u8, 108u8].len() != seq![66u8, 105u8, 103u8].len());
    assert(seq![115u8, 99u8].len() != seq![66u8, 105u8, 103u8].len());
    assert(seq![115u8, 109u8, 99u8, 112u8].len() != seq![66u8, 105u8, 103u8].len());
    assert(seq![115u8, 119u8, 97u8, 115u8, 104u8].len() != seq![66u8, 105u8, 103u8].len());
    assert(seq![115u8, 119u8, 115u8, 104u8].len() != seq![66u8, 105u8, 103u8].len());
    assert(seq![115u8, 117u8, 112u8, 101u8, 114u8, 105u8, 111u8, 114u8].len() != seq![66u8, 105u8, 103u8].len());
    assert(seq![115u8, 117u8, 112u8, 115u8].len() != seq![66u8, 105u8, 103u8].len());
    assert(seq![105u8, 110u8, 102u8, 101u8, 114u8, 105u8, 111u8, 114u8].len() != seq![66u8, 105u8, 103u8].len());
    assert(seq![115u8, 105u8, 110u8, 102u8].len() != seq![66u8, 105u8, 103u8].len());
    assert(seq![110u8, 117u8, 109u8, 101u8, 114u8, 97u8, 116u8, 111u8, 114u8].len() != seq![66u8, 105u8, 103u8].len());
    assert(seq![110u8, 117u8, 109u8, 114u8].len() != seq![66u8, 105u8, 103u8].len());
    assert(seq![100u8, 101u8, 110u8, 111u8, 109u8, 105u8, 110u8, 97u8, 116u8, 111u8, 114u8].len() != seq![66u8, 105u8, 103u8].len());
    assert(seq![100u8, 110u8, 111u8, 109u8].len() != seq![66u8, 105u8, 103u8].len());
    assert(seq![111u8, 108u8, 100u8, 115u8, 116u8, 121u8, 108u8, 101u8].len() != seq![66u8, 105u8, 103u8].len());
    assert(seq![111u8, 110u8, 117u8, 109u8].len() != seq![66u8, 105u8, 103u8].len());
    assert(seq![100u8, 105u8, 115u8, 112u8, 108u8, 97u8, 121u8].len() != seq![66u8, 105u8, 103u8].len());
    assert(seq![116u8, 101u8, 120u8, 116u8].len() != seq![66u8, 105u8, 103u8].len());
    assert(seq![98u8, 105u8, 103u8][0] != seq![66u8, 105u8, 103u8][0]);
    assert(seq![98u8, 105u8, 103u8, 103u8].len() != seq![66u8, 105u8, 103u8].len());
    assert(seq![115u8, 109u8, 97u8, 108u8, 108u8].len() != seq![66u8, 105u8, 103u8, 103u8].len());
    assert(seq![115u8, 99u8].len() != seq![66u8, 105u8, 103u8, 103u8].len());
    assert(seq![115u8, 109u8, 99u8, 112u8][0] != seq![66u8, 105u8, 103u8, 103u8][0]);
    assert(seq![115u8, 119u8, 97u8, 115u8, 104u8].len() != seq![66u8, 105u8, 103u8, 103u8].len());
    assert(seq![115u8, 119u8, 115u8, 104u8][0] != seq![66u8, 105u8, 103u8, 103u8][0]);
    assert(seq![115u8, 117u8, 112u8, 101u8, 114u8, 105u8, 111u8, 114u8].len() != seq![66u8, 105u8, 103u8, 103u8].len());
    assert(seq![115u8, 117u8, 112u8, 115u8][0] != seq![66u8, 105u8, 103u8, 103u8][0]);
    assert(seq![105u8, 110u8, 102u8, 101u8, 114u8, 105u8, 111u8, 114u8].len() != seq![66u8, 105u8, 103u8, 103u8].len());
    assert(seq![115u8, 105u8, 110u8, 102u8][0] != seq![66u8, 105u8, 103u8, 103u8][0]);
    assert(seq![110u8, 117u8, 109u8, 101u8, 114u8, 97u8, 116u8, 111u8, 114u8].len() != seq![66u8, 105u8, 103u8, 103u8].len());
    assert(seq![110u8, 117u8, 109u8, 114u8][0] != seq![66u8, 105u8, 103u8, 103u8][0]);
    assert(seq![100u8, 101u8, 110u8, 111u8, 109u8, 105u8, 110u8, 97u8, 116u8, 111u8, 114u8].len() != seq![66u8, 105u8, 103u8, 103u8].len());
    assert(seq![100u8, 110u8, 111u8, 109u8][0] != seq![66u8, 105u8, 103u8, 103u8][0]);
    assert(seq![111u8, 108u8, 100u8, 115u8, 116u8, 121u8, 108u8, 101u8].len() != seq![66u8, 105u8, 103u8, 103u8].len());
    assert(seq![111u8, 110u8, 117u8, 109u8][0] != seq![66u8, 105u8, 103u8, 103u8][0]);
    assert(seq![100u8, 105u8, 115u8, 112u8, 108u8, 97u8, 121u8].len() != seq![66u8, 105u8, 103u8, 103u8].len());
    assert(seq![116u8, 101u8, 120u8, 116u8][0] != seq![66u8, 105u8, 103u8, 103u8][0]);
    assert(seq![98u8, 105u8, 103u8].len() != seq![66u8, 105u8, 103u8, 103u8].len());
    assert(seq![98u8, 105u8, 103u8, 103u8][0] != seq![66u8, 105u8, 103u8, 103u8][0]);
    assert(seq![66u8, 105u8, 103u8].len() != seq![66u8, 105u8, 103u8, 103u8].len());
}

/// The words of glyph names: small capitals end in `small`; Unicode names start with `uni`.
pub proof fn law_glyph_name_words()
    ensures
        small_bytes() == seq![115u8, 109u8, 97u8, 108u8, 108u8],
        uni_bytes() == seq![117u8, 110u8, 105u8],
{
    assert(small_bytes() =~= seq![115u8, 109u8, 97u8, 108u8, 108u8]);
    assert(uni_bytes() =~= seq![117u8, 110u8, 105u8]);
}

} // verus!
