use vstd::prelude::*;
use crate::dpxutil::{
    blank_end, opt_bytes, parse_c_ident, parse_float_decimal, skip_blank, spec_parse_c_ident,
    spec_parse_float_decimal,
};
use crate::pdfparse::{skip_white, skip_white_end};
use crate::specials::spc_arg;
use vstd::string::StringSliceAdditionalSpecFns;
use crate::text::{has_prefix, ascii_lowercase, slice_to_vec, to_ascii_lowercase, bytes_eq};

verus! {

/// The keys of dimension and transformation specifications, in the order they are tried (`page` and `pagebox` only where a page may be chosen).
pub open spec fn dim_key(i: int) -> Seq<u8> {
    if i == 0 {
        // width
        seq![119u8, 105u8, 100u8, 116u8, 104u8]
    } else if i == 1 {
        // height
        seq![104u8, 101u8, 105u8, 103u8, 104u8, 116u8]
    } else if i == 2 {
        // depth
        seq![100u8, 101u8, 112u8, 116u8, 104u8]
    } else if i == 3 {
        // scale
        seq![115u8, 99u8, 97u8, 108u8, 101u8]
    } else if i == 4 {
        // xscale
        seq![120u8, 115u8, 99u8, 97u8, 108u8, 101u8]
    } else if i == 5 {
        // yscale
        seq![121u8, 115u8, 99u8, 97u8, 108u8, 101u8]
    } else if i == 6 {
        // rotate
        seq![114u8, 111u8, 116u8, 97u8, 116u8, 101u8]
    } else if i == 7 {
        // bbox
        seq![98u8, 98u8, 111u8, 120u8]
    } else if i == 8 {
        // matrix
        seq![109u8, 97u8, 116u8, 114u8, 105u8, 120u8]
    } else if i == 9 {
        // clip
        seq![99u8, 108u8, 105u8, 112u8]
    } else if i == 10 {
        // hide
        seq![104u8, 105u8, 100u8, 101u8]
    } else if i == 11 {
        // page
        seq![112u8, 97u8, 103u8, 101u8]
    } else if i == 12 {
        // pagebox
        seq![112u8, 97u8, 103u8, 101u8, 98u8, 111u8, 120u8]
    } else {
        Seq::<u8>::empty()
    }
}

fn dim_key_bytes(i: usize) -> (r: Vec<u8>)
    requires
        i < 13,
    ensures
        r@ == dim_key(i as int),
{
    match i {
        0 => vec![119u8, 105u8, 100u8, 116u8, 104u8], // width
        1 => vec![104u8, 101u8, 105u8, 103u8, 104u8, 116u8], // height
        2 => vec![100u8, 101u8, 112u8, 116u8, 104u8], // depth
        3 => vec![115u8, 99u8, 97u8, 108u8, 101u8], // scale
        4 => vec![120u8, 115u8, 99u8, 97u8, 108u8, 101u8], // xscale
        5 => vec![121u8, 115u8, 99u8, 97u8, 108u8, 101u8], // yscale
        6 => vec![114u8, 111u8, 116u8, 97u8, 116u8, 101u8], // rotate
        7 => vec![98u8, 98u8, 111u8, 120u8], // bbox
        8 => vec![109u8, 97u8, 116u8, 114u8, 105u8, 120u8], // matrix
        9 => vec![99u8, 108u8, 105u8, 112u8], // clip
        10 => vec![104u8, 105u8, 100u8, 101u8], // hide
        11 => vec![112u8, 97u8, 103u8, 101u8], // page
        _ => vec![112u8, 97u8, 103u8, 101u8, 98u8, 111u8, 120u8], // pagebox
    }
}

/// The units of measure of lengths, in the order they are tried.
pub open spec fn unit_key(i: int) -> Seq<u8> {
    if i == 0 {
        // pt
        seq![112u8, 116u8]
    } else if i == 1 {
        // in
        seq![105u8, 110u8]
    } else if i == 2 {
        // cm
        seq![99u8, 109u8]
    } else if i == 3 {
        // mm
        seq![109u8, 109u8]
    } else if i == 4 {
        // bp
        seq![98u8, 112u8]
    } else if i == 5 {
        // pc
        seq![112u8, 99u8]
    } else if i == 6 {
        // dd
        seq![100u8, 100u8]
    } else if i == 7 {
        // cc
        seq![99u8, 99u8]
    } else if i == 8 {
        // sp
        seq![115u8, 112u8]
    } else {
        Seq::<u8>::empty()
    }
}

fn unit_key_bytes(i: usize) -> (r: Vec<u8>)
    requires
        i < 9,
    ensures
        r@ == unit_key(i as int),
{
    match i {
        0 => vec![112u8, 116u8], // pt
        1 => vec![105u8, 110u8], // in
        2 => vec![99u8, 109u8], // cm
        3 => vec![109u8, 109u8], // mm
        4 => vec![98u8, 112u8], // bp
        5 => vec![112u8, 99u8], // pc
        6 => vec![100u8, 100u8], // dd
        7 => vec![99u8, 99u8], // cc
        _ => vec![115u8, 112u8], // sp
    }
}

/// The page boxes that `pagebox` names (lower case), numbered from 1.
pub open spec fn pagebox_key(i: int) -> Seq<u8> {
    if i == 0 {
        // cropbox
        seq![99u8, 114u8, 111u8, 112u8, 98u8, 111u8, 120u8]
    } else if i == 1 {
        // mediabox
        seq![109u8, 101u8, 100u8, 105u8, 97u8, 98u8, 111u8, 120u8]
    } else if i == 2 {
        // artbox
        seq![97u8, 114u8, 116u8, 98u8, 111u8, 120u8]
    } else if i == 3 {
        // trimbox
        seq![116u8, 114u8, 105u8, 109u8, 98u8, 111u8, 120u8]
    } else if i == 4 {
        // bleedbox
        seq![98u8, 108u8, 101u8, 101u8, 100u8, 98u8, 111u8, 120u8]
    } else {
        Seq::<u8>::empty()
    }
}

fn pagebox_key_bytes(i: usize) -> (r: Vec<u8>)
    requires
        i < 5,
    ensures
        r@ == pagebox_key(i as int),
{
    match i {
        0 => vec![99u8, 114u8, 111u8, 112u8, 98u8, 111u8, 120u8], // cropbox
        1 => vec![109u8, 101u8, 100u8, 105u8, 97u8, 98u8, 111u8, 120u8], // mediabox
        2 => vec![97u8, 114u8, 116u8, 98u8, 111u8, 120u8], // artbox
        3 => vec![116u8, 114u8, 105u8, 109u8, 98u8, 111u8, 120u8], // trimbox
        _ => vec![98u8, 108u8, 101u8, 101u8, 100u8, 98u8, 111u8, 120u8], // bleedbox
    }
}

/// The keys of the dvips syntax for dimensions and transformations, in the order they are tried.
pub open spec fn dvips_dim_key(i: int) -> Seq<u8> {
    if i == 0 {
        // hoffset
        seq![104u8, 111u8, 102u8, 102u8, 115u8, 101u8, 116u8]
    } else if i == 1 {
        // voffset
        seq![118u8, 111u8, 102u8, 102u8, 115u8, 101u8, 116u8]
    } else if i == 2 {
        // hsize
        seq![104u8, 115u8, 105u8, 122u8, 101u8]
    } else if i == 3 {
        // vsize
        seq![118u8, 115u8, 105u8, 122u8, 101u8]
    } else if i == 4 {
        // hscale
        seq![104u8, 115u8, 99u8, 97u8, 108u8, 101u8]
    } else if i == 5 {
        // vscale
        seq![118u8, 115u8, 99u8, 97u8, 108u8, 101u8]
    } else if i == 6 {
        // angle
        seq![97u8, 110u8, 103u8, 108u8, 101u8]
    } else if i == 7 {
        // clip
        seq![99u8, 108u8, 105u8, 112u8]
    } else if i == 8 {
        // llx
        seq![108u8, 108u8, 120u8]
    } else if i == 9 {
        // lly
        seq![108u8, 108u8, 121u8]
    } else if i == 10 {
        // urx
        seq![117u8, 114u8, 120u8]
    } else if i == 11 {
        // ury
        seq![117u8, 114u8, 121u8]
    } else if i == 12 {
        // rwi
        seq![114u8, 119u8, 105u8]
    } else if i == 13 {
        // rhi
        seq![114u8, 104u8, 105u8]
    } else {
        Seq::<u8>::empty()
    }
}

fn dvips_dim_key_bytes(i: usize) -> (r: Vec<u8>)
    requires
        i < 14,
    ensures
        r@ == dvips_dim_key(i as int),
{
    match i {
        0 => vec![104u8, 111u8, 102u8, 102u8, 115u8, 101u8, 116u8], // hoffset
        1 => vec![118u8, 111u8, 102u8, 102u8, 115u8, 101u8, 116u8], // voffset
        2 => vec![104u8, 115u8, 105u8, 122u8, 101u8], // hsize
        3 => vec![118u8, 115u8, 105u8, 122u8, 101u8], // vsize
        4 => vec![104u8, 115u8, 99u8, 97u8, 108u8, 101u8], // hscale
        5 => vec![118u8, 115u8, 99u8, 97u8, 108u8, 101u8], // vscale
        6 => vec![97u8, 110u8, 103u8, 108u8, 101u8], // angle
        7 => vec![99u8, 108u8, 105u8, 112u8], // clip
        8 => vec![108u8, 108u8, 120u8], // llx
        9 => vec![108u8, 108u8, 121u8], // lly
        10 => vec![117u8, 114u8, 120u8], // urx
        11 => vec![117u8, 114u8, 121u8], // ury
        12 => vec![114u8, 119u8, 105u8], // rwi
        _ => vec![114u8, 104u8, 105u8], // rhi
    }
}

/// The index of the first of the `n` keys of `keys` from the `i`th on that is `v`.
pub open spec fn first_match(keys: spec_fn(int) -> Seq<u8>, n: int, v: Seq<u8>, i: int) -> Option<
    int,
>
    decreases n - i,
{
    if i < 0 || i >= n {
        None
    } else if keys(i) == v {
        Some(i)
    } else {
        first_match(keys, n, v, i + 1)
    }
}

/// The byte strings of a list of vectors.
pub open spec fn vecs_view(v: Seq<Vec<u8>>) -> Seq<Seq<u8>> {
    v.map_values(|x: Vec<u8>| x@)
}

/// Moves the read position past blanks (space, tab).
pub fn skip_blank_arg(ap: &mut spc_arg)
    requires
        old(ap).wf(),
    ensures
        final(ap).wf(),
        final(ap).buf@ == old(ap).buf@,
        final(ap).command == old(ap).command,
        final(ap).curptr == blank_end(old(ap).buf@, old(ap).curptr as int, old(ap).buf@.len() as int),
        old(ap).curptr <= final(ap).curptr,
{
    ap.curptr = skip_blank(ap.buf.as_slice(), ap.curptr, ap.buf.len());
}

/// Up to `k` numbers read from `p` (each as `parse_float_decimal` reads it, with blanks after
/// it skipped), stopping at the end of the text or at the first thing that is not a number;
/// and where reading stands after.
pub open spec fn numbers_from(s: Seq<u8>, p: int, k: nat) -> (Seq<Seq<u8>>, int)
    decreases k,
{
    if k == 0 || p >= s.len() {
        (Seq::empty(), p)
    } else {
        let (q, p1) = spec_parse_float_decimal(s, p, s.len() as int);
        match q {
            None => (Seq::empty(), p1),
            Some(v) => {
                let (rest, pe) = numbers_from(s, blank_end(s, p1, s.len() as int), (k - 1) as nat);
                (seq![v] + rest, pe)
            },
        }
    }
}

/// What `spc_util_read_numbers` reads from `cur`: blanks, then up to `k` numbers.
pub open spec fn read_numbers_spec(s: Seq<u8>, cur: int, k: nat) -> (Seq<Seq<u8>>, int) {
    numbers_from(s, blank_end(s, cur, s.len() as int), k)
}

pub proof fn lemma_blank_end(s: Seq<u8>, i: int, end: int)
    requires
        0 <= i <= end <= s.len(),
    ensures
        i <= blank_end(s, i, end) <= end,
    decreases end - i,
{
    if i < end && (s[i] == 32 || s[i] == 9) {
        lemma_blank_end(s, i + 1, end);
    }
}

pub proof fn lemma_numbers_from(s: Seq<u8>, p: int, k: nat)
    requires
        0 <= p <= s.len(),
    ensures
        p <= numbers_from(s, p, k).1 <= s.len(),
        numbers_from(s, p, k).0.len() <= k,
    decreases k,
{
    if k != 0 && p < s.len() {
        let (q, p1) = spec_parse_float_decimal(s, p, s.len() as int);
        crate::dpxutil::lemma_parse_float_decimal(s, p, s.len() as int);
        if q is Some {
            lemma_blank_end(s, p1, s.len() as int);
            lemma_numbers_from(s, blank_end(s, p1, s.len() as int), (k - 1) as nat);
        }
    }
}

/// Reads up to `k` numbers from the special (see `read_numbers_spec`); each comes as its text.
pub fn spc_util_read_numbers(k: usize, args: &mut spc_arg) -> (r: Vec<Vec<u8>>)
    requires
        old(args).wf(),
    ensures
        final(args).wf(),
        final(args).buf@ == old(args).buf@,
        final(args).command == old(args).command,
        old(args).curptr <= final(args).curptr,
        (vecs_view(r@), final(args).curptr as int) == read_numbers_spec(
            old(args).buf@,
            old(args).curptr as int,
            k as nat,
        ),
        r@.len() <= k,
{
    let ghost s = args.buf@;
    skip_blank_arg(args);
    let ghost p0 = args.curptr as int;
    let mut out: Vec<Vec<u8>> = Vec::new();
    let mut stop = false;
    proof {
        lemma_numbers_from(s, p0, k as nat);
    }
    while !stop && out.len() < k && args.curptr < args.buf.len()
        invariant
            args.wf(),
            args.buf@ == s,
            args.command == old(args).command,
            old(args).curptr <= args.curptr,
            out@.len() <= k,
            !stop ==> numbers_from(s, p0, k as nat) == (
                vecs_view(out@) + numbers_from(s, args.curptr as int, (k - out@.len()) as nat).0,
                numbers_from(s, args.curptr as int, (k - out@.len()) as nat).1,
            ),
            stop ==> numbers_from(s, p0, k as nat) == (vecs_view(out@), args.curptr as int),
        decreases s.len() - args.curptr, if stop { 0int } else { 1int },
    {
        let ghost c = args.curptr as int;
        let ghost m = (k - out@.len()) as nat;
        let (q, p1) = parse_float_decimal(args.buf.as_slice(), args.curptr, args.buf.len());
        args.curptr = p1;
        match q {
            None => {
                stop = true;
                assert(vecs_view(out@) + Seq::<Seq<u8>>::empty() =~= vecs_view(out@));
            },
            Some(v) => {
                let ghost o = vecs_view(out@);
                out.push(v);
                assert(vecs_view(out@) =~= o.push(v@));
                proof {
                    crate::dpxutil::lemma_parse_float_decimal(s, c, s.len() as int);
                }
                skip_blank_arg(args);
                let ghost rest = numbers_from(s, args.curptr as int, (m - 1) as nat);
                assert(numbers_from(s, c, m) == (seq![v@] + rest.0, rest.1));
                assert(o + (seq![v@] + rest.0) =~= o.push(v@) + rest.0);
            },
        }
    }
    proof {
        if !stop {
            assert(numbers_from(s, args.curptr as int, (k - out@.len()) as nat).0 =~= Seq::<
                Seq<u8>,
            >::empty());
            assert(vecs_view(out@) + Seq::<Seq<u8>>::empty() =~= vecs_view(out@));
        }
    }
    out
}

/// `true`: the prefix of a unit that is not to be magnified.
pub open spec fn true_word() -> Seq<u8> {
    seq![116u8, 114u8, 117u8, 101u8]
}

/// The unit of a length as read.
#[derive(Debug, PartialEq)]
pub enum LengthUnit {
    /// No unit: the number is in big points.
    Unitless,
    /// The `index`th unit of `unit_key`.
    Known { index: u8 },
    /// A unit that is not one of `unit_key` (an error).
    Unknown { name: Vec<u8> },
    /// `true` with no unit after it (an error).
    MissingAfterTrue,
}

pub enum LengthUnitView {
    Unitless,
    Known { index: int },
    Unknown { name: Seq<u8> },
    MissingAfterTrue,
}

impl View for LengthUnit {
    type V = LengthUnitView;

    open spec fn view(&self) -> LengthUnitView {
        match self {
            LengthUnit::Unitless => LengthUnitView::Unitless,
            LengthUnit::Known { index } => LengthUnitView::Known { index: *index as int },
            LengthUnit::Unknown { name } => LengthUnitView::Unknown { name: name@ },
            LengthUnit::MissingAfterTrue => LengthUnitView::MissingAfterTrue,
        }
    }
}

/// A length as read from a special: the text of the number, whether the unit was `true` (not to
/// be magnified), and the unit.
#[derive(Debug, PartialEq)]
pub struct LengthRead {
    pub number: Vec<u8>,
    pub is_true: bool,
    pub unit: LengthUnit,
}

pub struct LengthReadView {
    pub number: Seq<u8>,
    pub is_true: bool,
    pub unit: LengthUnitView,
}

impl View for LengthRead {
    type V = LengthReadView;

    open spec fn view(&self) -> LengthReadView {
        LengthReadView { number: self.number@, is_true: self.is_true, unit: self.unit@ }
    }
}

/// The unit that `u` names.
pub open spec fn unit_of(u: Seq<u8>) -> LengthUnitView {
    match first_match(|i: int| unit_key(i), 9, u, 0) {
        Some(k) => LengthUnitView::Known { index: k },
        None => LengthUnitView::Unknown { name: u },
    }
}

/// The units of a length and their numbers: `pt` 0, `in` 1, `cm` 2, `mm` 3, `bp` 4, `pc` 5,
/// `dd` 6, `cc` 7, `sp` 8; any other word is an unknown unit.
pub proof fn law_unit_names(u: Seq<u8>)
    ensures
        unit_of(u) == (if u == seq![112u8, 116u8] {
            LengthUnitView::Known { index: 0 }
        } else if u == seq![105u8, 110u8] {
            LengthUnitView::Known { index: 1 }
        } else if u == seq![99u8, 109u8] {
            LengthUnitView::Known { index: 2 }
        } else if u == seq![109u8, 109u8] {
            LengthUnitView::Known { index: 3 }
        } else if u == seq![98u8, 112u8] {
            LengthUnitView::Known { index: 4 }
        } else if u == seq![112u8, 99u8] {
            LengthUnitView::Known { index: 5 }
        } else if u == seq![100u8, 100u8] {
            LengthUnitView::Known { index: 6 }
        } else if u == seq![99u8, 99u8] {
            LengthUnitView::Known { index: 7 }
        } else if u == seq![115u8, 112u8] {
            LengthUnitView::Known { index: 8 }
        } else {
            LengthUnitView::Unknown { name: u }
        }),
{
    reveal_with_fuel(first_match, 10);
}

/// What `spc_util_read_length` reads from `cur`: a number (`None` when there is none), then
/// after white space an optional unit, which may start with `true` (then, when nothing follows
/// `true` in the same word, the unit is the next word); and where reading stands after.
pub open spec fn read_length_spec(s: Seq<u8>, cur: int) -> (Option<LengthReadView>, int) {
    let n = s.len() as int;
    let (q, p1) = spec_parse_float_decimal(s, cur, n);
    match q {
        None => (None, p1),
        Some(num) => {
            let (id, p3) = spec_parse_c_ident(s, skip_white_end(s, p1), n);
            match id {
                None => (Some(LengthReadView { number: num, is_true: false, unit: LengthUnitView::Unitless }), p3),
                Some(w) => if has_prefix(w, true_word()) {
                    if w.len() == 4 {
                        let (id2, p5) = spec_parse_c_ident(s, skip_white_end(s, p3), n);
                        match id2 {
                            None => (
                                Some(LengthReadView { number: num, is_true: true, unit: LengthUnitView::MissingAfterTrue }),
                                p5,
                            ),
                            Some(u) => (Some(LengthReadView { number: num, is_true: true, unit: unit_of(u) }), p5),
                        }
                    } else {
                        (
                            Some(LengthReadView { number: num, is_true: true, unit: unit_of(w.subrange(4, w.len() as int)) }),
                            p3,
                        )
                    }
                } else {
                    (Some(LengthReadView { number: num, is_true: false, unit: unit_of(w) }), p3)
                },
            }
        },
    }
}

fn unit_named(u: Vec<u8>) -> (r: LengthUnit)
    ensures
        r@ == unit_of(u@),
{
    let mut i: usize = 0;
    while i < 9
        invariant
            i <= 9,
            first_match(|i: int| unit_key(i), 9, u@, 0) == first_match(|i: int| unit_key(i), 9, u@, i as int),
        decreases 9 - i,
    {
        let k = unit_key_bytes(i);
        if bytes_eq(k.as_slice(), u.as_slice()) {
            return LengthUnit::Known { index: i as u8 };
        }
        i = i + 1;
    }
    LengthUnit::Unknown { name: u }
}

/// Reads a length (see `read_length_spec`). `None` is an error with nothing read; a unit that
/// is unknown or missing after `true` is an error too, but its number is still taken.
pub fn spc_util_read_length(ap: &mut spc_arg) -> (r: Option<LengthRead>)
    requires
        old(ap).wf(),
    ensures
        final(ap).wf(),
        final(ap).buf@ == old(ap).buf@,
        final(ap).command == old(ap).command,
        old(ap).curptr <= final(ap).curptr,
        (match r {
            Some(l) => Some(l@),
            None => None,
        }, final(ap).curptr as int) == read_length_spec(old(ap).buf@, old(ap).curptr as int),
{
    let ghost s = ap.buf@;
    let (q, p1) = parse_float_decimal(ap.buf.as_slice(), ap.curptr, ap.buf.len());
    ap.curptr = p1;
    let num = match q {
        None => {
            return None;
        },
        Some(v) => v,
    };
    let p2 = skip_white(ap.buf.as_slice(), p1);
    let (id, p3) = parse_c_ident(ap.buf.as_slice(), p2, ap.buf.len());
    ap.curptr = p3;
    let w = match id {
        None => {
            return Some(LengthRead { number: num, is_true: false, unit: LengthUnit::Unitless });
        },
        Some(w) => w,
    };
    let tw: [u8; 4] = [116u8, 114u8, 117u8, 101u8];
    assert(tw@ == true_word());
    if crate::text::starts_with(w.as_slice(), tw.as_slice()) {
        if w.len() == 4 {
            let p4 = skip_white(ap.buf.as_slice(), p3);
            let (id2, p5) = parse_c_ident(ap.buf.as_slice(), p4, ap.buf.len());
            ap.curptr = p5;
            match id2 {
                None => Some(LengthRead { number: num, is_true: true, unit: LengthUnit::MissingAfterTrue }),
                Some(u) => Some(LengthRead { number: num, is_true: true, unit: unit_named(u) }),
            }
        } else {
            let rest = slice_to_vec(&w.as_slice()[4..w.len()]);
            Some(LengthRead { number: num, is_true: true, unit: unit_named(rest) })
        }
    } else {
        Some(LengthRead { number: num, is_true: false, unit: unit_named(w) })
    }
}

/// A colour of the table of named colours, its components in hundredths.
#[derive(PartialEq, Eq, Structural, Clone, Copy, Debug)]
pub enum NamedColor {
    Cmyk(u8, u8, u8, u8),
    Gray(u8),
}

/// An entry of the table of named colours.
pub struct Colordef {
    pub key: &'static str,
    pub color: NamedColor,
}

impl Colordef {
    /// The entry that names `color` `key`.
    pub fn new(key: &'static str, color: NamedColor) -> (r: Colordef)
        ensures
            r.key == key,
            r.color == color,
    {
        Colordef { key, color }
    }
}

/// The named colours that colour specifications may use, in the order they are tried.
pub open spec fn colordef_spec(i: int) -> (&'static str, NamedColor) {
    if i == 0 {
        ("GreenYellow", NamedColor::Cmyk(15u8, 0u8, 69u8, 0u8))
    } else if i == 1 {
        ("Yellow", NamedColor::Cmyk(0u8, 0u8, 100u8, 0u8))
    } else if i == 2 {
        ("Goldenrod", NamedColor::Cmyk(0u8, 10u8, 84u8, 0u8))
    } else if i == 3 {
        ("Dandelion", NamedColor::Cmyk(0u8, 29u8, 84u8, 0u8))
    } else if i == 4 {
        ("Apricot", NamedColor::Cmyk(0u8, 32u8, 52u8, 0u8))
    } else if i == 5 {
        ("Peach", NamedColor::Cmyk(0u8, 50u8, 70u8, 0u8))
    } else if i == 6 {
        ("Melon", NamedColor::Cmyk(0u8, 46u8, 50u8, 0u8))
    } else if i == 7 {
        ("YellowOrange", NamedColor::Cmyk(0u8, 42u8, 100u8, 0u8))
    } else if i == 8 {
        ("Orange", NamedColor::Cmyk(0u8, 61u8, 87u8, 0u8))
    } else if i == 9 {
        ("BurntOrange", NamedColor::Cmyk(0u8, 51u8, 100u8, 0u8))
    } else if i == 10 {
        ("Bittersweet", NamedColor::Cmyk(0u8, 75u8, 100u8, 24u8))
    } else if i == 11 {
        ("RedOrange", NamedColor::Cmyk(0u8, 77u8, 87u8, 0u8))
    } else if i == 12 {
        ("Mahogany", NamedColor::Cmyk(0u8, 85u8, 87u8, 35u8))
    } else if i == 13 {
        ("Maroon", NamedColor::Cmyk(0u8, 87u8, 68u8, 32u8))
    } else if i == 14 {
        ("BrickRed", NamedColor::Cmyk(0u8, 89u8, 94u8, 28u8))
    } else if i == 15 {
        ("Red", NamedColor::Cmyk(0u8, 100u8, 100u8, 0u8))
    } else if i == 16 {
        ("OrangeRed", NamedColor::Cmyk(0u8, 100u8, 50u8, 0u8))
    } else if i == 17 {
        ("RubineRed", NamedColor::Cmyk(0u8, 100u8, 13u8, 0u8))
    } else if i == 18 {
        ("WildStrawberry", NamedColor::Cmyk(0u8, 96u8, 39u8, 0u8))
    } else if i == 19 {
        ("Salmon", NamedColor::Cmyk(0u8, 53u8, 38u8, 0u8))
    } else if i == 20 {
        ("CarnationPink", NamedColor::Cmyk(0u8, 63u8, 0u8, 0u8))
    } else if i == 21 {
        ("Magenta", NamedColor::Cmyk(0u8, 100u8, 0u8, 0u8))
    } else if i == 22 {
        ("VioletRed", NamedColor::Cmyk(0u8, 81u8, 0u8, 0u8))
    } else if i == 23 {
        ("Rhodamine", NamedColor::Cmyk(0u8, 82u8, 0u8, 0u8))
    } else if i == 24 {
        ("Mulberry", NamedColor::Cmyk(34u8, 90u8, 0u8, 2u8))
    } else if i == 25 {
        ("RedViolet", NamedColor::Cmyk(7u8, 90u8, 0u8, 34u8))
    } else if i == 26 {
        ("Fuchsia", NamedColor::Cmyk(47u8, 91u8, 0u8, 8u8))
    } else if i == 27 {
        ("Lavender", NamedColor::Cmyk(0u8, 48u8, 0u8, 0u8))
    } else if i == 28 {
        ("Thistle", NamedColor::Cmyk(12u8, 59u8, 0u8, 0u8))
    } else if i == 29 {
        ("Orchid", NamedColor::Cmyk(32u8, 64u8, 0u8, 0u8))
    } else if i == 30 {
        ("DarkOrchid", NamedColor::Cmyk(40u8, 80u8, 20u8, 0u8))
    } else if i == 31 {
        ("Purple", NamedColor::Cmyk(45u8, 86u8, 0u8, 0u8))
    } else if i == 32 {
        ("Plum", NamedColor::Cmyk(50u8, 100u8, 0u8, 0u8))
    } else if i == 33 {
        ("Violet", NamedColor::Cmyk(79u8, 88u8, 0u8, 0u8))
    } else if i == 34 {
        ("RoyalPurple", NamedColor::Cmyk(75u8, 90u8, 0u8, 0u8))
    } else if i == 35 {
        ("BlueViolet", NamedColor::Cmyk(86u8, 91u8, 0u8, 4u8))
    } else if i == 36 {
        ("Periwinkle", NamedColor::Cmyk(57u8, 55u8, 0u8, 0u8))
    } else if i == 37 {
        ("CadetBlue", NamedColor::Cmyk(62u8, 57u8, 23u8, 0u8))
    } else if i == 38 {
        ("CornflowerBlue", NamedColor::Cmyk(65u8, 13u8, 0u8, 0u8))
    } else if i == 39 {
        ("MidnightBlue", NamedColor::Cmyk(98u8, 13u8, 0u8, 43u8))
    } else if i == 40 {
        ("NavyBlue", NamedColor::Cmyk(94u8, 54u8, 0u8, 0u8))
    } else if i == 41 {
        ("RoyalBlue", NamedColor::Cmyk(100u8, 50u8, 0u8, 0u8))
    } else if i == 42 {
        ("Blue", NamedColor::Cmyk(100u8, 100u8, 0u8, 0u8))
    } else if i == 43 {
        ("Cerulean", NamedColor::Cmyk(94u8, 11u8, 0u8, 0u8))
    } else if i == 44 {
        ("Cyan", NamedColor::Cmyk(100u8, 0u8, 0u8, 0u8))
    } else if i == 45 {
        ("ProcessBlue", NamedColor::Cmyk(96u8, 0u8, 0u8, 0u8))
    } else if i == 46 {
        ("SkyBlue", NamedColor::Cmyk(62u8, 0u8, 12u8, 0u8))
    } else if i == 47 {
        ("Turquoise", NamedColor::Cmyk(85u8, 0u8, 20u8, 0u8))
    } else if i == 48 {
        ("TealBlue", NamedColor::Cmyk(86u8, 0u8, 34u8, 2u8))
    } else if i == 49 {
        ("Aquamarine", NamedColor::Cmyk(82u8, 0u8, 30u8, 0u8))
    } else if i == 50 {
        ("BlueGreen", NamedColor::Cmyk(85u8, 0u8, 33u8, 0u8))
    } else if i == 51 {
        ("Emerald", NamedColor::Cmyk(100u8, 0u8, 50u8, 0u8))
    } else if i == 52 {
        ("JungleGreen", NamedColor::Cmyk(99u8, 0u8, 52u8, 0u8))
    } else if i == 53 {
        ("SeaGreen", NamedColor::Cmyk(69u8, 0u8, 50u8, 0u8))
    } else if i == 54 {
        ("Green", NamedColor::Cmyk(100u8, 0u8, 100u8, 0u8))
    } else if i == 55 {
        ("ForestGreen", NamedColor::Cmyk(91u8, 0u8, 88u8, 12u8))
    } else if i == 56 {
        ("PineGreen", NamedColor::Cmyk(92u8, 0u8, 59u8, 25u8))
    } else if i == 57 {
        ("LimeGreen", NamedColor::Cmyk(50u8, 0u8, 100u8, 0u8))
    } else if i == 58 {
        ("YellowGreen", NamedColor::Cmyk(44u8, 0u8, 74u8, 0u8))
    } else if i == 59 {
        ("SpringGreen", NamedColor::Cmyk(26u8, 0u8, 76u8, 0u8))
    } else if i == 60 {
        ("OliveGreen", NamedColor::Cmyk(64u8, 0u8, 95u8, 40u8))
    } else if i == 61 {
        ("RawSienna", NamedColor::Cmyk(0u8, 72u8, 100u8, 45u8))
    } else if i == 62 {
        ("Sepia", NamedColor::Cmyk(0u8, 83u8, 100u8, 70u8))
    } else if i == 63 {
        ("Brown", NamedColor::Cmyk(0u8, 81u8, 100u8, 60u8))
    } else if i == 64 {
        ("Tan", NamedColor::Cmyk(14u8, 42u8, 56u8, 0u8))
    } else if i == 65 {
        ("Gray", NamedColor::Gray(50u8))
    } else if i == 66 {
        ("Black", NamedColor::Gray(0u8))
    } else if i == 67 {
        ("White", NamedColor::Gray(100u8))
    } else {
        ("", NamedColor::Gray(0u8))
    }
}

fn colordef_at(i: usize) -> (r: Colordef)
    requires
        i < 68,
    ensures
        (r.key, r.color) == colordef_spec(i as int),
{
    match i {
        0 => Colordef::new("GreenYellow", NamedColor::Cmyk(15u8, 0u8, 69u8, 0u8)),
        1 => Colordef::new("Yellow", NamedColor::Cmyk(0u8, 0u8, 100u8, 0u8)),
        2 => Colordef::new("Goldenrod", NamedColor::Cmyk(0u8, 10u8, 84u8, 0u8)),
        3 => Colordef::new("Dandelion", NamedColor::Cmyk(0u8, 29u8, 84u8, 0u8)),
        4 => Colordef::new("Apricot", NamedColor::Cmyk(0u8, 32u8, 52u8, 0u8)),
        5 => Colordef::new("Peach", NamedColor::Cmyk(0u8, 50u8, 70u8, 0u8)),
        6 => Colordef::new("Melon", NamedColor::Cmyk(0u8, 46u8, 50u8, 0u8)),
        7 => Colordef::new("YellowOrange", NamedColor::Cmyk(0u8, 42u8, 100u8, 0u8)),
        8 => Colordef::new("Orange", NamedColor::Cmyk(0u8, 61u8, 87u8, 0u8)),
        9 => Colordef::new("BurntOrange", NamedColor::Cmyk(0u8, 51u8, 100u8, 0u8)),
        10 => Colordef::new("Bittersweet", NamedColor::Cmyk(0u8, 75u8, 100u8, 24u8)),
        11 => Colordef::new("RedOrange", NamedColor::Cmyk(0u8, 77u8, 87u8, 0u8)),
        12 => Colordef::new("Mahogany", NamedColor::Cmyk(0u8, 85u8, 87u8, 35u8)),
        13 => Colordef::new("Maroon", NamedColor::Cmyk(0u8, 87u8, 68u8, 32u8)),
        14 => Colordef::new("BrickRed", NamedColor::Cmyk(0u8, 89u8, 94u8, 28u8)),
        15 => Colordef::new("Red", NamedColor::Cmyk(0u8, 100u8, 100u8, 0u8)),
        16 => Colordef::new("OrangeRed", NamedColor::Cmyk(0u8, 100u8, 50u8, 0u8)),
        17 => Colordef::new("RubineRed", NamedColor::Cmyk(0u8, 100u8, 13u8, 0u8)),
        18 => Colordef::new("WildStrawberry", NamedColor::Cmyk(0u8, 96u8, 39u8, 0u8)),
        19 => Colordef::new("Salmon", NamedColor::Cmyk(0u8, 53u8, 38u8, 0u8)),
        20 => Colordef::new("CarnationPink", NamedColor::Cmyk(0u8, 63u8, 0u8, 0u8)),
        21 => Colordef::new("Magenta", NamedColor::Cmyk(0u8, 100u8, 0u8, 0u8)),
        22 => Colordef::new("VioletRed", NamedColor::Cmyk(0u8, 81u8, 0u8, 0u8)),
        23 => Colordef::new("Rhodamine", NamedColor::Cmyk(0u8, 82u8, 0u8, 0u8)),
        24 => Colordef::new("Mulberry", NamedColor::Cmyk(34u8, 90u8, 0u8, 2u8)),
        25 => Colordef::new("RedViolet", NamedColor::Cmyk(7u8, 90u8, 0u8, 34u8)),
        26 => Colordef::new("Fuchsia", NamedColor::Cmyk(47u8, 91u8, 0u8, 8u8)),
        27 => Colordef::new("Lavender", NamedColor::Cmyk(0u8, 48u8, 0u8, 0u8)),
        28 => Colordef::new("Thistle", NamedColor::Cmyk(12u8, 59u8, 0u8, 0u8)),
        29 => Colordef::new("Orchid", NamedColor::Cmyk(32u8, 64u8, 0u8, 0u8)),
        30 => Colordef::new("DarkOrchid", NamedColor::Cmyk(40u8, 80u8, 20u8, 0u8)),
        31 => Colordef::new("Purple", NamedColor::Cmyk(45u8, 86u8, 0u8, 0u8)),
        32 => Colordef::new("Plum", NamedColor::Cmyk(50u8, 100u8, 0u8, 0u8)),
        33 => Colordef::new("Violet", NamedColor::Cmyk(79u8, 88u8, 0u8, 0u8)),
        34 => Colordef::new("RoyalPurple", NamedColor::Cmyk(75u8, 90u8, 0u8, 0u8)),
        35 => Colordef::new("BlueViolet", NamedColor::Cmyk(86u8, 91u8, 0u8, 4u8)),
        36 => Colordef::new("Periwinkle", NamedColor::Cmyk(57u8, 55u8, 0u8, 0u8)),
        37 => Colordef::new("CadetBlue", NamedColor::Cmyk(62u8, 57u8, 23u8, 0u8)),
        38 => Colordef::new("CornflowerBlue", NamedColor::Cmyk(65u8, 13u8, 0u8, 0u8)),
        39 => Colordef::new("MidnightBlue", NamedColor::Cmyk(98u8, 13u8, 0u8, 43u8)),
        40 => Colordef::new("NavyBlue", NamedColor::Cmyk(94u8, 54u8, 0u8, 0u8)),
        41 => Colordef::new("RoyalBlue", NamedColor::Cmyk(100u8, 50u8, 0u8, 0u8)),
        42 => Colordef::new("Blue", NamedColor::Cmyk(100u8, 100u8, 0u8, 0u8)),
        43 => Colordef::new("Cerulean", NamedColor::Cmyk(94u8, 11u8, 0u8, 0u8)),
        44 => Colordef::new("Cyan", NamedColor::Cmyk(100u8, 0u8, 0u8, 0u8)),
        45 => Colordef::new("ProcessBlue", NamedColor::Cmyk(96u8, 0u8, 0u8, 0u8)),
        46 => Colordef::new("SkyBlue", NamedColor::Cmyk(62u8, 0u8, 12u8, 0u8)),
        47 => Colordef::new("Turquoise", NamedColor::Cmyk(85u8, 0u8, 20u8, 0u8)),
        48 => Colordef::new("TealBlue", NamedColor::Cmyk(86u8, 0u8, 34u8, 2u8)),
        49 => Colordef::new("Aquamarine", NamedColor::Cmyk(82u8, 0u8, 30u8, 0u8)),
        50 => Colordef::new("BlueGreen", NamedColor::Cmyk(85u8, 0u8, 33u8, 0u8)),
        51 => Colordef::new("Emerald", NamedColor::Cmyk(100u8, 0u8, 50u8, 0u8)),
        52 => Colordef::new("JungleGreen", NamedColor::Cmyk(99u8, 0u8, 52u8, 0u8)),
        53 => Colordef::new("SeaGreen", NamedColor::Cmyk(69u8, 0u8, 50u8, 0u8)),
        54 => Colordef::new("Green", NamedColor::Cmyk(100u8, 0u8, 100u8, 0u8)),
        55 => Colordef::new("ForestGreen", NamedColor::Cmyk(91u8, 0u8, 88u8, 12u8)),
        56 => Colordef::new("PineGreen", NamedColor::Cmyk(92u8, 0u8, 59u8, 25u8)),
        57 => Colordef::new("LimeGreen", NamedColor::Cmyk(50u8, 0u8, 100u8, 0u8)),
        58 => Colordef::new("YellowGreen", NamedColor::Cmyk(44u8, 0u8, 74u8, 0u8)),
        59 => Colordef::new("SpringGreen", NamedColor::Cmyk(26u8, 0u8, 76u8, 0u8)),
        60 => Colordef::new("OliveGreen", NamedColor::Cmyk(64u8, 0u8, 95u8, 40u8)),
        61 => Colordef::new("RawSienna", NamedColor::Cmyk(0u8, 72u8, 100u8, 45u8)),
        62 => Colordef::new("Sepia", NamedColor::Cmyk(0u8, 83u8, 100u8, 70u8)),
        63 => Colordef::new("Brown", NamedColor::Cmyk(0u8, 81u8, 100u8, 60u8)),
        64 => Colordef::new("Tan", NamedColor::Cmyk(14u8, 42u8, 56u8, 0u8)),
        65 => Colordef::new("Gray", NamedColor::Gray(50u8)),
        66 => Colordef::new("Black", NamedColor::Gray(0u8)),
        _ => Colordef::new("White", NamedColor::Gray(100u8)),
    }
}

/// The index of the first named colour from the `i`th on whose name is `name`.
pub open spec fn named_color_index(name: Seq<u8>, i: int) -> Option<int>
    decreases 68 - i,
{
    if i < 0 || i >= 68 {
        None
    } else if colordef_spec(i).0.spec_bytes() == name {
        Some(i)
    } else {
        named_color_index(name, i + 1)
    }
}

/// The colour that `name` names in the table of named colours, if any.
pub open spec fn spec_named_color(name: Seq<u8>) -> Option<NamedColor> {
    match named_color_index(name, 0) {
        Some(i) => Some(colordef_spec(i).1),
        None => None,
    }
}

/// Looks a colour up by name in the table of named colours.
pub fn pdf_color_namedcolor(name: &[u8]) -> (r: Option<NamedColor>)
    ensures
        r == spec_named_color(name@),
{
    let mut i: usize = 0;
    while i < 68
        invariant
            i <= 68,
            named_color_index(name@, 0) == named_color_index(name@, i as int),
        decreases 68 - i,
    {
        let d = colordef_at(i);
        if bytes_eq(d.key.as_bytes(), name) {
            return Some(d.color);
        }
        i = i + 1;
    }
    None
}

/// The colour spaces of colour values.
#[derive(PartialEq, Eq, Structural, Clone, Copy, Debug)]
pub enum ColorSpace {
    Rgb,
    Cmyk,
    Gray,
    Hsb,
}

/// A colour as read from a special: values (as their texts) in a colour space, a spot colour
/// with its tint, or a named colour.
#[derive(Debug, PartialEq)]
pub enum ColorSpec {
    Values { space: ColorSpace, values: Vec<Vec<u8>> },
    Spot { name: Vec<u8>, value: Vec<u8> },
    Named { color: NamedColor },
}

pub enum ColorSpecView {
    Values { space: ColorSpace, values: Seq<Seq<u8>> },
    Spot { name: Seq<u8>, value: Seq<u8> },
    Named { color: NamedColor },
}

impl View for ColorSpec {
    type V = ColorSpecView;

    open spec fn view(&self) -> ColorSpecView {
        match self {
            ColorSpec::Values { space, values } => ColorSpecView::Values {
                space: *space,
                values: vecs_view(values@),
            },
            ColorSpec::Spot { name, value } => ColorSpecView::Spot {
                name: name@,
                value: value@,
            },
            ColorSpec::Named { color } => ColorSpecView::Named { color: *color },
        }
    }
}

/// Why a colour could not be read.
#[derive(Debug, PartialEq)]
pub enum ColorError {
    /// Nothing left in the special.
    Empty,
    /// No colour name or keyword where one was due.
    NoColor,
    /// Too few values for the colour space.
    BadValues { space: ColorSpace },
    /// `spot` with no colour name.
    NoSpotName,
    /// `spot NAME` without its tint.
    BadSpotValue,
    /// A name that the table of named colours lacks.
    UnknownName { name: Vec<u8> },
    /// `[` without its `]`.
    Unbalanced,
}

pub enum ColorErrorView {
    Empty,
    NoColor,
    BadValues { space: ColorSpace },
    NoSpotName,
    BadSpotValue,
    UnknownName { name: Seq<u8> },
    Unbalanced,
}

impl View for ColorError {
    type V = ColorErrorView;

    open spec fn view(&self) -> ColorErrorView {
        match self {
            ColorError::Empty => ColorErrorView::Empty,
            ColorError::NoColor => ColorErrorView::NoColor,
            ColorError::BadValues { space } => ColorErrorView::BadValues { space: *space },
            ColorError::NoSpotName => ColorErrorView::NoSpotName,
            ColorError::BadSpotValue => ColorErrorView::BadSpotValue,
            ColorError::UnknownName { name } => ColorErrorView::UnknownName { name: name@ },
            ColorError::Unbalanced => ColorErrorView::Unbalanced,
        }
    }
}

pub open spec fn color_result_view(r: Result<ColorSpec, ColorError>) -> Result<
    ColorSpecView,
    ColorErrorView,
> {
    match r {
        Ok(c) => Ok(c@),
        Err(e) => Err(e@),
    }
}

/// The keywords of colour spaces: `rgb`, `cmyk`, `gray`, `spot`, `hsb`.
pub open spec fn rgb_word() -> Seq<u8> {
    seq![114u8, 103u8, 98u8]
}

pub open spec fn cmyk_word() -> Seq<u8> {
    seq![99u8, 109u8, 121u8, 107u8]
}

pub open spec fn gray_word() -> Seq<u8> {
    seq![103u8, 114u8, 97u8, 121u8]
}

pub open spec fn spot_word() -> Seq<u8> {
    seq![115u8, 112u8, 111u8, 116u8]
}

pub open spec fn hsb_word() -> Seq<u8> {
    seq![104u8, 115u8, 98u8]
}

/// `k` values read at `p` in colour space `space`: the colour when all `k` came.
pub open spec fn values_color(s: Seq<u8>, p: int, space: ColorSpace, k: nat) -> (Result<
    ColorSpecView,
    ColorErrorView,
>, int) {
    let (nums, q) = read_numbers_spec(s, p, k);
    if nums.len() == k {
        (Ok(ColorSpecView::Values { space, values: nums }), q)
    } else {
        (Err(ColorErrorView::BadValues { space }), q)
    }
}

/// A colour given by name at the end of a colour specification.
pub open spec fn named_color_result(name: Seq<u8>) -> Result<ColorSpecView, ColorErrorView> {
    match spec_named_color(name) {
        Some(c) => Ok(ColorSpecView::Named { color: c }),
        None => Err(ColorErrorView::UnknownName { name }),
    }
}

/// What the `color`-special syntax reads at `cur`: a keyword (`rgb`, `cmyk`, `gray` with 3, 4
/// or 1 values; `spot NAME` with 1 value; `hsb` with 3 values) or a colour name; and where
/// reading stands after.
pub open spec fn read_color_color_spec(s: Seq<u8>, cur: int) -> (Result<
    ColorSpecView,
    ColorErrorView,
>, int) {
    let n = s.len() as int;
    let (q, p1) = spec_parse_c_ident(s, cur, n);
    match q {
        None => (Err(ColorErrorView::NoColor), p1),
        Some(w) => {
            let p2 = blank_end(s, p1, n);
            if w == rgb_word() {
                values_color(s, p2, ColorSpace::Rgb, 3)
            } else if w == cmyk_word() {
                values_color(s, p2, ColorSpace::Cmyk, 4)
            } else if w == gray_word() {
                values_color(s, p2, ColorSpace::Gray, 1)
            } else if w == spot_word() {
                let (name, p3) = spec_parse_c_ident(s, p2, n);
                match name {
                    None => (Err(ColorErrorView::NoSpotName), p3),
                    Some(nm) => {
                        let (nums, p4) = read_numbers_spec(s, blank_end(s, p3, n), 1);
                        if nums.len() == 1 {
                            (Ok(ColorSpecView::Spot { name: nm, value: nums[0] }), p4)
                        } else {
                            (Err(ColorErrorView::BadSpotValue), p4)
                        }
                    },
                }
            } else if w == hsb_word() {
                values_color(s, p2, ColorSpace::Hsb, 3)
            } else {
                (named_color_result(w), p2)
            }
        },
    }
}

fn read_values_color(ap: &mut spc_arg, space: ColorSpace, k: usize) -> (r: Result<
    ColorSpec,
    ColorError,
>)
    requires
        old(ap).wf(),
    ensures
        final(ap).wf(),
        final(ap).buf@ == old(ap).buf@,
        final(ap).command == old(ap).command,
        (color_result_view(r), final(ap).curptr as int) == values_color(
            old(ap).buf@,
            old(ap).curptr as int,
            space,
            k as nat,
        ),
{
    let values = spc_util_read_numbers(k, ap);
    if values.len() == k {
        Ok(ColorSpec::Values { space, values })
    } else {
        Err(ColorError::BadValues { space })
    }
}

fn named_color(name: Vec<u8>) -> (r: Result<ColorSpec, ColorError>)
    ensures
        color_result_view(r) == named_color_result(name@),
{
    match pdf_color_namedcolor(name.as_slice()) {
        Some(c) => Ok(ColorSpec::Named { color: c }),
        None => Err(ColorError::UnknownName { name }),
    }
}

/// Reads a colour in the syntax of `color` specials (see `read_color_color_spec`).
pub fn spc_read_color_color(ap: &mut spc_arg) -> (r: Result<ColorSpec, ColorError>)
    requires
        old(ap).wf(),
    ensures
        final(ap).wf(),
        final(ap).buf@ == old(ap).buf@,
        final(ap).command == old(ap).command,
        (color_result_view(r), final(ap).curptr as int) == read_color_color_spec(
            old(ap).buf@,
            old(ap).curptr as int,
        ),
{
    let (q, p1) = parse_c_ident(ap.buf.as_slice(), ap.curptr, ap.buf.len());
    ap.curptr = p1;
    let w = match q {
        None => {
            return Err(ColorError::NoColor);
        },
        Some(w) => w,
    };
    skip_blank_arg(ap);
    let rgb: [u8; 3] = [114u8, 103u8, 98u8];
    let cmyk: [u8; 4] = [99u8, 109u8, 121u8, 107u8];
    let gray: [u8; 4] = [103u8, 114u8, 97u8, 121u8];
    let spot: [u8; 4] = [115u8, 112u8, 111u8, 116u8];
    let hsb: [u8; 3] = [104u8, 115u8, 98u8];
    assert(rgb@ == rgb_word() && cmyk@ == cmyk_word() && gray@ == gray_word());
    assert(spot@ == spot_word() && hsb@ == hsb_word());
    if bytes_eq(w.as_slice(), rgb.as_slice()) {
        read_values_color(ap, ColorSpace::Rgb, 3)
    } else if bytes_eq(w.as_slice(), cmyk.as_slice()) {
        read_values_color(ap, ColorSpace::Cmyk, 4)
    } else if bytes_eq(w.as_slice(), gray.as_slice()) {
        read_values_color(ap, ColorSpace::Gray, 1)
    } else if bytes_eq(w.as_slice(), spot.as_slice()) {
        let (name, p3) = parse_c_ident(ap.buf.as_slice(), ap.curptr, ap.buf.len());
        ap.curptr = p3;
        match name {
            None => Err(ColorError::NoSpotName),
            Some(nm) => {
                skip_blank_arg(ap);
                let mut nums = spc_util_read_numbers(1, ap);
                if nums.len() == 1 {
                    let v = nums.pop().unwrap();
                    Ok(ColorSpec::Spot { name: nm, value: v })
                } else {
                    Err(ColorError::BadSpotValue)
                }
            },
        }
    } else if bytes_eq(w.as_slice(), hsb.as_slice()) {
        read_values_color(ap, ColorSpace::Hsb, 3)
    } else {
        named_color(w)
    }
}

/// What the `pdf:`-special syntax reads at `cur`: an optional `[`, then 1, 3 or 4 numbers (a
/// gray, RGB or CMYK colour) or else a colour name, then the `]` that an opening `[` asks for;
/// and where reading stands after.
pub open spec fn read_color_pdf_spec(s: Seq<u8>, cur: int) -> (Result<
    ColorSpecView,
    ColorErrorView,
>, int) {
    let n = s.len() as int;
    let p0 = blank_end(s, cur, n);
    let isarray = p0 < n && s[p0] == 91;
    let p1 = if isarray { blank_end(s, p0 + 1, n) } else { p0 };
    let (nums, p2) = read_numbers_spec(s, p1, 4);
    let (res, p3) = if nums.len() == 1 {
        (Ok(ColorSpecView::Values { space: ColorSpace::Gray, values: nums }), p2)
    } else if nums.len() == 3 {
        (Ok(ColorSpecView::Values { space: ColorSpace::Rgb, values: nums }), p2)
    } else if nums.len() == 4 {
        (Ok(ColorSpecView::Values { space: ColorSpace::Cmyk, values: nums }), p2)
    } else {
        let (q, pq) = spec_parse_c_ident(s, p2, n);
        match q {
            None => (Err(ColorErrorView::NoColor), pq),
            Some(w) => (named_color_result(w), pq),
        }
    };
    if nums.len() != 1 && nums.len() != 3 && nums.len() != 4 && spec_parse_c_ident(
        s,
        p2,
        n,
    ).0 is None {
        (res, p3)
    } else if isarray {
        let p4 = blank_end(s, p3, n);
        if p4 >= n || s[p4] != 93 {
            (Err(ColorErrorView::Unbalanced), p4)
        } else {
            (res, p4 + 1)
        }
    } else {
        (res, p3)
    }
}

/// Reads a colour in the syntax of `pdf:` specials (see `read_color_pdf_spec`).
pub fn spc_read_color_pdf(ap: &mut spc_arg) -> (r: Result<ColorSpec, ColorError>)
    requires
        old(ap).wf(),
    ensures
        final(ap).wf(),
        final(ap).buf@ == old(ap).buf@,
        final(ap).command == old(ap).command,
        (color_result_view(r), final(ap).curptr as int) == read_color_pdf_spec(
            old(ap).buf@,
            old(ap).curptr as int,
        ),
{
    let ghost s = ap.buf@;
    skip_blank_arg(ap);
    let isarray = ap.curptr < ap.buf.len() && ap.buf[ap.curptr] == 91;
    if isarray {
        ap.curptr = ap.curptr + 1;
        skip_blank_arg(ap);
    }
    let mut nums = spc_util_read_numbers(4, ap);
    let res = if nums.len() == 1 {
        Ok(ColorSpec::Values { space: ColorSpace::Gray, values: nums })
    } else if nums.len() == 3 {
        Ok(ColorSpec::Values { space: ColorSpace::Rgb, values: nums })
    } else if nums.len() == 4 {
        Ok(ColorSpec::Values { space: ColorSpace::Cmyk, values: nums })
    } else {
        let (q, pq) = parse_c_ident(ap.buf.as_slice(), ap.curptr, ap.buf.len());
        ap.curptr = pq;
        match q {
            None => {
                return Err(ColorError::NoColor);
            },
            Some(w) => named_color(w),
        }
    };
    if isarray {
        skip_blank_arg(ap);
        if ap.curptr >= ap.buf.len() || ap.buf[ap.curptr] != 93 {
            return Err(ColorError::Unbalanced);
        }
        ap.curptr = ap.curptr + 1;
    }
    res
}

/// Reads a single colour: `None`-like `Empty` error when only blanks are left; else in the
/// syntax of `color` specials (`syntax`) or of `pdf:` specials.
pub fn spc_util_read_colorspec(ap: &mut spc_arg, syntax: bool) -> (r: Result<ColorSpec, ColorError>)
    requires
        old(ap).wf(),
    ensures
        final(ap).wf(),
        final(ap).buf@ == old(ap).buf@,
        final(ap).command == old(ap).command,
        ({
            let s = old(ap).buf@;
            let p0 = blank_end(s, old(ap).curptr as int, s.len() as int);
            if p0 >= s.len() {
                color_result_view(r) == Err::<ColorSpecView, ColorErrorView>(ColorErrorView::Empty)
                    && final(ap).curptr == p0
            } else if syntax {
                (color_result_view(r), final(ap).curptr as int) == read_color_color_spec(s, p0)
            } else {
                (color_result_view(r), final(ap).curptr as int) == read_color_pdf_spec(s, p0)
            }
        }),
{
    skip_blank_arg(ap);
    if ap.curptr >= ap.buf.len() {
        Err(ColorError::Empty)
    } else if syntax {
        spc_read_color_color(ap)
    } else {
        spc_read_color_pdf(ap)
    }
}

/// Reads a colour in the syntax of `pdf:` specials, falling back to `default` (when there is
/// one) where the colour cannot be read; `Empty` when only blanks are left.
pub fn spc_util_read_pdfcolor(ap: &mut spc_arg, default: Option<ColorSpec>) -> (r: Result<
    ColorSpec,
    ColorError,
>)
    requires
        old(ap).wf(),
    ensures
        final(ap).wf(),
        final(ap).buf@ == old(ap).buf@,
        final(ap).command == old(ap).command,
        ({
            let s = old(ap).buf@;
            let p0 = blank_end(s, old(ap).curptr as int, s.len() as int);
            if p0 >= s.len() {
                color_result_view(r) == Err::<ColorSpecView, ColorErrorView>(ColorErrorView::Empty)
                    && final(ap).curptr == p0
            } else {
                let (res, p) = read_color_pdf_spec(s, p0);
                &&& final(ap).curptr == p
                &&& color_result_view(r) == match res {
                    Ok(c) => Ok(c),
                    Err(e) => match default {
                        Some(d) => Ok(d@),
                        None => Err(e),
                    },
                }
            }
        }),
{
    skip_blank_arg(ap);
    if ap.curptr >= ap.buf.len() {
        return Err(ColorError::Empty);
    }
    match spc_read_color_pdf(ap) {
        Ok(c) => Ok(c),
        Err(e) => match default {
            Some(d) => Ok(d),
            None => Err(e),
        },
    }
}

/// One key of a dimension and transformation specification, with what was read for it.
#[derive(Debug, PartialEq)]
pub enum DimItem {
    /// `width`, `height`, `depth`: a length (`None` when no number came).
    Width(Option<LengthRead>),
    Height(Option<LengthRead>),
    Depth(Option<LengthRead>),
    /// `scale`, `xscale`, `yscale`: a factor; `rotate`: an angle in degrees.
    Scale(Vec<u8>),
    XScale(Vec<u8>),
    YScale(Vec<u8>),
    Rotate(Vec<u8>),
    /// `bbox`: four numbers.
    BBox(Vec<Vec<u8>>),
    /// `matrix`: six numbers.
    Matrix(Vec<Vec<u8>>),
    /// `clip`: a number, clipping unless it is zero.
    Clip(Vec<u8>),
    /// `hide`.
    Hide,
    /// `page`: a page number.
    Page(Vec<u8>),
    /// `pagebox`: the page box to use (1 crop, 2 media, 3 art, 4 trim, 5 bleed; 0 for none
    /// named), or `None` for an unknown box, which leaves the choice as it was.
    PageBox(Option<i32>),
}

pub enum DimItemView {
    Width(Option<LengthReadView>),
    Height(Option<LengthReadView>),
    Depth(Option<LengthReadView>),
    Scale(Seq<u8>),
    XScale(Seq<u8>),
    YScale(Seq<u8>),
    Rotate(Seq<u8>),
    BBox(Seq<Seq<u8>>),
    Matrix(Seq<Seq<u8>>),
    Clip(Seq<u8>),
    Hide,
    Page(Seq<u8>),
    PageBox(Option<i32>),
}

pub open spec fn opt_length_view(l: Option<LengthRead>) -> Option<LengthReadView> {
    match l {
        Some(x) => Some(x@),
        None => None,
    }
}

impl View for DimItem {
    type V = DimItemView;

    open spec fn view(&self) -> DimItemView {
        match self {
            DimItem::Width(l) => DimItemView::Width(opt_length_view(*l)),
            DimItem::Height(l) => DimItemView::Height(opt_length_view(*l)),
            DimItem::Depth(l) => DimItemView::Depth(opt_length_view(*l)),
            DimItem::Scale(v) => DimItemView::Scale(v@),
            DimItem::XScale(v) => DimItemView::XScale(v@),
            DimItem::YScale(v) => DimItemView::YScale(v@),
            DimItem::Rotate(v) => DimItemView::Rotate(v@),
            DimItem::BBox(v) => DimItemView::BBox(vecs_view(v@)),
            DimItem::Matrix(v) => DimItemView::Matrix(vecs_view(v@)),
            DimItem::Clip(v) => DimItemView::Clip(v@),
            DimItem::Hide => DimItemView::Hide,
            DimItem::Page(v) => DimItemView::Page(v@),
            DimItem::PageBox(b) => DimItemView::PageBox(*b),
        }
    }
}

pub open spec fn items_view(v: Seq<DimItem>) -> Seq<DimItemView> {
    v.map_values(|x: DimItem| x@)
}

/// The page box that `w` names (any case), numbered from 1.
pub open spec fn pagebox_of(w: Seq<u8>) -> Option<i32> {
    match first_match(|i: int| pagebox_key(i), 5, ascii_lowercase(w), 0) {
        Some(i) => Some((i + 1) as i32),
        None => None,
    }
}

/// What is read for the `k`th key of `dim_key` at `p`: the item (if any), whether it is an
/// error, and where reading stands after.
pub open spec fn dim_item_spec(s: Seq<u8>, p: int, k: int) -> (Option<DimItemView>, bool, int) {
    let n = s.len() as int;
    if k <= 2 {
        let (l, q) = read_length_spec(s, p);
        let it = if k == 0 {
            DimItemView::Width(l)
        } else if k == 1 {
            DimItemView::Height(l)
        } else {
            DimItemView::Depth(l)
        };
        (
            Some(it),
            match l {
                Some(x) => x.unit is Unknown || x.unit is MissingAfterTrue,
                None => true,
            },
            q,
        )
    } else if (3 <= k <= 6) || k == 9 {
        let (v, q) = spec_parse_float_decimal(s, p, n);
        match v {
            None => (None, true, q),
            Some(t) => (
                Some(
                    if k == 3 {
                        DimItemView::Scale(t)
                    } else if k == 4 {
                        DimItemView::XScale(t)
                    } else if k == 5 {
                        DimItemView::YScale(t)
                    } else if k == 6 {
                        DimItemView::Rotate(t)
                    } else {
                        DimItemView::Clip(t)
                    },
                ),
                false,
                q,
            ),
        }
    } else if k == 7 || k == 8 || k == 11 {
        let want: nat = if k == 7 { 4 } else if k == 8 { 6 } else { 1 };
        let (nums, q) = read_numbers_spec(s, p, want);
        if nums.len() == want {
            (
                Some(
                    if k == 7 {
                        DimItemView::BBox(nums)
                    } else if k == 8 {
                        DimItemView::Matrix(nums)
                    } else {
                        DimItemView::Page(nums[0])
                    },
                ),
                false,
                q,
            )
        } else {
            (None, true, q)
        }
    } else if k == 10 {
        (Some(DimItemView::Hide), false, p)
    } else if k == 12 {
        let (w, q) = spec_parse_c_ident(s, p, n);
        match w {
            Some(name) => (Some(DimItemView::PageBox(pagebox_of(name))), false, q),
            None => (Some(DimItemView::PageBox(Some(0))), false, q),
        }
    } else {
        (None, true, p)
    }
}

fn pagebox_named(w: &[u8]) -> (r: Option<i32>)
    ensures
        r == pagebox_of(w@),
{
    let lw = to_ascii_lowercase(w);
    let mut i: usize = 0;
    while i < 5
        invariant
            i <= 5,
            lw@ == ascii_lowercase(w@),
            first_match(|i: int| pagebox_key(i), 5, lw@, 0) == first_match(
                |i: int| pagebox_key(i),
                5,
                lw@,
                i as int,
            ),
        decreases 5 - i,
    {
        let k = pagebox_key_bytes(i);
        if bytes_eq(k.as_slice(), lw.as_slice()) {
            return Some((i + 1) as i32);
        }
        i = i + 1;
    }
    None
}

fn read_float_item(ap: &mut spc_arg, k: usize) -> (r: (Option<DimItem>, bool))
    requires
        old(ap).wf(),
        (3 <= k <= 6) || k == 9,
    ensures
        final(ap).wf(),
        final(ap).buf@ == old(ap).buf@,
        final(ap).command == old(ap).command,
        old(ap).curptr <= final(ap).curptr,
        (match r.0 {
            Some(it) => Some(it@),
            None => None,
        }, r.1, final(ap).curptr as int) == dim_item_spec(old(ap).buf@, old(ap).curptr as int, k as int),
{
    let (v, q) = parse_float_decimal(ap.buf.as_slice(), ap.curptr, ap.buf.len());
    ap.curptr = q;
    match v {
        None => (None, true),
        Some(t) => (
            Some(
                if k == 3 {
                    DimItem::Scale(t)
                } else if k == 4 {
                    DimItem::XScale(t)
                } else if k == 5 {
                    DimItem::YScale(t)
                } else if k == 6 {
                    DimItem::Rotate(t)
                } else {
                    DimItem::Clip(t)
                },
            ),
            false,
        ),
    }
}

fn read_numbers_item(ap: &mut spc_arg, k: usize) -> (r: (Option<DimItem>, bool))
    requires
        old(ap).wf(),
        k == 7 || k == 8 || k == 11,
    ensures
        final(ap).wf(),
        final(ap).buf@ == old(ap).buf@,
        final(ap).command == old(ap).command,
        old(ap).curptr <= final(ap).curptr,
        (match r.0 {
            Some(it) => Some(it@),
            None => None,
        }, r.1, final(ap).curptr as int) == dim_item_spec(old(ap).buf@, old(ap).curptr as int, k as int),
{
    let want: usize = if k == 7 {
        4
    } else if k == 8 {
        6
    } else {
        1
    };
    let mut nums = spc_util_read_numbers(want, ap);
    if nums.len() == want {
        if k == 7 {
            (Some(DimItem::BBox(nums)), false)
        } else if k == 8 {
            (Some(DimItem::Matrix(nums)), false)
        } else {
            let ghost nv = vecs_view(nums@);
            let v = nums.pop().unwrap();
            assert(v@ == nv[0]);
            (Some(DimItem::Page(v)), false)
        }
    } else {
        (None, true)
    }
}

/// Reads what follows the `k`th key of `dim_key` (see `dim_item_spec`).
fn read_dim_item(ap: &mut spc_arg, k: usize) -> (r: (Option<DimItem>, bool))
    requires
        old(ap).wf(),
    ensures
        final(ap).wf(),
        final(ap).buf@ == old(ap).buf@,
        final(ap).command == old(ap).command,
        old(ap).curptr <= final(ap).curptr,
        (match r.0 {
            Some(it) => Some(it@),
            None => None,
        }, r.1, final(ap).curptr as int) == dim_item_spec(old(ap).buf@, old(ap).curptr as int, k as int),
{
    if k <= 2 {
        let l = spc_util_read_length(ap);
        let err = match &l {
            Some(x) => match x.unit {
                LengthUnit::Unknown { .. } => true,
                LengthUnit::MissingAfterTrue => true,
                _ => false,
            },
            None => true,
        };
        let it = if k == 0 {
            DimItem::Width(l)
        } else if k == 1 {
            DimItem::Height(l)
        } else {
            DimItem::Depth(l)
        };
        (Some(it), err)
    } else if (3 <= k && k <= 6) || k == 9 {
        read_float_item(ap, k)
    } else if k == 7 || k == 8 || k == 11 {
        read_numbers_item(ap, k)
    } else if k == 10 {
        (Some(DimItem::Hide), false)
    } else if k == 12 {
        let (w, q) = parse_c_ident(ap.buf.as_slice(), ap.curptr, ap.buf.len());
        ap.curptr = q;
        match w {
            Some(name) => (Some(DimItem::PageBox(pagebox_named(name.as_slice()))), false),
            None => (Some(DimItem::PageBox(Some(0))), false),
        }
    } else {
        (None, true)
    }
}

/// One step of reading a dimension specification at `p`, with the first `nk` keys of
/// `dim_key` known: the items read (none or one), the key that was refused or whose value was
/// wrong (an error), whether reading stops, and where it stands after.
pub open spec fn dim_step_spec(s: Seq<u8>, p: int, nk: int) -> (
    Seq<DimItemView>,
    Option<Seq<u8>>,
    bool,
    int,
) {
    let n = s.len() as int;
    let (kp, p1) = spec_parse_c_ident(s, p, n);
    match kp {
        None => (Seq::empty(), None, true, p1),
        Some(key) => {
            let p2 = blank_end(s, p1, n);
            let (item, err, p3) = match first_match(|i: int| dim_key(i), nk, key, 0) {
                Some(k) => dim_item_spec(s, p2, k),
                None => (None, true, p2),
            };
            let items = match item {
                Some(it) => seq![it],
                None => Seq::empty(),
            };
            if err {
                (items, Some(key), true, p3)
            } else {
                (items, None, false, blank_end(s, p3, n))
            }
        },
    }
}

/// Reading a dimension specification from `p` to its end or its first error: the items, the
/// key of an error, and where reading stands after.
pub open spec fn dim_loop(s: Seq<u8>, p: int, nk: int) -> (Seq<DimItemView>, Option<Seq<u8>>, int)
    decreases s.len() - p,
{
    if p < 0 || p >= s.len() {
        (Seq::empty(), None, p)
    } else {
        let (it, bad, stop, q) = dim_step_spec(s, p, nk);
        if stop || q <= p || q > s.len() {
            (it, bad, q)
        } else {
            let (rest, b, e) = dim_loop(s, q, nk);
            (it + rest, b, e)
        }
    }
}

fn dim_key_find(v: &[u8], nk: usize) -> (r: Option<usize>)
    requires
        nk <= 13,
    ensures
        match r {
            Some(k) => first_match(|i: int| dim_key(i), nk as int, v@, 0) == Some(k as int) && k
                < nk,
            None => first_match(|i: int| dim_key(i), nk as int, v@, 0) is None,
        },
{
    let mut i: usize = 0;
    while i < nk
        invariant
            i <= nk <= 13,
            first_match(|i: int| dim_key(i), nk as int, v@, 0) == first_match(
                |i: int| dim_key(i),
                nk as int,
                v@,
                i as int,
            ),
        decreases nk - i,
    {
        let k = dim_key_bytes(i);
        if bytes_eq(k.as_slice(), v) {
            return Some(i);
        }
        i = i + 1;
    }
    None
}

proof fn lemma_ident_advances(s: Seq<u8>, p: int, n: int)
    requires
        0 <= p <= n == s.len(),
    ensures
        spec_parse_c_ident(s, p, n).0 is Some ==> spec_parse_c_ident(s, p, n).1 > p,
        p <= spec_parse_c_ident(s, p, n).1 <= n,
{
    if p < n && (s[p] == 95 || crate::text::is_ascii_alpha(s[p])) {
        crate::dpxutil::lemma_ident_end(s, p, n);
        assert(crate::dpxutil::ident_end(s, p, n) == crate::dpxutil::ident_end(s, p + 1, n));
        crate::dpxutil::lemma_ident_end(s, p + 1, n);
    }
}

/// One step of reading a dimension specification (see `dim_step_spec`).
fn dim_step(ap: &mut spc_arg, nk: usize) -> (r: (Option<DimItem>, Option<Vec<u8>>, bool))
    requires
        old(ap).wf(),
        nk <= 13,
        old(ap).curptr < old(ap).buf@.len(),
    ensures
        final(ap).wf(),
        final(ap).buf@ == old(ap).buf@,
        final(ap).command == old(ap).command,
        ({
            let (its, bad, stop, q) = dim_step_spec(old(ap).buf@, old(ap).curptr as int, nk as int);
            &&& its == match r.0 {
                Some(it) => seq![it@],
                None => Seq::<DimItemView>::empty(),
            }
            &&& bad == opt_bytes(r.1)
            &&& stop == r.2
            &&& q == final(ap).curptr
            &&& !stop ==> q > old(ap).curptr
        }),
        old(ap).curptr <= final(ap).curptr,
{
    let ghost s = ap.buf@;
    let ghost p = ap.curptr as int;
    proof {
        lemma_ident_advances(s, p, s.len() as int);
    }
    let (kp, p1) = parse_c_ident(ap.buf.as_slice(), ap.curptr, ap.buf.len());
    ap.curptr = p1;
    let key = match kp {
        None => {
            return (None, None, true);
        },
        Some(key) => key,
    };
    skip_blank_arg(ap);
    let (item, err) = match dim_key_find(key.as_slice(), nk) {
        Some(k) => read_dim_item(ap, k),
        None => (None, true),
    };
    if err {
        return (item, Some(key), true);
    }
    skip_blank_arg(ap);
    (item, None, false)
}

/// Reads the keys and values of a dimension specification from the read position (after
/// blanks), with the first `nk` keys of `dim_key` known (see `dim_loop`).
fn read_dim_items(ap: &mut spc_arg, nk: usize) -> (r: (Vec<DimItem>, Option<Vec<u8>>))
    requires
        old(ap).wf(),
        nk <= 13,
    ensures
        final(ap).wf(),
        final(ap).buf@ == old(ap).buf@,
        final(ap).command == old(ap).command,
        dim_loop(
            old(ap).buf@,
            blank_end(old(ap).buf@, old(ap).curptr as int, old(ap).buf@.len() as int),
            nk as int,
        ) == (items_view(r.0@), opt_bytes(r.1), final(ap).curptr as int),
{
    let ghost s = ap.buf@;
    skip_blank_arg(ap);
    let ghost p0 = ap.curptr as int;
    let mut items: Vec<DimItem> = Vec::new();
    let mut bad: Option<Vec<u8>> = None;
    let mut done = false;
    while !done && ap.curptr < ap.buf.len()
        invariant
            ap.wf(),
            ap.buf@ == s,
            ap.command == old(ap).command,
            nk <= 13,
            !done ==> dim_loop(s, p0, nk as int) == (
                items_view(items@) + dim_loop(s, ap.curptr as int, nk as int).0,
                dim_loop(s, ap.curptr as int, nk as int).1,
                dim_loop(s, ap.curptr as int, nk as int).2,
            ),
            done ==> dim_loop(s, p0, nk as int) == (
                items_view(items@),
                opt_bytes(bad),
                ap.curptr as int,
            ),
            !done ==> bad is None,
        decreases s.len() - ap.curptr, if done { 0int } else { 1int },
    {
        let ghost c = ap.curptr as int;
        let ghost iv = items_view(items@);
        let (item, b, stop) = dim_step(ap, nk);
        let ghost its = match &item {
            Some(it) => seq![it@],
            None => Seq::<DimItemView>::empty(),
        };
        match item {
            Some(it) => {
                items.push(it);
            },
            None => {},
        }
        assert(items_view(items@) =~= iv + its);
        if stop {
            bad = b;
            done = true;
        } else {
            let ghost rest = dim_loop(s, ap.curptr as int, nk as int);
            assert(iv + (its + rest.0) =~= (iv + its) + rest.0);
        }
    }
    proof {
        if !done {
            assert(dim_loop(s, ap.curptr as int, nk as int) == (
                Seq::<DimItemView>::empty(),
                None::<Seq<u8>>,
                ap.curptr as int,
            ));
            assert(items_view(items@) + Seq::<DimItemView>::empty() =~= items_view(items@));
        }
    }
    (items, bad)
}

/// Whether the text of a number read by `parse_float_decimal`, from `i` on, has a digit other
/// than 0 before its exponent: whether the number it spells is not zero.
pub open spec fn number_text_nonzero(t: Seq<u8>, i: int) -> bool
    decreases t.len() - i,
{
    if i < 0 || i >= t.len() || t[i] == 69 || t[i] == 101 {
        false
    } else if crate::text::is_ascii_digit(t[i]) && t[i] != 48 {
        true
    } else {
        number_text_nonzero(t, i + 1)
    }
}

fn text_nonzero(t: &[u8]) -> (r: bool)
    ensures
        r == number_text_nonzero(t@, 0),
{
    let mut i: usize = 0;
    while i < t.len()
        invariant
            i <= t@.len(),
            number_text_nonzero(t@, 0) == number_text_nonzero(t@, i as int),
        decreases t@.len() - i,
    {
        if t[i] == 69 || t[i] == 101 {
            return false;
        }
        if 49 <= t[i] && t[i] <= 57 {
            return true;
        }
        i = i + 1;
    }
    false
}

/// The flag bits that an item sets: a width (2), a height or depth (4), a bounding box (1),
/// hiding (16); `clip` sets clipping (8) when its number is not zero and clears it otherwise.
pub open spec fn item_flags(f: i32, it: DimItemView) -> i32 {
    match it {
        DimItemView::Width(_) => f | 2,
        DimItemView::Height(_) => f | 4,
        DimItemView::Depth(_) => f | 4,
        DimItemView::BBox(_) => f | 1,
        DimItemView::Hide => f | 16,
        DimItemView::Clip(t) => if number_text_nonzero(t, 0) {
            f | 8
        } else {
            f & !8i32
        },
        _ => f,
    }
}

/// Clipping is dropped when there is no bounding box.
pub open spec fn clip_needs_bbox(f: i32) -> i32 {
    if f & 1 == 0 {
        f & !8i32
    } else {
        f
    }
}

/// The flags after the items, in order.
pub open spec fn items_flags(f: i32, items: Seq<DimItemView>) -> i32
    decreases items.len(),
{
    if items.len() == 0 {
        f
    } else {
        item_flags(items_flags(f, items.drop_last()), items.last())
    }
}

/// A number for the kinds of items that the consistency check looks at: 3 `scale`, 4
/// `xscale`, 5 `yscale`, 6 `rotate`, 8 `matrix`; 0 for the others.
pub open spec fn kind_of(it: DimItemView) -> int {
    match it {
        DimItemView::Scale(_) => 3,
        DimItemView::XScale(_) => 4,
        DimItemView::YScale(_) => 5,
        DimItemView::Rotate(_) => 6,
        DimItemView::Matrix(_) => 8,
        _ => 0,
    }
}

/// Whether an item of kind `k` is among `items`.
pub open spec fn has_kind(items: Seq<DimItemView>, k: int) -> bool {
    exists|i: int| 0 <= i < items.len() && kind_of(#[trigger] items[i]) == k
}

/// What the consistency check of a dimension specification finds.
#[derive(PartialEq, Eq, Structural, Clone, Copy, Debug)]
pub enum DimNote {
    /// Both a width and `xscale`: `xscale` is ignored.
    IgnoreXScale,
    /// Both a height or depth and `yscale`: `yscale` is ignored.
    IgnoreYScale,
    /// `scale` with `xscale` or `yscale`: an error.
    ScaleWithAxisScales,
    /// `matrix` with scales or `rotate`: the matrix wins.
    MatrixOverridesScales,
}

/// The consistency check of a dimension specification that was read without error, given the
/// flags after it and its items.
pub open spec fn dim_note(flags: i32, items: Seq<DimItemView>) -> Option<DimNote> {
    if has_kind(items, 4) && flags & 2 != 0 {
        Some(DimNote::IgnoreXScale)
    } else if has_kind(items, 5) && flags & 4 != 0 {
        Some(DimNote::IgnoreYScale)
    } else if has_kind(items, 3) && (has_kind(items, 4) || has_kind(items, 5)) {
        Some(DimNote::ScaleWithAxisScales)
    } else if has_kind(items, 8) && (has_kind(items, 3) || has_kind(items, 4) || has_kind(items, 5)
        || has_kind(items, 6)) {
        Some(DimNote::MatrixOverridesScales)
    } else {
        None
    }
}

/// A dimension and transformation specification as read: the items in order (the caller
/// applies their values in that order), the key at which reading failed, the final flags, the
/// consistency note, and whether the whole is an error. The flag bits: 1 a bounding box, 2 a width, 4 a height or depth, 8
/// clipping, 16 hiding.
#[derive(Debug, PartialEq)]
pub struct DimTrns {
    pub items: Vec<DimItem>,
    pub bad_key: Option<Vec<u8>>,
    pub flags: i32,
    pub note: Option<DimNote>,
    pub error: bool,
}

fn dim_kind(it: &DimItem) -> (r: u8)
    ensures
        r as int == kind_of(it@),
{
    match it {
        DimItem::Scale(_) => 3,
        DimItem::XScale(_) => 4,
        DimItem::YScale(_) => 5,
        DimItem::Rotate(_) => 6,
        DimItem::Matrix(_) => 8,
        _ => 0,
    }
}

fn dim_item_flags(f: i32, it: &DimItem) -> (r: i32)
    ensures
        r == item_flags(f, it@),
{
    match it {
        DimItem::Width(_) => f | 2,
        DimItem::Height(_) => f | 4,
        DimItem::Depth(_) => f | 4,
        DimItem::BBox(_) => f | 1,
        DimItem::Hide => f | 16,
        DimItem::Clip(t) => if text_nonzero(t.as_slice()) {
            f | 8
        } else {
            f & !8i32
        },
        _ => f,
    }
}

/// The flags after `items` from `f`, and which kinds of item occur (`scale`, `xscale`,
/// `yscale`, `rotate`, `matrix`).
fn summarize_items(items: &Vec<DimItem>, f: i32) -> (r: (i32, bool, bool, bool, bool, bool))
    ensures
        r.0 == items_flags(f, items_view(items@)),
        r.1 == has_kind(items_view(items@), 3),
        r.2 == has_kind(items_view(items@), 4),
        r.3 == has_kind(items_view(items@), 5),
        r.4 == has_kind(items_view(items@), 6),
        r.5 == has_kind(items_view(items@), 8),
{
    let ghost all = items_view(items@);
    let mut flags = f;
    let mut h3 = false;
    let mut h4 = false;
    let mut h5 = false;
    let mut h6 = false;
    let mut h8 = false;
    let mut i: usize = 0;
    while i < items.len()
        invariant
            i <= items@.len(),
            all == items_view(items@),
            flags == items_flags(f, all.take(i as int)),
            h3 == has_kind(all.take(i as int), 3),
            h4 == has_kind(all.take(i as int), 4),
            h5 == has_kind(all.take(i as int), 5),
            h6 == has_kind(all.take(i as int), 6),
            h8 == has_kind(all.take(i as int), 8),
        decreases items@.len() - i,
    {
        let ghost pre = all.take(i as int);
        let ghost nxt = all.take(i + 1);
        assert(nxt.drop_last() =~= pre);
        assert(nxt.last() == items@[i as int]@);
        flags = dim_item_flags(flags, &items[i]);
        let k = dim_kind(&items[i]);
        proof {
            assert forall|kk: int| has_kind(nxt, kk) == (has_kind(pre, kk) || kind_of(items@[i as int]@)
                == kk) by {
                if has_kind(nxt, kk) {
                    let j = choose|j: int| 0 <= j < nxt.len() && kind_of(#[trigger] nxt[j]) == kk;
                    if j < i {
                        assert(pre[j] == nxt[j]);
                    }
                }
                if has_kind(pre, kk) {
                    let j = choose|j: int| 0 <= j < pre.len() && kind_of(#[trigger] pre[j]) == kk;
                    assert(nxt[j] == pre[j]);
                }
                if kind_of(items@[i as int]@) == kk {
                    assert(nxt[i as int] == items@[i as int]@);
                }
            }
        }
        h3 = h3 || k == 3;
        h4 = h4 || k == 4;
        h5 = h5 || k == 5;
        h6 = h6 || k == 6;
        h8 = h8 || k == 8;
        i = i + 1;
    }
    assert(all.take(items@.len() as int) =~= all);
    (flags, h3, h4, h5, h6, h8)
}

/// What reading a dimension specification in the syntax of `pdf:` specials from `cur`, with
/// the first `nk` keys of `dim_key`, on a transformation whose flags are `flags`, gives: the
/// items of `dim_loop` from after blanks, the key of the error, the read position after, the
/// flags (clipping set and hiding cleared first, then the items, then clipping dropped when there
/// is no bounding box), the consistency note of a specification read without error, and
/// whether the whole is an error.
pub open spec fn dimtrns_read_spec(s: Seq<u8>, cur: int, flags: i32, nk: int, r: DimTrns, pos: int) -> bool {
    let (items, bad, e) = dim_loop(s, blank_end(s, cur, s.len() as int), nk);
    let f = items_flags((flags | 8) & !16i32, items);
    let note = if bad is Some { None } else { dim_note(f, items) };
    &&& items_view(r.items@) == items
    &&& opt_bytes(r.bad_key) == bad
    &&& pos == e
    &&& r.flags == clip_needs_bbox(f)
    &&& r.note == note
    &&& r.error == (bad is Some || note == Some(DimNote::ScaleWithAxisScales))
}

/// Reads a dimension and transformation specification in the syntax of `pdf:` specials, with
/// the first `nk` keys of `dim_key`, on a transformation whose flags are `flags`.
fn read_dimtrns_keyed(ap: &mut spc_arg, flags: i32, nk: usize) -> (r: DimTrns)
    requires
        old(ap).wf(),
        nk <= 13,
    ensures
        final(ap).wf(),
        final(ap).buf@ == old(ap).buf@,
        final(ap).command == old(ap).command,
        dimtrns_read_spec(old(ap).buf@, old(ap).curptr as int, flags, nk as int, r, final(ap).curptr as int),
{
    let (items, bad) = read_dim_items(ap, nk);
    let (f, h3, h4, h5, h6, h8) = summarize_items(&items, (flags | 8) & !16i32);
    let note = if bad.is_some() {
        None
    } else if h4 && f & 2 != 0 {
        Some(DimNote::IgnoreXScale)
    } else if h5 && f & 4 != 0 {
        Some(DimNote::IgnoreYScale)
    } else if h3 && (h4 || h5) {
        Some(DimNote::ScaleWithAxisScales)
    } else if h8 && (h3 || h4 || h5 || h6) {
        Some(DimNote::MatrixOverridesScales)
    } else {
        None
    };
    let error = bad.is_some() || note == Some(DimNote::ScaleWithAxisScales);
    let ff = if f & 1 == 0 {
        f & !8i32
    } else {
        f
    };
    DimTrns { items, bad_key: bad, flags: ff, note, error }
}

/// Reads a dimension and transformation specification in the syntax of `pdf:` specials
/// (`width`, `height`, `depth`, `scale`, `xscale`, `yscale`, `rotate`, `bbox`, `matrix`,
/// `clip`, `hide`), on a transformation whose flags are `flags`.
pub fn spc_read_dimtrns_pdfm(ap: &mut spc_arg, flags: i32) -> (r: DimTrns)
    requires
        old(ap).wf(),
    ensures
        final(ap).wf(),
        final(ap).buf@ == old(ap).buf@,
        final(ap).command == old(ap).command,
        dimtrns_read_spec(old(ap).buf@, old(ap).curptr as int, flags, 11, r, final(ap).curptr as int),
{
    read_dimtrns_keyed(ap, flags, 11)
}

/// Reads the specification of an image to place: the keys of `spc_read_dimtrns_pdfm` and also
/// `page` and `pagebox`.
pub fn spc_util_read_blahblah(ap: &mut spc_arg, flags: i32) -> (r: DimTrns)
    requires
        old(ap).wf(),
    ensures
        final(ap).wf(),
        final(ap).buf@ == old(ap).buf@,
        final(ap).command == old(ap).command,
        dimtrns_read_spec(old(ap).buf@, old(ap).curptr as int, flags, 13, r, final(ap).curptr as int),
{
    read_dimtrns_keyed(ap, flags, 13)
}

/// Why a dimension specification in the dvips syntax failed.
#[derive(Debug, PartialEq)]
pub enum DvipsDimError {
    /// A key that is not one of `dvips_dim_key`.
    UnknownKey { key: Vec<u8> },
    /// A quoted value without its closing quote.
    Syntax,
    /// A key without a value.
    MissingValue { key: Vec<u8> },
}

pub enum DvipsDimErrorView {
    UnknownKey { key: Seq<u8> },
    Syntax,
    MissingValue { key: Seq<u8> },
}

impl View for DvipsDimError {
    type V = DvipsDimErrorView;

    open spec fn view(&self) -> DvipsDimErrorView {
        match self {
            DvipsDimError::UnknownKey { key } => DvipsDimErrorView::UnknownKey { key: key@ },
            DvipsDimError::Syntax => DvipsDimErrorView::Syntax,
            DvipsDimError::MissingValue { key } => DvipsDimErrorView::MissingValue { key: key@ },
        }
    }
}

pub open spec fn opt_dvips_err(e: Option<DvipsDimError>) -> Option<DvipsDimErrorView> {
    match e {
        Some(x) => Some(x@),
        None => None,
    }
}

/// A key of `dvips_dim_key` (other than `clip`) with the text of its value.
pub open spec fn pairs_view(v: Seq<(u8, Vec<u8>)>) -> Seq<(u8, Seq<u8>)> {
    v.map_values(|x: (u8, Vec<u8>)| (x.0, x.1@))
}

/// One step of reading a dvips-syntax dimension specification at `p`: the item (a key with its
/// value), whether it was `clip`, the error, whether reading stops, and where it stands after.
/// A value may follow `=` and may be quoted with `'` or `"`.
pub open spec fn dvips_step_spec(s: Seq<u8>, p: int) -> (
    Option<(u8, Seq<u8>)>,
    bool,
    Option<DvipsDimErrorView>,
    bool,
    int,
) {
    let n = s.len() as int;
    let (kp, p1) = spec_parse_c_ident(s, p, n);
    match kp {
        None => (None, false, None, true, p1),
        Some(key) => match first_match(|i: int| dvips_dim_key(i), 14, key, 0) {
            None => (None, false, Some(DvipsDimErrorView::UnknownKey { key }), true, p1),
            Some(k) => {
                let p2 = blank_end(s, p1, n);
                if k == 7 {
                    (None, true, None, false, p2)
                } else {
                    let p3 = if p2 < n && s[p2] == 61 { blank_end(s, p2 + 1, n) } else { p2 };
                    if p3 < n && (s[p3] == 39 || s[p3] == 34) {
                        let (vp, p5) = spec_parse_float_decimal(s, blank_end(s, p3 + 1, n), n);
                        let p6 = blank_end(s, p5, n);
                        let p7 = if p6 < n { p6 + 1 } else { n };
                        if vp is Some && !(p6 < n && s[p6] == s[p3]) {
                            (None, false, Some(DvipsDimErrorView::Syntax), true, p7)
                        } else {
                            match vp {
                                None => (
                                    None,
                                    false,
                                    Some(DvipsDimErrorView::MissingValue { key }),
                                    true,
                                    p7,
                                ),
                                Some(v) => (Some((k as u8, v)), false, None, false, blank_end(s, p7, n)),
                            }
                        }
                    } else {
                        let (vp, p5) = spec_parse_float_decimal(s, p3, n);
                        match vp {
                            None => (
                                None,
                                false,
                                Some(DvipsDimErrorView::MissingValue { key }),
                                true,
                                p5,
                            ),
                            Some(v) => (Some((k as u8, v)), false, None, false, blank_end(s, p5, n)),
                        }
                    }
                }
            },
        },
    }
}

/// Reading a dvips-syntax dimension specification from `p` to its end or its first error: the
/// keys with their values, whether `clip` came, the error, and where reading stands after.
pub open spec fn dvips_loop(s: Seq<u8>, p: int) -> (
    Seq<(u8, Seq<u8>)>,
    bool,
    Option<DvipsDimErrorView>,
    int,
)
    decreases s.len() - p,
{
    if p < 0 || p >= s.len() {
        (Seq::empty(), false, None, p)
    } else {
        let (it, clip, err, stop, q) = dvips_step_spec(s, p);
        let its = match it {
            Some(x) => seq![x],
            None => Seq::empty(),
        };
        if stop || q <= p || q > s.len() {
            (its, clip, err, q)
        } else {
            let (rest, c, e, pe) = dvips_loop(s, q);
            (its + rest, clip || c, e, pe)
        }
    }
}

/// The flag bits that a dvips-syntax key sets: a bounding box for `llx`..`ury`, a width for
/// `hsize` and `rwi`, a height for `vsize` and `rhi`.
pub open spec fn dvips_key_flags(f: i32, k: u8) -> i32 {
    if k == 2 || k == 12 {
        f | 2
    } else if k == 3 || k == 13 {
        f | 4
    } else if 8 <= k <= 11 {
        f | 1
    } else {
        f
    }
}

pub open spec fn dvips_items_flags(f: i32, items: Seq<(u8, Seq<u8>)>) -> i32
    decreases items.len(),
{
    if items.len() == 0 {
        f
    } else {
        dvips_key_flags(dvips_items_flags(f, items.drop_last()), items.last().0)
    }
}

fn dvips_dim_find(v: &[u8]) -> (r: Option<usize>)
    ensures
        match r {
            Some(k) => first_match(|i: int| dvips_dim_key(i), 14, v@, 0) == Some(k as int) && k < 14,
            None => first_match(|i: int| dvips_dim_key(i), 14, v@, 0) is None,
        },
{
    let mut i: usize = 0;
    while i < 14
        invariant
            i <= 14,
            first_match(|i: int| dvips_dim_key(i), 14, v@, 0) == first_match(
                |i: int| dvips_dim_key(i),
                14,
                v@,
                i as int,
            ),
        decreases 14 - i,
    {
        let k = dvips_dim_key_bytes(i);
        if bytes_eq(k.as_slice(), v) {
            return Some(i);
        }
        i = i + 1;
    }
    None
}

/// One step of reading a dvips-syntax dimension specification (see `dvips_step_spec`).
fn dvips_step(ap: &mut spc_arg) -> (r: (Option<(u8, Vec<u8>)>, bool, Option<DvipsDimError>, bool))
    requires
        old(ap).wf(),
        old(ap).curptr < old(ap).buf@.len(),
    ensures
        final(ap).wf(),
        final(ap).buf@ == old(ap).buf@,
        final(ap).command == old(ap).command,
        old(ap).curptr <= final(ap).curptr,
        ({
            let (it, clip, err, stop, q) = dvips_step_spec(old(ap).buf@, old(ap).curptr as int);
            &&& it == match r.0 {
                Some(x) => Some((x.0, x.1@)),
                None => None,
            }
            &&& clip == r.1
            &&& err == opt_dvips_err(r.2)
            &&& stop == r.3
            &&& q == final(ap).curptr
            &&& !stop ==> q > old(ap).curptr
        }),
{
    let ghost s = ap.buf@;
    proof {
        lemma_ident_advances(s, ap.curptr as int, s.len() as int);
    }
    let (kp, p1) = parse_c_ident(ap.buf.as_slice(), ap.curptr, ap.buf.len());
    ap.curptr = p1;
    let key = match kp {
        None => {
            return (None, false, None, true);
        },
        Some(key) => key,
    };
    let k = match dvips_dim_find(key.as_slice()) {
        None => {
            return (None, false, Some(DvipsDimError::UnknownKey { key }), true);
        },
        Some(k) => k,
    };
    skip_blank_arg(ap);
    if k == 7 {
        return (None, true, None, false);
    }
    if ap.curptr < ap.buf.len() && ap.buf[ap.curptr] == 61 {
        ap.curptr = ap.curptr + 1;
        skip_blank_arg(ap);
    }
    if ap.curptr < ap.buf.len() && (ap.buf[ap.curptr] == 39 || ap.buf[ap.curptr] == 34) {
        let qc = ap.buf[ap.curptr];
        ap.curptr = ap.curptr + 1;
        skip_blank_arg(ap);
        let (vp, p5) = parse_float_decimal(ap.buf.as_slice(), ap.curptr, ap.buf.len());
        ap.curptr = p5;
        skip_blank_arg(ap);
        let closed = ap.curptr < ap.buf.len() && ap.buf[ap.curptr] == qc;
        if ap.curptr < ap.buf.len() {
            ap.curptr = ap.curptr + 1;
        }
        match vp {
            Some(v) => {
                if !closed {
                    return (None, false, Some(DvipsDimError::Syntax), true);
                }
                skip_blank_arg(ap);
                (Some((k as u8, v)), false, None, false)
            },
            None => (None, false, Some(DvipsDimError::MissingValue { key }), true),
        }
    } else {
        let (vp, p5) = parse_float_decimal(ap.buf.as_slice(), ap.curptr, ap.buf.len());
        ap.curptr = p5;
        match vp {
            Some(v) => {
                skip_blank_arg(ap);
                (Some((k as u8, v)), false, None, false)
            },
            None => (None, false, Some(DvipsDimError::MissingValue { key }), true),
        }
    }
}

/// A dimension and transformation specification in the dvips syntax as read: the keys with the
/// texts of their values in order (the caller applies them in that order: offsets, sizes,
/// scales in percent, an angle in degrees, the bounding box, and sizes in tenths of a point for
/// `rwi` and `rhi`), the flags, and the error.
#[derive(Debug, PartialEq)]
pub struct DvipsDimTrns {
    pub items: Vec<(u8, Vec<u8>)>,
    pub flags: i32,
    pub error: Option<DvipsDimError>,
}

/// What reading a dvips-syntax dimension specification from `cur` on a transformation whose
/// flags are `flags` gives: the items of `dvips_loop` from after blanks, the error, the read
/// position after, and the flags (clipping set by `clip`, the others by the items).
pub open spec fn dvips_dimtrns_spec(s: Seq<u8>, cur: int, flags: i32, r: DvipsDimTrns, pos: int) -> bool {
    let (items, clip, err, e) = dvips_loop(s, blank_end(s, cur, s.len() as int));
    &&& pairs_view(r.items@) == items
    &&& opt_dvips_err(r.error) == err
    &&& pos == e
    &&& r.flags == dvips_items_flags(if clip { flags | 8 } else { flags }, items)
}

/// Reads a dimension and transformation specification in the dvips syntax (`hoffset`,
/// `voffset`, `hsize`, `vsize`, `hscale`, `vscale`, `angle`, `clip`, `llx`, `lly`, `urx`,
/// `ury`, `rwi`, `rhi`), on a transformation whose flags are `flags`.
pub fn spc_read_dimtrns_dvips(ap: &mut spc_arg, flags: i32) -> (r: DvipsDimTrns)
    requires
        old(ap).wf(),
    ensures
        final(ap).wf(),
        final(ap).buf@ == old(ap).buf@,
        final(ap).command == old(ap).command,
        dvips_dimtrns_spec(old(ap).buf@, old(ap).curptr as int, flags, r, final(ap).curptr as int),
{
    let ghost s = ap.buf@;
    skip_blank_arg(ap);
    let ghost p0 = ap.curptr as int;
    let mut items: Vec<(u8, Vec<u8>)> = Vec::new();
    let mut clip = false;
    let mut error: Option<DvipsDimError> = None;
    let mut done = false;
    while !done && ap.curptr < ap.buf.len()
        invariant
            ap.wf(),
            ap.buf@ == s,
            ap.command == old(ap).command,
            !done ==> dvips_loop(s, p0) == (
                pairs_view(items@) + dvips_loop(s, ap.curptr as int).0,
                clip || dvips_loop(s, ap.curptr as int).1,
                dvips_loop(s, ap.curptr as int).2,
                dvips_loop(s, ap.curptr as int).3,
            ),
            done ==> dvips_loop(s, p0) == (
                pairs_view(items@),
                clip,
                opt_dvips_err(error),
                ap.curptr as int,
            ),
            !done ==> error is None,
        decreases s.len() - ap.curptr, if done { 0int } else { 1int },
    {
        let ghost iv = pairs_view(items@);
        let (it, c, e, stop) = dvips_step(ap);
        let ghost its = match &it {
            Some(x) => seq![(x.0, x.1@)],
            None => Seq::<(u8, Seq<u8>)>::empty(),
        };
        match it {
            Some(x) => {
                items.push(x);
            },
            None => {},
        }
        assert(pairs_view(items@) =~= iv + its);
        clip = clip || c;
        if stop {
            error = e;
            done = true;
        } else {
            let ghost rest = dvips_loop(s, ap.curptr as int);
            assert(iv + (its + rest.0) =~= (iv + its) + rest.0);
        }
    }
    proof {
        if !done {
            assert(dvips_loop(s, ap.curptr as int) == (
                Seq::<(u8, Seq<u8>)>::empty(),
                false,
                None::<DvipsDimErrorView>,
                ap.curptr as int,
            ));
            assert(pairs_view(items@) + Seq::<(u8, Seq<u8>)>::empty() =~= pairs_view(items@));
        }
    }
    let f0 = if clip {
        flags | 8
    } else {
        flags
    };
    let ghost all = pairs_view(items@);
    let mut f = f0;
    let mut i: usize = 0;
    while i < items.len()
        invariant
            i <= items@.len(),
            all == pairs_view(items@),
            f == dvips_items_flags(f0, all.take(i as int)),
        decreases items@.len() - i,
    {
        assert(all.take(i + 1).drop_last() =~= all.take(i as int));
        let k = items[i].0;
        f = if k == 2 || k == 12 {
            f | 2
        } else if k == 3 || k == 13 {
            f | 4
        } else if 8 <= k && k <= 11 {
            f | 1
        } else {
            f
        };
        i = i + 1;
    }
    assert(all.take(items@.len() as int) =~= all);
    DvipsDimTrns { items, flags: f, error }
}

/// A dimension and transformation specification read in one of the two syntaxes.
#[derive(Debug, PartialEq)]
pub enum DimTrnsRead {
    Dvips(DvipsDimTrns),
    Pdfm(DimTrns),
}

/// Reads a dimension and transformation specification: in the dvips syntax when `syntax` is
/// non-zero, else in that of `pdf:` specials.
pub fn spc_util_read_dimtrns(ap: &mut spc_arg, flags: i32, syntax: i32) -> (r: DimTrnsRead)
    requires
        old(ap).wf(),
    ensures
        final(ap).wf(),
        final(ap).buf@ == old(ap).buf@,
        final(ap).command == old(ap).command,
        match r {
            DimTrnsRead::Dvips(d) => syntax != 0 && dvips_dimtrns_spec(
                old(ap).buf@,
                old(ap).curptr as int,
                flags,
                d,
                final(ap).curptr as int,
            ),
            DimTrnsRead::Pdfm(d) => syntax == 0 && dimtrns_read_spec(
                old(ap).buf@,
                old(ap).curptr as int,
                flags,
                11,
                d,
                final(ap).curptr as int,
            ),
        },
{
    if syntax != 0 {
        DimTrnsRead::Dvips(spc_read_dimtrns_dvips(ap, flags))
    } else {
        DimTrnsRead::Pdfm(spc_read_dimtrns_pdfm(ap, flags))
    }
}


/// What each key of a dimension specification reads: `width`, `height` and `depth` a length;
/// `scale`, `xscale`, `yscale`, `rotate` and `clip` a number; `bbox` four numbers; `matrix`
/// six; `hide` nothing; where a page may be chosen (`nk` is 13), `page` a number and `pagebox`
/// the name of a page box. Any other key is refused, with no item.
pub proof fn law_dimension_keys(s: Seq<u8>, p: int, nk: int)
    requires
        0 <= p <= s.len(),
        nk == 11 || nk == 13,
    ensures
        ({
            let n = s.len() as int;
            let (kp, p1) = spec_parse_c_ident(s, p, n);
            let p2 = blank_end(s, p1, n);
            let (its, bad, _, _) = dim_step_spec(s, p, nk);
            let num = spec_parse_float_decimal(s, p2, n).0;
            kp matches Some(key) ==> {
                &&& key == seq![119u8, 105u8, 100u8, 116u8, 104u8] ==> its == seq![DimItemView::Width(read_length_spec(s, p2).0)]
                &&& key == seq![104u8, 101u8, 105u8, 103u8, 104u8, 116u8] ==> its == seq![DimItemView::Height(read_length_spec(s, p2).0)]
                &&& key == seq![100u8, 101u8, 112u8, 116u8, 104u8] ==> its == seq![DimItemView::Depth(read_length_spec(s, p2).0)]
                &&& key == seq![115u8, 99u8, 97u8, 108u8, 101u8] ==> its == (match num { Some(t) => seq![DimItemView::Scale(t)], None => Seq::empty() })
                &&& key == seq![120u8, 115u8, 99u8, 97u8, 108u8, 101u8] ==> its == (match num { Some(t) => seq![DimItemView::XScale(t)], None => Seq::empty() })
                &&& key == seq![121u8, 115u8, 99u8, 97u8, 108u8, 101u8] ==> its == (match num { Some(t) => seq![DimItemView::YScale(t)], None => Seq::empty() })
                &&& key == seq![114u8, 111u8, 116u8, 97u8, 116u8, 101u8] ==> its == (match num { Some(t) => seq![DimItemView::Rotate(t)], None => Seq::empty() })
                &&& key == seq![99u8, 108u8, 105u8, 112u8] ==> its == (match num { Some(t) => seq![DimItemView::Clip(t)], None => Seq::empty() })
                &&& key == seq![98u8, 98u8, 111u8, 120u8] ==> its == (if read_numbers_spec(s, p2, 4).0.len() == 4 {
                    seq![DimItemView::BBox(read_numbers_spec(s, p2, 4).0)]
                } else {
                    Seq::empty()
                })
                &&& key == seq![109u8, 97u8, 116u8, 114u8, 105u8, 120u8] ==> its == (if read_numbers_spec(s, p2, 6).0.len() == 6 {
                    seq![DimItemView::Matrix(read_numbers_spec(s, p2, 6).0)]
                } else {
                    Seq::empty()
                })
                &&& key == seq![104u8, 105u8, 100u8, 101u8] ==> its == seq![DimItemView::Hide]
                &&& nk == 13 && key == seq![112u8, 97u8, 103u8, 101u8] ==> its == (if read_numbers_spec(s, p2, 1).0.len() == 1 {
                    seq![DimItemView::Page(read_numbers_spec(s, p2, 1).0[0])]
                } else {
                    Seq::empty()
                })
                &&& nk == 13 && key == seq![112u8, 97u8, 103u8, 101u8, 98u8, 111u8, 120u8] ==> its == seq![DimItemView::PageBox(
                    match spec_parse_c_ident(s, p2, n).0 {
                        Some(w) => pagebox_of(w),
                        None => Some(0i32),
                    },
                )]
                &&& !(key == seq![119u8, 105u8, 100u8, 116u8, 104u8] || key == seq![104u8, 101u8, 105u8, 103u8, 104u8, 116u8] || key == seq![100u8, 101u8, 112u8, 116u8, 104u8] || key == seq![115u8, 99u8, 97u8, 108u8, 101u8]
                    || key == seq![120u8, 115u8, 99u8, 97u8, 108u8, 101u8] || key == seq![121u8, 115u8, 99u8, 97u8, 108u8, 101u8] || key == seq![114u8, 111u8, 116u8, 97u8, 116u8, 101u8] || key == seq![99u8, 108u8, 105u8, 112u8]
                    || key == seq![98u8, 98u8, 111u8, 120u8] || key == seq![109u8, 97u8, 116u8, 114u8, 105u8, 120u8] || key == seq![104u8, 105u8, 100u8, 101u8]
                    || (nk == 13 && (key == seq![112u8, 97u8, 103u8, 101u8] || key == seq![112u8, 97u8, 103u8, 101u8, 98u8, 111u8, 120u8]))) ==> its.len() == 0 && bad == Some(key)
            }
        }),
{
    reveal_with_fuel(first_match, 14);
    assert(dim_key(0) =~= seq![119u8, 105u8, 100u8, 116u8, 104u8]);
    assert(dim_key(1) =~= seq![104u8, 101u8, 105u8, 103u8, 104u8, 116u8]);
    assert(dim_key(2) =~= seq![100u8, 101u8, 112u8, 116u8, 104u8]);
    assert(dim_key(3) =~= seq![115u8, 99u8, 97u8, 108u8, 101u8]);
    assert(dim_key(4) =~= seq![120u8, 115u8, 99u8, 97u8, 108u8, 101u8]);
    assert(dim_key(5) =~= seq![121u8, 115u8, 99u8, 97u8, 108u8, 101u8]);
    assert(dim_key(6) =~= seq![114u8, 111u8, 116u8, 97u8, 116u8, 101u8]);
    assert(dim_key(7) =~= seq![98u8, 98u8, 111u8, 120u8]);
    assert(dim_key(8) =~= seq![109u8, 97u8, 116u8, 114u8, 105u8, 120u8]);
    assert(dim_key(9) =~= seq![99u8, 108u8, 105u8, 112u8]);
    assert(dim_key(10) =~= seq![104u8, 105u8, 100u8, 101u8]);
    assert(dim_key(11) =~= seq![112u8, 97u8, 103u8, 101u8]);
    assert(dim_key(12) =~= seq![112u8, 97u8, 103u8, 101u8, 98u8, 111u8, 120u8]);
    assert(dim_key(0).len() != dim_key(1).len());
    assert(dim_key(0)[0] != dim_key(2)[0]);
    assert(dim_key(1).len() != dim_key(2).len());
    assert(dim_key(0)[0] != dim_key(3)[0]);
    assert(dim_key(1).len() != dim_key(3).len());
    assert(dim_key(2)[0] != dim_key(3)[0]);
    assert(dim_key(0).len() != dim_key(4).len());
    assert(dim_key(1)[0] != dim_key(4)[0]);
    assert(dim_key(2).len() != dim_key(4).len());
    assert(dim_key(3).len() != dim_key(4).len());
    assert(dim_key(0).len() != dim_key(5).len());
    assert(dim_key(1)[0] != dim_key(5)[0]);
    assert(dim_key(2).len() != dim_key(5).len());
    assert(dim_key(3).len() != dim_key(5).len());
    assert(dim_key(4)[0] != dim_key(5)[0]);
    assert(dim_key(0).len() != dim_key(6).len());
    assert(dim_key(1)[0] != dim_key(6)[0]);
    assert(dim_key(2).len() != dim_key(6).len());
    assert(dim_key(3).len() != dim_key(6).len());
    assert(dim_key(4)[0] != dim_key(6)[0]);
    assert(dim_key(5)[0] != dim_key(6)[0]);
    assert(dim_key(0).len() != dim_key(7).len());
    assert(dim_key(1).len() != dim_key(7).len());
    assert(dim_key(2).len() != dim_key(7).len());
    assert(dim_key(3).len() != dim_key(7).len());
    assert(dim_key(4).len() != dim_key(7).len());
    assert(dim_key(5).len() != dim_key(7).len());
    assert(dim_key(6).len() != dim_key(7).len());
    assert(dim_key(0).len() != dim_key(8).len());
    assert(dim_key(1)[0] != dim_key(8)[0]);
    assert(dim_key(2).len() != dim_key(8).len());
    assert(dim_key(3).len() != dim_key(8).len());
    assert(dim_key(4)[0] != dim_key(8)[0]);
    assert(dim_key(5)[0] != dim_key(8)[0]);
    assert(dim_key(6)[0] != dim_key(8)[0]);
    assert(dim_key(7).len() != dim_key(8).len());
    assert(dim_key(0).len() != dim_key(9).len());
    assert(dim_key(1).len() != dim_key(9).len());
    assert(dim_key(2).len() != dim_key(9).len());
    assert(dim_key(3).len() != dim_key(9).len());
    assert(dim_key(4).len() != dim_key(9).len());
    assert(dim_key(5).len() != dim_key(9).len());
    assert(dim_key(6).len() != dim_key(9).len());
    assert(dim_key(7)[0] != dim_key(9)[0]);
    assert(dim_key(8).len() != dim_key(9).len());
    assert(dim_key(0).len() != dim_key(10).len());
    assert(dim_key(1).len() != dim_key(10).len());
    assert(dim_key(2).len() != dim_key(10).len());
    assert(dim_key(3).len() != dim_key(10).len());
    assert(dim_key(4).len() != dim_key(10).len());
    assert(dim_key(5).len() != dim_key(10).len());
    assert(dim_key(6).len() != dim_key(10).len());
    assert(dim_key(7)[0] != dim_key(10)[0]);
    assert(dim_key(8).len() != dim_key(10).len());
    assert(dim_key(9)[0] != dim_key(10)[0]);
    assert(dim_key(0).len() != dim_key(11).len());
    assert(dim_key(1).len() != dim_key(11).len());
    assert(dim_key(2).len() != dim_key(11).len());
    assert(dim_key(3).len() != dim_key(11).len());
    assert(dim_key(4).len() != dim_key(11).len());
    assert(dim_key(5).len() != dim_key(11).len());
    assert(dim_key(6).len() != dim_key(11).len());
    assert(dim_key(7)[0] != dim_key(11)[0]);
    assert(dim_key(8).len() != dim_key(11).len());
    assert(dim_key(9)[0] != dim_key(11)[0]);
    assert(dim_key(10)[0] != dim_key(11)[0]);
    assert(dim_key(0).len() != dim_key(12).len());
    assert(dim_key(1).len() != dim_key(12).len());
    assert(dim_key(2).len() != dim_key(12).len());
    assert(dim_key(3).len() != dim_key(12).len());
    assert(dim_key(4).len() != dim_key(12).len());
    assert(dim_key(5).len() != dim_key(12).len());
    assert(dim_key(6).len() != dim_key(12).len());
    assert(dim_key(7).len() != dim_key(12).len());
    assert(dim_key(8).len() != dim_key(12).len());
    assert(dim_key(9).len() != dim_key(12).len());
    assert(dim_key(10).len() != dim_key(12).len());
    assert(dim_key(11).len() != dim_key(12).len());
}

/// The page boxes by name, in any case: `cropbox` 1, `mediabox` 2, `artbox` 3, `trimbox` 4,
/// `bleedbox` 5; another name is none.
pub proof fn law_pagebox_names(w: Seq<u8>)
    ensures
        ({
            let l = ascii_lowercase(w);
            pagebox_of(w) == (if l == seq![99u8, 114u8, 111u8, 112u8, 98u8, 111u8, 120u8] {
                Some(1i32)
            } else if l == seq![109u8, 101u8, 100u8, 105u8, 97u8, 98u8, 111u8, 120u8] {
                Some(2i32)
            } else if l == seq![97u8, 114u8, 116u8, 98u8, 111u8, 120u8] {
                Some(3i32)
            } else if l == seq![116u8, 114u8, 105u8, 109u8, 98u8, 111u8, 120u8] {
                Some(4i32)
            } else if l == seq![98u8, 108u8, 101u8, 101u8, 100u8, 98u8, 111u8, 120u8] {
                Some(5i32)
            } else {
                None
            })
        }),
{
    reveal_with_fuel(first_match, 6);
    assert(pagebox_key(0) =~= seq![99u8, 114u8, 111u8, 112u8, 98u8, 111u8, 120u8]);
    assert(pagebox_key(1) =~= seq![109u8, 101u8, 100u8, 105u8, 97u8, 98u8, 111u8, 120u8]);
    assert(pagebox_key(2) =~= seq![97u8, 114u8, 116u8, 98u8, 111u8, 120u8]);
    assert(pagebox_key(3) =~= seq![116u8, 114u8, 105u8, 109u8, 98u8, 111u8, 120u8]);
    assert(pagebox_key(4) =~= seq![98u8, 108u8, 101u8, 101u8, 100u8, 98u8, 111u8, 120u8]);
    assert(pagebox_key(0).len() != pagebox_key(1).len());
    assert(pagebox_key(0).len() != pagebox_key(2).len());
    assert(pagebox_key(1).len() != pagebox_key(2).len());
    assert(pagebox_key(0)[0] != pagebox_key(3)[0]);
    assert(pagebox_key(1).len() != pagebox_key(3).len());
    assert(pagebox_key(2).len() != pagebox_key(3).len());
    assert(pagebox_key(0).len() != pagebox_key(4).len());
    assert(pagebox_key(1)[0] != pagebox_key(4)[0]);
    assert(pagebox_key(2).len() != pagebox_key(4).len());
    assert(pagebox_key(3).len() != pagebox_key(4).len());
}

/// The keys of the dvips syntax and the numbers that stand for them in the items read:
/// `hoffset` 0, `voffset` 1, `hsize` 2, `vsize` 3, `hscale` 4, `vscale` 5, `angle` 6, `clip`
/// 7, `llx` 8, `lly` 9, `urx` 10, `ury` 11, `rwi` 12, `rhi` 13; another key is unknown.
pub proof fn law_dvips_dimension_keys(key: Seq<u8>)
    ensures
        first_match(|i: int| dvips_dim_key(i), 14, key, 0) == (if key == seq![104u8, 111u8, 102u8, 102u8, 115u8, 101u8, 116u8] {
            Some(0int)
        } else if key == seq![118u8, 111u8, 102u8, 102u8, 115u8, 101u8, 116u8] {
            Some(1int)
        } else if key == seq![104u8, 115u8, 105u8, 122u8, 101u8] {
            Some(2int)
        } else if key == seq![118u8, 115u8, 105u8, 122u8, 101u8] {
            Some(3int)
        } else if key == seq![104u8, 115u8, 99u8, 97u8, 108u8, 101u8] {
            Some(4int)
        } else if key == seq![118u8, 115u8, 99u8, 97u8, 108u8, 101u8] {
            Some(5int)
        } else if key == seq![97u8, 110u8, 103u8, 108u8, 101u8] {
            Some(6int)
        } else if key == seq![99u8, 108u8, 105u8, 112u8] {
            Some(7int)
        } else if key == seq![108u8, 108u8, 120u8] {
            Some(8int)
        } else if key == seq![108u8, 108u8, 121u8] {
            Some(9int)
        } else if key == seq![117u8, 114u8, 120u8] {
            Some(10int)
        } else if key == seq![117u8, 114u8, 121u8] {
            Some(11int)
        } else if key == seq![114u8, 119u8, 105u8] {
            Some(12int)
        } else if key == seq![114u8, 104u8, 105u8] {
            Some(13int)
        } else {
            None
        }),
{
    reveal_with_fuel(first_match, 15);
    assert(dvips_dim_key(0) =~= seq![104u8, 111u8, 102u8, 102u8, 115u8, 101u8, 116u8]);
    assert(dvips_dim_key(1) =~= seq![118u8, 111u8, 102u8, 102u8, 115u8, 101u8, 116u8]);
    assert(dvips_dim_key(2) =~= seq![104u8, 115u8, 105u8, 122u8, 101u8]);
    assert(dvips_dim_key(3) =~= seq![118u8, 115u8, 105u8, 122u8, 101u8]);
    assert(dvips_dim_key(4) =~= seq![104u8, 115u8, 99u8, 97u8, 108u8, 101u8]);
    assert(dvips_dim_key(5) =~= seq![118u8, 115u8, 99u8, 97u8, 108u8, 101u8]);
    assert(dvips_dim_key(6) =~= seq![97u8, 110u8, 103u8, 108u8, 101u8]);
    assert(dvips_dim_key(7) =~= seq![99u8, 108u8, 105u8, 112u8]);
    assert(dvips_dim_key(8) =~= seq![108u8, 108u8, 120u8]);
    assert(dvips_dim_key(9) =~= seq![108u8, 108u8, 121u8]);
    assert(dvips_dim_key(10) =~= seq![117u8, 114u8, 120u8]);
    assert(dvips_dim_key(11) =~= seq![117u8, 114u8, 121u8]);
    assert(dvips_dim_key(12) =~= seq![114u8, 119u8, 105u8]);
    assert(dvips_dim_key(13) =~= seq![114u8, 104u8, 105u8]);
    assert(dvips_dim_key(0)[0] != dvips_dim_key(1)[0]);
    assert(dvips_dim_key(0).len() != dvips_dim_key(2).len());
    assert(dvips_dim_key(1).len() != dvips_dim_key(2).len());
    assert(dvips_dim_key(0).len() != dvips_dim_key(3).len());
    assert(dvips_dim_key(1).len() != dvips_dim_key(3).len());
    assert(dvips_dim_key(2)[0] != dvips_dim_key(3)[0]);
    assert(dvips_dim_key(0).len() != dvips_dim_key(4).len());
    assert(dvips_dim_key(1).len() != dvips_dim_key(4).len());
    assert(dvips_dim_key(2).len() != dvips_dim_key(4).len());
    assert(dvips_dim_key(3).len() != dvips_dim_key(4).len());
    assert(dvips_dim_key(0).len() != dvips_dim_key(5).len());
    assert(dvips_dim_key(1).len() != dvips_dim_key(5).len());
    assert(dvips_dim_key(2).len() != dvips_dim_key(5).len());
    assert(dvips_dim_key(3).len() != dvips_dim_key(5).len());
    assert(dvips_dim_key(4)[0] != dvips_dim_key(5)[0]);
    assert(dvips_dim_key(0).len() != dvips_dim_key(6).len());
    assert(dvips_dim_key(1).len() != dvips_dim_key(6).len());
    assert(dvips_dim_key(2)[0] != dvips_dim_key(6)[0]);
    assert(dvips_dim_key(3)[0] != dvips_dim_key(6)[0]);
    assert(dvips_dim_key(4).len() != dvips_dim_key(6).len());
    assert(dvips_dim_key(5).len() != dvips_dim_key(6).len());
    assert(dvips_dim_key(0).len() != dvips_dim_key(7).len());
    assert(dvips_dim_key(1).len() != dvips_dim_key(7).len());
    assert(dvips_dim_key(2).len() != dvips_dim_key(7).len());
    assert(dvips_dim_key(3).len() != dvips_dim_key(7).len());
    assert(dvips_dim_key(4).len() != dvips_dim_key(7).len());
    assert(dvips_dim_key(5).len() != dvips_dim_key(7).len());
    assert(dvips_dim_key(6).len() != dvips_dim_key(7).len());
    assert(dvips_dim_key(0).len() != dvips_dim_key(8).len());
    assert(dvips_dim_key(1).len() != dvips_dim_key(8).len());
    assert(dvips_dim_key(2).len() != dvips_dim_key(8).len());
    assert(dvips_dim_key(3).len() != dvips_dim_key(8).len());
    assert(dvips_dim_key(4).len() != dvips_dim_key(8).len());
    assert(dvips_dim_key(5).len() != dvips_dim_key(8).len());
    assert(dvips_dim_key(6).len() != dvips_dim_key(8).len());
    assert(dvips_dim_key(7).len() != dvips_dim_key(8).len());
    assert(dvips_dim_key(0).len() != dvips_dim_key(9).len());
    assert(dvips_dim_key(1).len() != dvips_dim_key(9).len());
    assert(dvips_dim_key(2).len() != dvips_dim_key(9).len());
    assert(dvips_dim_key(3).len() != dvips_dim_key(9).len());
    assert(dvips_dim_key(4).len() != dvips_dim_key(9).len());
    assert(dvips_dim_key(5).len() != dvips_dim_key(9).len());
    assert(dvips_dim_key(6).len() != dvips_dim_key(9).len());
    assert(dvips_dim_key(7).len() != dvips_dim_key(9).len());
    assert(dvips_dim_key(8)[2] != dvips_dim_key(9)[2]);
    assert(dvips_dim_key(0).len() != dvips_dim_key(10).len());
    assert(dvips_dim_key(1).len() != dvips_dim_key(10).len());
    assert(dvips_dim_key(2).len() != dvips_dim_key(10).len());
    assert(dvips_dim_key(3).len() != dvips_dim_key(10).len());
    assert(dvips_dim_key(4).len() != dvips_dim_key(10).len());
    assert(dvips_dim_key(5).len() != dvips_dim_key(10).len());
    assert(dvips_dim_key(6).len() != dvips_dim_key(10).len());
    assert(dvips_dim_key(7).len() != dvips_dim_key(10).len());
    assert(dvips_dim_key(8)[0] != dvips_dim_key(10)[0]);
    assert(dvips_dim_key(9)[0] != dvips_dim_key(10)[0]);
    assert(dvips_dim_key(0).len() != dvips_dim_key(11).len());
    assert(dvips_dim_key(1).len() != dvips_dim_key(11).len());
    assert(dvips_dim_key(2).len() != dvips_dim_key(11).len());
    assert(dvips_dim_key(3).len() != dvips_dim_key(11).len());
    assert(dvips_dim_key(4).len() != dvips_dim_key(11).len());
    assert(dvips_dim_key(5).len() != dvips_dim_key(11).len());
    assert(dvips_dim_key(6).len() != dvips_dim_key(11).len());
    assert(dvips_dim_key(7).len() != dvips_dim_key(11).len());
    assert(dvips_dim_key(8)[0] != dvips_dim_key(11)[0]);
    assert(dvips_dim_key(9)[0] != dvips_dim_key(11)[0]);
    assert(dvips_dim_key(10)[2] != dvips_dim_key(11)[2]);
    assert(dvips_dim_key(0).len() != dvips_dim_key(12).len());
    assert(dvips_dim_key(1).len() != dvips_dim_key(12).len());
    assert(dvips_dim_key(2).len() != dvips_dim_key(12).len());
    assert(dvips_dim_key(3).len() != dvips_dim_key(12).len());
    assert(dvips_dim_key(4).len() != dvips_dim_key(12).len());
    assert(dvips_dim_key(5).len() != dvips_dim_key(12).len());
    assert(dvips_dim_key(6).len() != dvips_dim_key(12).len());
    assert(dvips_dim_key(7).len() != dvips_dim_key(12).len());
    assert(dvips_dim_key(8)[0] != dvips_dim_key(12)[0]);
    assert(dvips_dim_key(9)[0] != dvips_dim_key(12)[0]);
    assert(dvips_dim_key(10)[0] != dvips_dim_key(12)[0]);
    assert(dvips_dim_key(11)[0] != dvips_dim_key(12)[0]);
    assert(dvips_dim_key(0).len() != dvips_dim_key(13).len());
    assert(dvips_dim_key(1).len() != dvips_dim_key(13).len());
    assert(dvips_dim_key(2).len() != dvips_dim_key(13).len());
    assert(dvips_dim_key(3).len() != dvips_dim_key(13).len());
    assert(dvips_dim_key(4).len() != dvips_dim_key(13).len());
    assert(dvips_dim_key(5).len() != dvips_dim_key(13).len());
    assert(dvips_dim_key(6).len() != dvips_dim_key(13).len());
    assert(dvips_dim_key(7).len() != dvips_dim_key(13).len());
    assert(dvips_dim_key(8)[0] != dvips_dim_key(13)[0]);
    assert(dvips_dim_key(9)[0] != dvips_dim_key(13)[0]);
    assert(dvips_dim_key(10)[0] != dvips_dim_key(13)[0]);
    assert(dvips_dim_key(11)[0] != dvips_dim_key(13)[0]);
    assert(dvips_dim_key(12)[1] != dvips_dim_key(13)[1]);
}

/// What the colour keywords read: `rgb` three values, `cmyk` four, `gray` one, `hsb` three,
/// each in its colour space; `spot` a colour name and its tint; any other word is the name of
/// a colour.
pub proof fn law_color_keywords(s: Seq<u8>, cur: int)
    ensures
        ({
            let n = s.len() as int;
            let (q, p1) = spec_parse_c_ident(s, cur, n);
            let p2 = blank_end(s, p1, n);
            let r = read_color_color_spec(s, cur);
            q matches Some(w) ==> {
                &&& w == seq![114u8, 103u8, 98u8] ==> r == values_color(s, p2, ColorSpace::Rgb, 3)
                &&& w == seq![99u8, 109u8, 121u8, 107u8] ==> r == values_color(s, p2, ColorSpace::Cmyk, 4)
                &&& w == seq![103u8, 114u8, 97u8, 121u8] ==> r == values_color(s, p2, ColorSpace::Gray, 1)
                &&& w == seq![104u8, 115u8, 98u8] ==> r == values_color(s, p2, ColorSpace::Hsb, 3)
                &&& w == seq![115u8, 112u8, 111u8, 116u8] ==> match r.0 {
                    Ok(c) => c is Spot,
                    Err(e) => e is NoSpotName || e is BadSpotValue,
                }
                &&& !(w == seq![114u8, 103u8, 98u8] || w == seq![99u8, 109u8, 121u8, 107u8] || w == seq![103u8, 114u8, 97u8, 121u8] || w == seq![104u8, 115u8, 98u8] || w == seq![115u8, 112u8, 111u8, 116u8])
                    ==> r == (named_color_result(w), p2)
            }
        }),
{
    assert(rgb_word() =~= seq![114u8, 103u8, 98u8]);
    assert(cmyk_word() =~= seq![99u8, 109u8, 121u8, 107u8]);
    assert(gray_word() =~= seq![103u8, 114u8, 97u8, 121u8]);
    assert(spot_word() =~= seq![115u8, 112u8, 111u8, 116u8]);
    assert(hsb_word() =~= seq![104u8, 115u8, 98u8]);
    assert(seq![99u8, 109u8, 121u8, 107u8][0] != seq![103u8, 114u8, 97u8, 121u8][0] && seq![99u8, 109u8, 121u8, 107u8][0] != seq![115u8, 112u8, 111u8, 116u8][0] && seq![103u8, 114u8, 97u8, 121u8][0] != seq![115u8, 112u8, 111u8, 116u8][0]);
    assert(seq![114u8, 103u8, 98u8][0] != seq![104u8, 115u8, 98u8][0]);
}

/// A unit written `true` followed by a unit is not magnified: the word is `true`.
pub proof fn law_true_word()
    ensures
        true_word() == seq![116u8, 114u8, 117u8, 101u8],
{
    assert(true_word() =~= seq![116u8, 114u8, 117u8, 101u8]);
}

} // verus!
