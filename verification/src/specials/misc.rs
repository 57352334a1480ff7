use vstd::prelude::*;
use crate::pdfparse::skip_white_end;
use crate::specials::{spc_arg, prefix_at, bytes_at, skip_white_arg};
use crate::specials::dvips::alpha_run_end;
use crate::text::{before_first, lemma_first_index_of, find_byte, slice_to_vec};
use crate::dpxutil::{parse_float_decimal, spec_parse_float_decimal};

verus! {

/// The keys of the miscellaneous specials, in the order they are tried.
pub open spec fn misc_key(i: int) -> Seq<u8> {
    if i == 0 {
        // postscriptbox
        seq![112u8, 111u8, 115u8, 116u8, 115u8, 99u8, 114u8, 105u8, 112u8, 116u8, 98u8, 111u8, 120u8]
    } else if i == 1 {
        // landscape
        seq![108u8, 97u8, 110u8, 100u8, 115u8, 99u8, 97u8, 112u8, 101u8]
    } else if i == 2 {
        // papersize
        seq![112u8, 97u8, 112u8, 101u8, 114u8, 115u8, 105u8, 122u8, 101u8]
    } else if i == 3 {
        // src:
        seq![115u8, 114u8, 99u8, 58u8]
    } else if i == 4 {
        // pos:
        seq![112u8, 111u8, 115u8, 58u8]
    } else if i == 5 {
        // om:
        seq![111u8, 109u8, 58u8]
    } else {
        Seq::<u8>::empty()
    }
}

fn misc_key_bytes(i: usize) -> (r: Vec<u8>)
    requires
        i < 6,
    ensures
        r@ == misc_key(i as int),
{
    match i {
        0 => vec![112u8, 111u8, 115u8, 116u8, 115u8, 99u8, 114u8, 105u8, 112u8, 116u8, 98u8, 111u8, 120u8], // postscriptbox
        1 => vec![108u8, 97u8, 110u8, 100u8, 115u8, 99u8, 97u8, 112u8, 101u8], // landscape
        2 => vec![112u8, 97u8, 112u8, 101u8, 114u8, 115u8, 105u8, 122u8, 101u8], // papersize
        3 => vec![115u8, 114u8, 99u8, 58u8], // src:
        4 => vec![112u8, 111u8, 115u8, 58u8], // pos:
        _ => vec![111u8, 109u8, 58u8], // om:
    }
}

/// What each miscellaneous special does.
#[derive(PartialEq, Eq, Structural, Clone, Copy, Debug)]
pub enum MiscHandler {
    /// `postscriptbox{W}{H}{FILE}`: an image of the given size.
    PostScriptBox,
    /// `landscape`, `papersize`, `src:`, `pos:`, `om:`: accepted and ignored.
    Null,
}

/// The handler of the `i`th key of `misc_key`.
pub open spec fn misc_handler_of(i: int) -> MiscHandler {
    if i == 0 {
        MiscHandler::PostScriptBox
    } else {
        MiscHandler::Null
    }
}

/// Whether one of the keys of `misc_key` from the `i`th on stands at position `p` of `s`.
pub open spec fn misc_key_at(s: Seq<u8>, p: int, i: int) -> bool
    decreases 6 - i,
{
    if i < 0 || i >= 6 {
        false
    } else {
        prefix_at(s, p, misc_key(i)) || misc_key_at(s, p, i + 1)
    }
}

/// Whether a special is a miscellaneous one: after white space and comments, one of the keys of
/// `misc_key` starts the text.
pub fn spc_misc_check_special(buf: &[u8]) -> (r: bool)
    ensures
        r == misc_key_at(buf@, skip_white_end(buf@, 0), 0),
{
    let p = crate::pdfparse::skip_white(buf, 0);
    let mut i: usize = 0;
    while i < 6
        invariant
            i <= 6,
            p <= buf@.len(),
            p == skip_white_end(buf@, 0),
            misc_key_at(buf@, p as int, 0) == misc_key_at(buf@, p as int, i as int),
        decreases 6 - i,
    {
        let k = misc_key_bytes(i);
        if bytes_at(buf, p, k.as_slice()) {
            assert(misc_key_at(buf@, p as int, i as int));
            return true;
        }
        i = i + 1;
    }
    false
}

/// Where the key of a miscellaneous special that starts at `k` ends: a run of letters and an
/// optional `:`.
pub open spec fn misc_key_end(s: Seq<u8>, k: int) -> int {
    let a = alpha_run_end(s, k);
    if a < s.len() && s[a] == 58 {
        a + 1
    } else {
        a
    }
}

/// The index of the first key of `misc_key` from `i` on that is `v`.
pub open spec fn misc_lookup(v: Seq<u8>, i: int) -> Option<int>
    decreases 6 - i,
{
    if i < 0 || i >= 6 {
        None
    } else if misc_key(i) == v {
        Some(i)
    } else {
        misc_lookup(v, i + 1)
    }
}

/// What the setup of a miscellaneous special does, from read position `cur`: the handler of
/// the key (when it is one of `misc_key`), and where reading stands after.
pub open spec fn misc_setup_spec(s: Seq<u8>, cur: int) -> (Option<MiscHandler>, int) {
    let k = skip_white_end(s, cur);
    let e = misc_key_end(s, k);
    if e - k < 1 {
        (None, e)
    } else {
        match misc_lookup(s.subrange(k, e), 0) {
            Some(i) => (Some(misc_handler_of(i)), skip_white_end(s, e)),
            None => (None, e),
        }
    }
}

/// The key read decides the handler of a miscellaneous special: `postscriptbox` places an
/// image; `landscape`, `papersize`, `src:`, `pos:` and `om:` are accepted and ignored. Any
/// other key is refused.
pub proof fn law_misc_keys_choose_handlers(s: Seq<u8>, cur: int)
    requires
        0 <= cur <= s.len(),
    ensures
        ({
            let c = misc_setup_command(s, cur);
            misc_setup_spec(s, cur).0 == (if c == seq![112u8, 111u8, 115u8, 116u8, 115u8, 99u8, 114u8, 105u8, 112u8, 116u8, 98u8, 111u8, 120u8] {
            Some(MiscHandler::PostScriptBox)
        } else if c == seq![108u8, 97u8, 110u8, 100u8, 115u8, 99u8, 97u8, 112u8, 101u8] || c == seq![112u8, 97u8, 112u8, 101u8, 114u8, 115u8, 105u8, 122u8, 101u8] || c == seq![115u8, 114u8, 99u8, 58u8] || c == seq![112u8, 111u8, 115u8, 58u8] || c == seq![111u8, 109u8, 58u8] {
            Some(MiscHandler::Null)
        } else {
            None::<MiscHandler>
        })
        }),
{
    let k = skip_white_end(s, cur);
    crate::pdfparse::lemma_skip_white_end(s, cur);
    crate::specials::dvips::lemma_alpha_run_end(s, k);
    reveal_with_fuel(misc_lookup, 7);
    assert(misc_key(0) =~= seq![112u8, 111u8, 115u8, 116u8, 115u8, 99u8, 114u8, 105u8, 112u8, 116u8, 98u8, 111u8, 120u8]);
    assert(misc_key(1) =~= seq![108u8, 97u8, 110u8, 100u8, 115u8, 99u8, 97u8, 112u8, 101u8]);
    assert(misc_key(2) =~= seq![112u8, 97u8, 112u8, 101u8, 114u8, 115u8, 105u8, 122u8, 101u8]);
    assert(misc_key(3) =~= seq![115u8, 114u8, 99u8, 58u8]);
    assert(misc_key(4) =~= seq![112u8, 111u8, 115u8, 58u8]);
    assert(misc_key(5) =~= seq![111u8, 109u8, 58u8]);
    assert(misc_key(1)[0] != misc_key(2)[0]);
    assert(misc_key(3)[0] != misc_key(4)[0]);
}

/// The key of a miscellaneous special read from `cur`: the text from after white space to
/// `misc_key_end`.
pub open spec fn misc_setup_command(s: Seq<u8>, cur: int) -> Seq<u8> {
    let k = skip_white_end(s, cur);
    s.subrange(k, misc_key_end(s, k))
}

/// Reads the key of a miscellaneous special. On success the key is recorded in `ap.command`
/// and its handler is returned; `None` for an empty or unknown key.
pub fn spc_misc_setup_handler(args: &mut spc_arg) -> (r: Option<MiscHandler>)
    requires
        old(args).wf(),
    ensures
        final(args).wf(),
        final(args).buf@ == old(args).buf@,
        (r, final(args).curptr as int) == misc_setup_spec(old(args).buf@, old(args).curptr as int),
        r is Some ==> (final(args).command matches Some(c) && misc_lookup(c@, 0) is Some
            && c@ == misc_setup_command(old(args).buf@, old(args).curptr as int)),
        r is None ==> final(args).command == old(args).command,
{
    let ghost s = args.buf@;
    skip_white_arg(args);
    let key = args.curptr;
    while args.curptr < args.buf.len() && ((65 <= args.buf[args.curptr] && args.buf[args.curptr]
        <= 90) || (97 <= args.buf[args.curptr] && args.buf[args.curptr] <= 122))
        invariant
            args.wf(),
            args.buf@ == s,
            args.command == old(args).command,
            key <= args.curptr,
            alpha_run_end(s, key as int) == alpha_run_end(s, args.curptr as int),
        decreases s.len() - args.curptr,
    {
        args.curptr = args.curptr + 1;
    }
    if args.curptr < args.buf.len() && args.buf[args.curptr] == 58 {
        args.curptr = args.curptr + 1;
    }
    let e = args.curptr;
    if e - key < 1 {
        return None;
    }
    let v = slice_to_vec(&args.buf.as_slice()[key..e]);
    let mut i: usize = 0;
    let mut found: Option<usize> = None;
    while i < 6 && found.is_none()
        invariant
            i <= 6,
            v@ == s.subrange(key as int, e as int),
            match found {
                Some(j) => j < 6 && misc_lookup(v@, 0) == Some(j as int),
                None => misc_lookup(v@, 0) == misc_lookup(v@, i as int),
            },
        decreases 6 - i + (if found is None { 1int } else { 0int }),
    {
        let k = misc_key_bytes(i);
        if crate::text::bytes_eq(k.as_slice(), v.as_slice()) {
            found = Some(i);
        } else {
            i = i + 1;
        }
    }
    match found {
        Some(j) => {
            skip_white_arg(args);
            args.command = Some(v);
            Some(if j == 0 {
                MiscHandler::PostScriptBox
            } else {
                MiscHandler::Null
            })
        },
        None => None,
    }
}

/// The text that a `postscriptbox` special is read from: at most 511 bytes of the rest of the
/// special, up to a NUL byte. `None` (an error) when nothing is left.
pub open spec fn postscriptbox_text(s: Seq<u8>, cur: int) -> Option<Seq<u8>> {
    if cur >= s.len() {
        None
    } else {
        let n = if s.len() - cur > 511 { 511 } else { s.len() - cur };
        Some(before_first(s.subrange(cur, cur + n), 0u8))
    }
}

/// The text of a `postscriptbox` special (see `postscriptbox_text`); the caller reads the
/// width, height and file name from it and consumes the special when they are there.
pub fn spc_handler_postscriptbox(ap: &spc_arg) -> (r: Option<Vec<u8>>)
    requires
        ap.wf(),
    ensures
        match r {
            Some(t) => postscriptbox_text(ap.buf@, ap.curptr as int) == Some(t@),
            None => postscriptbox_text(ap.buf@, ap.curptr as int) is None,
        },
{
    if ap.curptr >= ap.buf.len() {
        return None;
    }
    let n = if ap.buf.len() - ap.curptr > 511 {
        511
    } else {
        ap.buf.len() - ap.curptr
    };
    let t = &ap.buf.as_slice()[ap.curptr..ap.curptr + n];
    proof {
        lemma_first_index_of(t@, 0u8);
    }
    let m = match find_byte(t, 0u8) {
        Some(m) => m,
        None => t.len(),
    };
    Some(slice_to_vec(&t[0..m]))
}


/// Whether `c` is white space as C's `isspace` has it (space, tab, newline, vertical tab,
/// form feed, carriage return).
pub open spec fn is_c_space(c: u8) -> bool {
    c == 32 || (9 <= c <= 13)
}

/// Where the white space from `i` ends.
pub open spec fn c_space_end(t: Seq<u8>, i: int) -> int
    decreases t.len() - i,
{
    if 0 <= i < t.len() && is_c_space(t[i]) {
        c_space_end(t, i + 1)
    } else {
        i
    }
}

/// Where the file name of a `postscriptbox` special that starts at `i` ends: at the first
/// `}`, at the end of the text, or after `lim - i` bytes.
pub open spec fn box_name_end(t: Seq<u8>, i: int, lim: int) -> int
    decreases t.len() - i,
{
    if 0 <= i < t.len() && i < lim && t[i] != 125u8 {
        box_name_end(t, i + 1, lim)
    } else {
        i
    }
}

/// A number text that ends in a digit or `.`: one with an exponent mark, or a sign after it,
/// but no exponent digits is not a number that `%lf` reads to its end.
pub open spec fn number_complete(w: Seq<u8>) -> bool {
    w.len() > 0 && (48 <= w.last() <= 57 || w.last() == 46u8)
}

fn number_is_complete(w: &Vec<u8>) -> (r: bool)
    ensures
        r == number_complete(w@),
{
    w.len() > 0 && ((48 <= w[w.len() - 1] && w[w.len() - 1] <= 57) || w[w.len() - 1] == 46u8)
}

/// `pt}{`, which follows each of the two numbers.
pub open spec fn pt_sep() -> Seq<u8> {
    seq![112u8, 116u8, 125u8, 123u8]
}

/// The width and height texts and the file name of a `postscriptbox` special's text
/// `{W pt}{H pt}{FILE}` (the pattern `{%lfpt}{%lfpt}{%255[^}]}`): `{`, white space, a decimal
/// number as `parse_float_decimal` reads it (ending in a digit or `.`), `pt}{`, white space, a
/// number, `pt}{`, and a file name of 1 to 255 bytes up to the next `}`. `None` when the text
/// does not match so far.
pub open spec fn postscriptbox_parts_spec(t: Seq<u8>) -> Option<(Seq<u8>, Seq<u8>, Seq<u8>)> {
    if t.len() == 0 || t[0] != 123u8 {
        None
    } else {
        let a = c_space_end(t, 1);
        match spec_parse_float_decimal(t, a, t.len() as int) {
            (Some(w), e1) => if number_complete(w) && prefix_at(t, e1, pt_sep()) {
                let b = c_space_end(t, e1 + 4);
                match spec_parse_float_decimal(t, b, t.len() as int) {
                    (Some(h), e2) => if number_complete(h) && prefix_at(t, e2, pt_sep()) {
                        let k = e2 + 4;
                        let n = box_name_end(t, k, k + 255);
                        if n > k {
                            Some((w, h, t.subrange(k, n)))
                        } else {
                            None
                        }
                    } else {
                        None
                    },
                    _ => None,
                }
            } else {
                None
            },
            _ => None,
        }
    }
}

fn skip_c_space(t: &[u8], i: usize) -> (r: usize)
    requires
        i <= t@.len(),
    ensures
        r == c_space_end(t@, i as int),
        i <= r <= t@.len(),
{
    let mut p = i;
    while p < t.len() && (t[p] == 32 || (9 <= t[p] && t[p] <= 13))
        invariant
            i <= p <= t@.len(),
            c_space_end(t@, i as int) == c_space_end(t@, p as int),
        decreases t@.len() - p,
    {
        p = p + 1;
    }
    p
}

/// Reads the width and height texts and the file name of a `postscriptbox` special's text
/// (see `postscriptbox_parts_spec`).
pub fn postscriptbox_parts(t: &[u8]) -> (r: Option<(Vec<u8>, Vec<u8>, Vec<u8>)>)
    ensures
        match r {
            Some((w, h, n)) => postscriptbox_parts_spec(t@) == Some((w@, h@, n@)),
            None => postscriptbox_parts_spec(t@) is None,
        },
{
    if t.len() == 0 || t[0] != 123u8 {
        return None;
    }
    let sep: [u8; 4] = [112u8, 116u8, 125u8, 123u8];
    assert(sep@ == pt_sep());
    let a = skip_c_space(t, 1);
    let (w, e1) = parse_float_decimal(t, a, t.len());
    let w = match w {
        Some(w) => w,
        None => return None,
    };
    if !number_is_complete(&w) || !bytes_at(t, e1, sep.as_slice()) {
        return None;
    }
    let b = skip_c_space(t, e1 + 4);
    let (h, e2) = parse_float_decimal(t, b, t.len());
    let h = match h {
        Some(h) => h,
        None => return None,
    };
    if !number_is_complete(&h) || !bytes_at(t, e2, sep.as_slice()) {
        return None;
    }
    let k = e2 + 4;
    let mut n = k;
    while n < t.len() && n - k < 255 && t[n] != 125u8
        invariant
            k <= n <= t@.len(),
            k <= t@.len(),
            box_name_end(t@, k as int, k + 255) == box_name_end(t@, n as int, k + 255),
        decreases t@.len() - n,
    {
        n = n + 1;
    }
    if n > k {
        let name = slice_to_vec(&t[k..n]);
        Some((w, h, name))
    } else {
        None
    }
}

} // verus!
