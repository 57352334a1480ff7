use vstd::prelude::*;
use crate::text::{has_prefix, is_ascii_digit};
use crate::dpxutil::{parse_c_ident, spec_parse_c_ident, opt_bytes};
use crate::pdfparse::{skip_white, skip_white_end, lemma_skip_white_end};
use crate::specials::dvips::{DvipsHandler, DvipsState, LiteralPosition, PsFileRead};
use crate::specials::xtx::{XtxHandler, XtxState, FontmapLineRequest, FontmapFileRequest, FontmapLineView};
use crate::specials::misc::MiscHandler;
use crate::specials::util::{ColorSpec, DvipsDimTrns, vecs_view};

pub mod dvipdfmx;
pub mod dvips;
pub mod misc;
pub mod named_colors;
pub mod util;
pub mod xtx;

verus! {

/// The text of a special being read: the bytes, the read position (`curptr`; the end is the end
/// of `buf`, the start of the special is its start) and the command name once one is known.
#[allow(non_camel_case_types)]
pub struct spc_arg {
    pub buf: Vec<u8>,
    pub curptr: usize,
    pub command: Option<Vec<u8>>,
}

impl spc_arg {
    /// The read position lies within the text.
    pub open spec fn wf(&self) -> bool {
        self.curptr <= self.buf@.len()
    }

    /// The text of a special, to be read from its start.
    pub fn new(buf: Vec<u8>) -> (r: spc_arg)
        ensures
            r.wf(),
            r.buf@ == buf@,
            r.curptr == 0,
            r.command is None,
    {
        spc_arg { buf, curptr: 0, command: None }
    }
}

/// `s` holds `pre` at position `pos`.
pub open spec fn prefix_at(s: Seq<u8>, pos: int, pre: Seq<u8>) -> bool {
    0 <= pos <= s.len() && has_prefix(s.subrange(pos, s.len() as int), pre)
}

/// Whether `s` holds `pre` at position `pos`.
pub fn bytes_at(s: &[u8], pos: usize, pre: &[u8]) -> (r: bool)
    requires
        pos <= s@.len(),
    ensures
        r == prefix_at(s@, pos as int, pre@),
{
    if pre.len() > s.len() - pos {
        return false;
    }
    let mut i: usize = 0;
    while i < pre.len()
        invariant
            pos + pre@.len() <= s@.len(),
            pos + pre@.len() <= s.len(),
            i <= pre@.len(),
            forall|j: int| 0 <= j < i ==> s@[pos + j] == pre@[j],
        decreases pre@.len() - i,
    {
        if s[pos + i] != pre[i] {
            assert(s@.subrange(pos as int, s@.len() as int).subrange(0, pre@.len() as int)[i as int]
                != pre@[i as int]);
            return false;
        }
        i = i + 1;
    }
    assert(s@.subrange(pos as int, s@.len() as int).subrange(0, pre@.len() as int) =~= pre@);
    true
}

/// Reading a special's prefix `pre` and its command name from `cur`: after white space the
/// text must hold `pre` with at least one byte after it; then, after white space again, a C
/// identifier. Gives the name (`None` when the prefix is missing or no name follows) and where
/// reading stands.
pub open spec fn read_command_spec(s: Seq<u8>, cur: int, pre: Seq<u8>) -> (Option<Seq<u8>>, int) {
    let p0 = skip_white_end(s, cur);
    if !(p0 + pre.len() < s.len() && prefix_at(s, p0, pre)) {
        (None, p0)
    } else {
        spec_parse_c_ident(s, skip_white_end(s, p0 + pre.len()), s.len() as int)
    }
}

/// Reads the prefix `pre` of a special and the command name after it (see
/// `read_command_spec`), moving the read position.
pub fn read_command(ap: &mut spc_arg, pre: &[u8]) -> (r: Option<Vec<u8>>)
    requires
        old(ap).wf(),
    ensures
        final(ap).wf(),
        final(ap).buf@ == old(ap).buf@,
        final(ap).command == old(ap).command,
        (opt_bytes(r), final(ap).curptr as int) == read_command_spec(
            old(ap).buf@,
            old(ap).curptr as int,
            pre@,
        ),
{
    let ghost s = ap.buf@;
    proof {
        lemma_skip_white_end(s, ap.curptr as int);
    }
    let p0 = skip_white(ap.buf.as_slice(), ap.curptr);
    ap.curptr = p0;
    if !(pre.len() < ap.buf.len() - p0 && bytes_at(ap.buf.as_slice(), p0, pre)) {
        return None;
    }
    proof {
        lemma_skip_white_end(s, p0 + pre@.len());
    }
    let p1 = skip_white(ap.buf.as_slice(), p0 + pre.len());
    let (id, p2) = parse_c_ident(ap.buf.as_slice(), p1, ap.buf.len());
    ap.curptr = p2;
    id
}

/// Moves the read position past white space and comments.
pub fn skip_white_arg(ap: &mut spc_arg)
    requires
        old(ap).wf(),
    ensures
        final(ap).wf(),
        final(ap).buf@ == old(ap).buf@,
        final(ap).command == old(ap).command,
        final(ap).curptr == skip_white_end(old(ap).buf@, old(ap).curptr as int),
        old(ap).curptr <= final(ap).curptr,
{
    ap.curptr = skip_white(ap.buf.as_slice(), ap.curptr);
}

/// "page" followed by digits that spell a positive integer (one or more digits, not all zero):
/// a reference to a page by number.
pub open spec fn spec_ispageref(key: Seq<u8>) -> bool {
    &&& key.len() > 4
    &&& has_prefix(key, seq![112u8, 97u8, 103u8, 101u8])
    &&& forall|i: int| 4 <= i < key.len() ==> is_ascii_digit(#[trigger] key[i])
    &&& exists|i: int| 4 <= i < key.len() && #[trigger] key[i] != 48u8
}

/// Whether an object key names a page by a positive number ("page12").
pub fn ispageref(key: &[u8]) -> (r: bool)
    ensures
        r == spec_ispageref(key@),
{
    let page: [u8; 4] = [112u8, 97u8, 103u8, 101u8];
    assert(page@ == seq![112u8, 97u8, 103u8, 101u8]);
    if key.len() <= 4 || !crate::text::starts_with(key, page.as_slice()) {
        return false;
    }
    let mut nonzero = false;
    let mut i: usize = 4;
    while i < key.len()
        invariant
            4 <= i <= key@.len(),
            forall|k: int| 4 <= k < i ==> is_ascii_digit(#[trigger] key@[k]),
            nonzero <==> exists|k: int| 4 <= k < i && #[trigger] key@[k] != 48u8,
        decreases key@.len() - i,
    {
        if !(48 <= key[i] && key[i] <= 57) {
            return false;
        }
        if key[i] != 48 {
            nonzero = true;
        }
        i = i + 1;
    }
    nonzero
}

/// A byte that C's `isprint` accepts.
pub open spec fn is_print(c: u8) -> bool {
    32 <= c <= 126
}

/// The lower-case hex digit of a value below 16.
pub open spec fn lower_hex_digit(v: int) -> u8 {
    if v < 10 {
        (48 + v) as u8
    } else {
        (87 + v) as u8
    }
}

/// `\xNN` for a byte.
pub open spec fn hex_escape(c: u8) -> Seq<u8> {
    seq![92u8, 120u8, lower_hex_digit((c / 16) as int), lower_hex_digit((c % 16) as int)]
}

/// The excerpt of a special's text from `p` that an error message shows: printable bytes as
/// they are, others as `\xNN`, up to 63 bytes (an escape only while it leaves room).
pub open spec fn excerpt_from(s: Seq<u8>, p: int, acc: Seq<u8>) -> Seq<u8>
    decreases s.len() - p,
{
    if acc.len() < 63 && 0 <= p < s.len() {
        if is_print(s[p]) {
            excerpt_from(s, p + 1, acc.push(s[p]))
        } else if acc.len() + 4 < 63 {
            excerpt_from(s, p + 1, acc + hex_escape(s[p]))
        } else {
            acc
        }
    } else {
        acc
    }
}

/// The excerpt with its bytes from the 61st on turned into dots when the special was not read
/// to its end.
pub open spec fn spec_error_excerpt(s: Seq<u8>, from: int, more: bool) -> Seq<u8> {
    let e = excerpt_from(s, from, Seq::empty());
    if more && e.len() > 60 {
        e.subrange(0, 60) + Seq::new((e.len() - 60) as nat, |i: int| 46u8)
    } else {
        e
    }
}

pub proof fn lemma_excerpt_len(s: Seq<u8>, p: int, acc: Seq<u8>)
    requires
        acc.len() <= 63,
    ensures
        excerpt_from(s, p, acc).len() <= 63,
        acc.len() <= excerpt_from(s, p, acc).len(),
        acc =~= excerpt_from(s, p, acc).subrange(0, acc.len() as int),
    decreases s.len() - p,
{
    if acc.len() < 63 && 0 <= p < s.len() {
        if is_print(s[p]) {
            lemma_excerpt_len(s, p + 1, acc.push(s[p]));
            let e = excerpt_from(s, p, acc);
            assert(e.subrange(0, acc.len() as int) =~= e.subrange(0, acc.len() + 1int).subrange(0, acc.len() as int));
        } else if acc.len() + 4 < 63 {
            lemma_excerpt_len(s, p + 1, acc + hex_escape(s[p]));
            let e = excerpt_from(s, p, acc);
            assert(e.subrange(0, acc.len() as int) =~= e.subrange(0, acc.len() + 4int).subrange(0, acc.len() as int));
        }
    }
}

fn lower_hex(v: u8) -> (r: u8)
    requires
        v < 16,
    ensures
        r == lower_hex_digit(v as int),
{
    if v < 10 {
        48 + v
    } else {
        87 + v
    }
}

/// The part of a special's text from `from` as an error message shows it (see
/// `spec_error_excerpt`); `more` says that reading stopped before the end.
pub fn error_excerpt(s: &[u8], from: usize, more: bool) -> (r: Vec<u8>)
    ensures
        r@ == spec_error_excerpt(s@, from as int, more),
{
    let mut e: Vec<u8> = Vec::new();
    let mut p = from;
    proof {
        lemma_excerpt_len(s@, from as int, Seq::empty());
    }
    let mut stop = false;
    while !stop && e.len() < 63 && p < s.len()
        invariant
            e@.len() <= 63,
            excerpt_from(s@, from as int, Seq::empty()) == excerpt_from(s@, p as int, e@),
            stop ==> excerpt_from(s@, p as int, e@) == e@,
        decreases s@.len() - p, if stop { 0int } else { 1int },
    {
        let c = s[p];
        if 32 <= c && c <= 126 {
            e.push(c);
        } else if e.len() + 4 < 63 {
            let ghost e0 = e@;
            e.push(92u8);
            e.push(120u8);
            e.push(lower_hex(c / 16));
            e.push(lower_hex(c % 16));
            assert(e@ =~= e0 + hex_escape(c));
        } else {
            stop = true;
        }
        if !stop {
            p = p + 1;
        }
    }
    let ghost full = e@;
    if more && e.len() > 60 {
        let mut i: usize = 60;
        while i < e.len()
            invariant
                60 <= i <= e@.len(),
                e@.len() == full.len(),
                forall|k: int| 0 <= k < 60 ==> e@[k] == full[k],
                forall|k: int| 60 <= k < i ==> e@[k] == 46u8,
            decreases e@.len() - i,
        {
            e.set(i, 46u8);
            i = i + 1;
        }
        assert(e@ =~= full.subrange(0, 60) + Seq::new((full.len() - 60) as nat, |i: int| 46u8));
    }
    e
}

/// The reserved names of objects that specials may refer to, in the order they are tried.
pub open spec fn reserved_key(i: int) -> Seq<u8> {
    if i == 0 {
        // xpos
        seq![120u8, 112u8, 111u8, 115u8]
    } else if i == 1 {
        // ypos
        seq![121u8, 112u8, 111u8, 115u8]
    } else if i == 2 {
        // thispage
        seq![116u8, 104u8, 105u8, 115u8, 112u8, 97u8, 103u8, 101u8]
    } else if i == 3 {
        // prevpage
        seq![112u8, 114u8, 101u8, 118u8, 112u8, 97u8, 103u8, 101u8]
    } else if i == 4 {
        // nextpage
        seq![110u8, 101u8, 120u8, 116u8, 112u8, 97u8, 103u8, 101u8]
    } else if i == 5 {
        // resources
        seq![114u8, 101u8, 115u8, 111u8, 117u8, 114u8, 99u8, 101u8, 115u8]
    } else if i == 6 {
        // pages
        seq![112u8, 97u8, 103u8, 101u8, 115u8]
    } else if i == 7 {
        // names
        seq![110u8, 97u8, 109u8, 101u8, 115u8]
    } else if i == 8 {
        // catalog
        seq![99u8, 97u8, 116u8, 97u8, 108u8, 111u8, 103u8]
    } else if i == 9 {
        // docinfo
        seq![100u8, 111u8, 99u8, 105u8, 110u8, 102u8, 111u8]
    } else {
        Seq::<u8>::empty()
    }
}

fn reserved_key_bytes(i: usize) -> (r: Vec<u8>)
    requires
        i < 10,
    ensures
        r@ == reserved_key(i as int),
{
    match i {
        0 => vec![120u8, 112u8, 111u8, 115u8], // xpos
        1 => vec![121u8, 112u8, 111u8, 115u8], // ypos
        2 => vec![116u8, 104u8, 105u8, 115u8, 112u8, 97u8, 103u8, 101u8], // thispage
        3 => vec![112u8, 114u8, 101u8, 118u8, 112u8, 97u8, 103u8, 101u8], // prevpage
        4 => vec![110u8, 101u8, 120u8, 116u8, 112u8, 97u8, 103u8, 101u8], // nextpage
        5 => vec![114u8, 101u8, 115u8, 111u8, 117u8, 114u8, 99u8, 101u8, 115u8], // resources
        6 => vec![112u8, 97u8, 103u8, 101u8, 115u8], // pages
        7 => vec![110u8, 97u8, 109u8, 101u8, 115u8], // names
        8 => vec![99u8, 97u8, 116u8, 97u8, 108u8, 111u8, 103u8], // catalog
        _ => vec![100u8, 111u8, 99u8, 105u8, 110u8, 102u8, 111u8], // docinfo
    }
}

/// The index of the first reserved name from the `i`th on that is `key`.
pub open spec fn reserved_index(key: Seq<u8>, i: int) -> Option<int>
    decreases 10 - i,
{
    if i < 0 || i >= 10 {
        None
    } else if reserved_key(i) == key {
        Some(i)
    } else {
        reserved_index(key, i + 1)
    }
}

/// The reserved object names and their numbers: `xpos` 0, `ypos` 1, `thispage` 2, `prevpage`
/// 3, `nextpage` 4, `resources` 5, `pages` 6, `names` 7, `catalog` 8, `docinfo` 9; any other
/// name is not reserved.
pub proof fn law_reserved_names(key: Seq<u8>)
    ensures
        reserved_index(key, 0) == (if key == seq![120u8, 112u8, 111u8, 115u8] {
            Some(0int)
        } else if key == seq![121u8, 112u8, 111u8, 115u8] {
            Some(1int)
        } else if key == seq![116u8, 104u8, 105u8, 115u8, 112u8, 97u8, 103u8, 101u8] {
            Some(2int)
        } else if key == seq![112u8, 114u8, 101u8, 118u8, 112u8, 97u8, 103u8, 101u8] {
            Some(3int)
        } else if key == seq![110u8, 101u8, 120u8, 116u8, 112u8, 97u8, 103u8, 101u8] {
            Some(4int)
        } else if key == seq![114u8, 101u8, 115u8, 111u8, 117u8, 114u8, 99u8, 101u8, 115u8] {
            Some(5int)
        } else if key == seq![112u8, 97u8, 103u8, 101u8, 115u8] {
            Some(6int)
        } else if key == seq![110u8, 97u8, 109u8, 101u8, 115u8] {
            Some(7int)
        } else if key == seq![99u8, 97u8, 116u8, 97u8, 108u8, 111u8, 103u8] {
            Some(8int)
        } else if key == seq![100u8, 111u8, 99u8, 105u8, 110u8, 102u8, 111u8] {
            Some(9int)
        } else {
            None
        }),
{
    reveal_with_fuel(reserved_index, 11);
    assert(reserved_key(0) =~= seq![120u8, 112u8, 111u8, 115u8]);
    assert(reserved_key(1) =~= seq![121u8, 112u8, 111u8, 115u8]);
    assert(reserved_key(2) =~= seq![116u8, 104u8, 105u8, 115u8, 112u8, 97u8, 103u8, 101u8]);
    assert(reserved_key(3) =~= seq![112u8, 114u8, 101u8, 118u8, 112u8, 97u8, 103u8, 101u8]);
    assert(reserved_key(4) =~= seq![110u8, 101u8, 120u8, 116u8, 112u8, 97u8, 103u8, 101u8]);
    assert(reserved_key(5) =~= seq![114u8, 101u8, 115u8, 111u8, 117u8, 114u8, 99u8, 101u8, 115u8]);
    assert(reserved_key(6) =~= seq![112u8, 97u8, 103u8, 101u8, 115u8]);
    assert(reserved_key(7) =~= seq![110u8, 97u8, 109u8, 101u8, 115u8]);
    assert(reserved_key(8) =~= seq![99u8, 97u8, 116u8, 97u8, 108u8, 111u8, 103u8]);
    assert(reserved_key(9) =~= seq![100u8, 111u8, 99u8, 105u8, 110u8, 102u8, 111u8]);
    assert(reserved_key(0)[0] != reserved_key(1)[0]);
    assert(reserved_key(0).len() != reserved_key(2).len());
    assert(reserved_key(1).len() != reserved_key(2).len());
    assert(reserved_key(0).len() != reserved_key(3).len());
    assert(reserved_key(1).len() != reserved_key(3).len());
    assert(reserved_key(2)[0] != reserved_key(3)[0]);
    assert(reserved_key(0).len() != reserved_key(4).len());
    assert(reserved_key(1).len() != reserved_key(4).len());
    assert(reserved_key(2)[0] != reserved_key(4)[0]);
    assert(reserved_key(3)[0] != reserved_key(4)[0]);
    assert(reserved_key(0).len() != reserved_key(5).len());
    assert(reserved_key(1).len() != reserved_key(5).len());
    assert(reserved_key(2).len() != reserved_key(5).len());
    assert(reserved_key(3).len() != reserved_key(5).len());
    assert(reserved_key(4).len() != reserved_key(5).len());
    assert(reserved_key(0).len() != reserved_key(6).len());
    assert(reserved_key(1).len() != reserved_key(6).len());
    assert(reserved_key(2).len() != reserved_key(6).len());
    assert(reserved_key(3).len() != reserved_key(6).len());
    assert(reserved_key(4).len() != reserved_key(6).len());
    assert(reserved_key(5).len() != reserved_key(6).len());
    assert(reserved_key(0).len() != reserved_key(7).len());
    assert(reserved_key(1).len() != reserved_key(7).len());
    assert(reserved_key(2).len() != reserved_key(7).len());
    assert(reserved_key(3).len() != reserved_key(7).len());
    assert(reserved_key(4).len() != reserved_key(7).len());
    assert(reserved_key(5).len() != reserved_key(7).len());
    assert(reserved_key(6)[0] != reserved_key(7)[0]);
    assert(reserved_key(0).len() != reserved_key(8).len());
    assert(reserved_key(1).len() != reserved_key(8).len());
    assert(reserved_key(2).len() != reserved_key(8).len());
    assert(reserved_key(3).len() != reserved_key(8).len());
    assert(reserved_key(4).len() != reserved_key(8).len());
    assert(reserved_key(5).len() != reserved_key(8).len());
    assert(reserved_key(6).len() != reserved_key(8).len());
    assert(reserved_key(7).len() != reserved_key(8).len());
    assert(reserved_key(0).len() != reserved_key(9).len());
    assert(reserved_key(1).len() != reserved_key(9).len());
    assert(reserved_key(2).len() != reserved_key(9).len());
    assert(reserved_key(3).len() != reserved_key(9).len());
    assert(reserved_key(4).len() != reserved_key(9).len());
    assert(reserved_key(5).len() != reserved_key(9).len());
    assert(reserved_key(6).len() != reserved_key(9).len());
    assert(reserved_key(7).len() != reserved_key(9).len());
    assert(reserved_key(8)[0] != reserved_key(9)[0]);
}

/// What an object reference of a special names.
#[derive(PartialEq, Eq, Structural, Clone, Copy, Debug)]
pub enum RefKind {
    /// The `i`th reserved name of `reserved_key`.
    Reserved(u8),
    /// A page by number: `page` and digits.
    PageRef,
    /// An object named by the document.
    Named,
}

/// What `key` refers to when a special refers to an object: a reserved name, a page by number
/// (only for references), or a named object.
pub open spec fn spec_reference_kind(key: Seq<u8>, pages: bool) -> RefKind {
    match reserved_index(key, 0) {
        Some(i) => RefKind::Reserved(i as u8),
        None => if pages && spec_ispageref(key) {
            RefKind::PageRef
        } else {
            RefKind::Named
        },
    }
}

/// Classifies the key of an object reference (`pages`: the page-number form is known, as in
/// `spc_lookup_reference`; `spc_lookup_object` knows it not).
pub fn reference_kind(key: &[u8], pages: bool) -> (r: RefKind)
    ensures
        r == spec_reference_kind(key@, pages),
{
    let mut i: usize = 0;
    while i < 10
        invariant
            i <= 10,
            reserved_index(key@, 0) == reserved_index(key@, i as int),
        decreases 10 - i,
    {
        let k = reserved_key_bytes(i);
        if crate::text::bytes_eq(k.as_slice(), key) {
            return RefKind::Reserved(i as u8);
        }
        i = i + 1;
    }
    if pages && ispageref(key) {
        RefKind::PageRef
    } else {
        RefKind::Named
    }
}

/// After a special was run: whether material is left that was not read. The read position moves
/// past white space first, unless it is already at the end.
pub fn check_garbage(args: &mut spc_arg) -> (r: bool)
    requires
        old(args).wf(),
    ensures
        final(args).wf(),
        final(args).buf@ == old(args).buf@,
        final(args).command == old(args).command,
        old(args).curptr >= old(args).buf@.len() ==> !r && final(args).curptr == old(args).curptr,
        old(args).curptr < old(args).buf@.len() ==> final(args).curptr == skip_white_end(
            old(args).buf@,
            old(args).curptr as int,
        ) && r == (final(args).curptr < old(args).buf@.len()),
{
    if args.curptr >= args.buf.len() {
        return false;
    }
    skip_white_arg(args);
    args.curptr < args.buf.len()
}

/// The handler of specials that no module takes: the special is consumed and -1 returned.
pub fn spc_handler_unknown(args: &mut spc_arg) -> (r: i32)
    requires
        old(args).wf(),
    ensures
        r == -1,
        final(args).wf(),
        final(args).buf@ == old(args).buf@,
        final(args).command == old(args).command,
        final(args).curptr == old(args).buf@.len(),
{
    args.curptr = args.buf.len();
    -1
}

/// The modules of specials that this library reads, in the order in which they are asked
/// whether a special is theirs: `x:`, `dvipdfmx:`, the dvips specials (`ps:` and the like) and
/// the others (`postscriptbox`, `landscape`, `papersize`, `src:`).
#[derive(PartialEq, Eq, Structural, Clone, Copy, Debug)]
pub enum Special {
    Xtx,
    Dvipdfmx,
    Dvips,
    Misc,
}

/// The handler chosen for a special, by module.
#[derive(PartialEq, Eq, Structural, Clone, Copy, Debug)]
pub enum SpecialHandler {
    Xtx(crate::specials::xtx::XtxHandler),
    Dvipdfmx(crate::specials::dvipdfmx::DvipdfmxHandler),
    Dvips(crate::specials::dvips::DvipsHandler),
    Misc(crate::specials::misc::MiscHandler),
}

/// What became of a special before its handler runs: no module takes it; a module takes it
/// but knows not its command; or the module and the handler to run.
#[derive(PartialEq, Eq, Structural, Clone, Copy, Debug)]
pub enum SpecialSetup {
    Unclaimed,
    Failed(Special),
    Ready(Special, SpecialHandler),
}

/// The first module that takes the special `s` (see the modules' checks).
pub open spec fn claimed_by(s: Seq<u8>) -> Option<Special> {
    let p = skip_white_end(s, 0);
    if prefix_at(s, p, crate::specials::xtx::xtx_prefix()) {
        Some(Special::Xtx)
    } else if prefix_at(s, p, crate::specials::dvipdfmx::dvipdfmx_prefix()) {
        Some(Special::Dvipdfmx)
    } else if p < s.len() && crate::specials::dvips::dvips_key_at(s, p, 0) {
        Some(Special::Dvips)
    } else if crate::specials::misc::misc_key_at(s, p, 0) {
        Some(Special::Misc)
    } else {
        None
    }
}

/// What the setup of the special `s` by its module gives, and where reading stands after.
pub open spec fn special_setup_spec(s: Seq<u8>) -> (SpecialSetup, int) {
    match claimed_by(s) {
        None => (SpecialSetup::Unclaimed, 0),
        Some(Special::Xtx) => {
            let (h, p) = crate::specials::xtx::xtx_setup_spec(s, 0);
            (match h {
                Some(x) => SpecialSetup::Ready(Special::Xtx, SpecialHandler::Xtx(x)),
                None => SpecialSetup::Failed(Special::Xtx),
            }, p)
        },
        Some(Special::Dvipdfmx) => {
            let (h, p) = crate::specials::dvipdfmx::dvipdfmx_setup_spec(s, 0);
            (match h {
                Some(x) => SpecialSetup::Ready(Special::Dvipdfmx, SpecialHandler::Dvipdfmx(x)),
                None => SpecialSetup::Failed(Special::Dvipdfmx),
            }, p)
        },
        Some(Special::Dvips) => {
            let (h, p) = crate::specials::dvips::dvips_setup_spec(s, 0);
            (match h {
                Some(x) => SpecialSetup::Ready(Special::Dvips, SpecialHandler::Dvips(x)),
                None => SpecialSetup::Failed(Special::Dvips),
            }, p)
        },
        Some(Special::Misc) => {
            let (h, p) = crate::specials::misc::misc_setup_spec(s, 0);
            (match h {
                Some(x) => SpecialSetup::Ready(Special::Misc, SpecialHandler::Misc(x)),
                None => SpecialSetup::Failed(Special::Misc),
            }, p)
        },
    }
}

/// Starts a special: the first module that takes it sets up its handler (see
/// `special_setup_spec`). Gives the outcome and the special's text, read up to where the setup
/// stopped, for the handler to go on from.
pub fn spc_setup_special(buffer: &[u8]) -> (r: (SpecialSetup, spc_arg))
    ensures
        r.1.wf(),
        r.1.buf@ == buffer@,
        (r.0, r.1.curptr as int) == special_setup_spec(buffer@),
        r.0 is Unclaimed ==> r.1.command is None,
{
    let mut args = spc_arg::new(crate::text::slice_to_vec(buffer));
    if crate::specials::xtx::spc_xtx_check_special(buffer) {
        let r = match crate::specials::xtx::spc_xtx_setup_handler(&mut args) {
            Some(h) => SpecialSetup::Ready(Special::Xtx, SpecialHandler::Xtx(h)),
            None => SpecialSetup::Failed(Special::Xtx),
        };
        (r, args)
    } else if crate::specials::dvipdfmx::spc_dvipdfmx_check_special(buffer) {
        let r = match crate::specials::dvipdfmx::spc_dvipdfmx_setup_handler(&mut args) {
            Some(h) => SpecialSetup::Ready(Special::Dvipdfmx, SpecialHandler::Dvipdfmx(h)),
            None => SpecialSetup::Failed(Special::Dvipdfmx),
        };
        (r, args)
    } else if crate::specials::dvips::spc_dvips_check_special(buffer) {
        let r = match crate::specials::dvips::spc_dvips_setup_handler(&mut args) {
            Some(h) => SpecialSetup::Ready(Special::Dvips, SpecialHandler::Dvips(h)),
            None => SpecialSetup::Failed(Special::Dvips),
        };
        (r, args)
    } else if crate::specials::misc::spc_misc_check_special(buffer) {
        let r = match crate::specials::misc::spc_misc_setup_handler(&mut args) {
            Some(h) => SpecialSetup::Ready(Special::Misc, SpecialHandler::Misc(h)),
            None => SpecialSetup::Failed(Special::Misc),
        };
        (r, args)
    } else {
        (SpecialSetup::Unclaimed, args)
    }
}

/// What the `x:` and dvips specials keep from one special to the next.
pub struct SpecialsState {
    pub xtx: XtxState,
    pub dvips: DvipsState,
}

impl SpecialsState {
    /// Nothing kept yet.
    pub fn new() -> (r: SpecialsState)
        ensures
            r.xtx.overlay_name@.len() == 0,
            r.dvips.headers@.len() == 0,
            r.dvips.block_pending == 0,
            !r.dvips.position_set,
    {
        SpecialsState { xtx: XtxState::new(), dvips: DvipsState::new() }
    }
}

/// The work on the output that a handler leaves once it has read its special; the handler's
/// result is that of the work.
#[derive(Debug, PartialEq)]
pub enum OutputWork {
    /// Set the page background to the colour.
    BackgroundColor(ColorSpec),
    GSave,
    GRestore,
    /// Scale by the two factors (as their texts).
    Scale(Vec<Vec<u8>>),
    /// Scale by the two factors, to be undone by `escale`; `None` when they could not be read.
    BScale(Option<Vec<Vec<u8>>>),
    EScale,
    /// Rotate by the angle in degrees (as its text).
    Rotate(Vec<Vec<u8>>),
    /// Remove a font map record or read a map line.
    FontMapLine(FontmapLineRequest),
    /// Load the font map file `name` (`mode` is `+`, `-` or 0).
    FontMapFile { name: Vec<u8>, mode: u8 },
    /// Clip away the drawing of other overlays (or not).
    ClipOverlay(bool),
    /// Set the text rendering mode given by the number (as its text); the rest of the special
    /// follows it.
    RenderingMode(Vec<u8>),
    /// Look the PostScript header up and record it.
    PsHeader(Vec<u8>),
    /// Place the image `name` as `dim` says.
    PsImage { name: Vec<u8>, dim: DvipsDimTrns },
    /// Place the plot file.
    PlotFile(Vec<u8>),
    /// Run the literal PostScript that follows at the position given.
    Literal(LiteralPosition),
    /// Run the PostScript that follows in user coordinates.
    PsDefault,
    /// Read width, height and file name from the text and place the image.
    PostScriptBox(Vec<u8>),
}

/// What running a handler gives: its result, or the work on the output that remains.
#[derive(Debug, PartialEq)]
pub enum HandlerOutcome {
    Done(i32),
    Output(OutputWork),
}

/// What running handler `h` on the text `s0` read from `c0` gives (`r`), where reading stands
/// after (`c1`), and what it does to the overlay name (`n0` to `n1`) and to the open PostScript
/// blocks and the pending-position flag (`b0`, `q0` to `b1`, `q1`).
pub open spec fn handler_outcome_ok(
    h: SpecialHandler,
    s0: Seq<u8>,
    c0: int,
    n0: Seq<u8>,
    b0: i32,
    q0: bool,
    r: HandlerOutcome,
    c1: int,
    n1: Seq<u8>,
    b1: i32,
    q1: bool,
) -> bool {
    let len = s0.len() as int;
    let keeps_state = n1 == n0 && b1 == b0 && q1 == q0;
    match h {
        SpecialHandler::Dvipdfmx(_) => r == HandlerOutcome::Done(0i32) && c1 == len && keeps_state,
        SpecialHandler::Xtx(x) => match x {
            XtxHandler::UnsupportedColor | XtxHandler::Unsupported => r == HandlerOutcome::Done(0i32)
                && c1 == len && keeps_state,
            XtxHandler::PaperSize => r == HandlerOutcome::Done(0i32) && c1 == c0 && keeps_state,
            XtxHandler::BackgroundColor => keeps_state && match r {
                HandlerOutcome::Done(v) => v == -1 && crate::specials::xtx::backgroundcolor_post(s0, c0, (-1i32, None), c1),
                HandlerOutcome::Output(OutputWork::BackgroundColor(col)) => crate::specials::xtx::backgroundcolor_post(
                    s0,
                    c0,
                    (1i32, Some(col)),
                    c1,
                ),
                _ => false,
            },
            XtxHandler::GSave => r == HandlerOutcome::Output(OutputWork::GSave) && c1 == c0 && keeps_state,
            XtxHandler::GRestore => r == HandlerOutcome::Output(OutputWork::GRestore) && c1 == c0 && keeps_state,
            XtxHandler::EScale => r == HandlerOutcome::Output(OutputWork::EScale) && c1 == c0 && keeps_state,
            XtxHandler::Scale | XtxHandler::Rotate | XtxHandler::BScale => {
                let k: nat = if x == XtxHandler::Rotate { 1 } else { 2 };
                let (nums, p) = crate::specials::xtx::xtx_numbers_spec(s0, c0, k);
                &&& c1 == p
                &&& keeps_state
                &&& match r {
                    HandlerOutcome::Done(v) => v == -1 && nums is None && x != XtxHandler::BScale,
                    HandlerOutcome::Output(OutputWork::Scale(w)) => x == XtxHandler::Scale && nums == Some(vecs_view(w@)),
                    HandlerOutcome::Output(OutputWork::Rotate(w)) => x == XtxHandler::Rotate && nums == Some(vecs_view(w@)),
                    HandlerOutcome::Output(OutputWork::BScale(w)) => x == XtxHandler::BScale && nums == match w {
                        Some(v) => Some(vecs_view(v@)),
                        None => None,
                    },
                    _ => false,
                }
            },
            XtxHandler::FontMapLine => {
                let (v, p) = crate::specials::xtx::fontmapline_spec(s0, c0);
                &&& c1 == p
                &&& keeps_state
                &&& match v {
                    FontmapLineView::Empty | FontmapLineView::MissingName => r == HandlerOutcome::Done(-1i32),
                    _ => r matches HandlerOutcome::Output(OutputWork::FontMapLine(q)) && q@ == v,
                }
            },
            XtxHandler::FontMapFile => keeps_state && match r {
                HandlerOutcome::Done(v) => (v == 0 && crate::specials::xtx::fontmapfile_post(s0, c0, FontmapFileRequest::Nothing, c1))
                    || (v == -1 && crate::specials::xtx::fontmapfile_post(s0, c0, FontmapFileRequest::Missing, c1)),
                HandlerOutcome::Output(OutputWork::FontMapFile { name, mode }) => crate::specials::xtx::fontmapfile_post(
                    s0,
                    c0,
                    FontmapFileRequest::Load { name, mode },
                    c1,
                ),
                _ => false,
            },
            XtxHandler::RenderingMode => {
                let (nums, p) = crate::specials::util::read_numbers_spec(s0, c0, 1);
                &&& c1 == p
                &&& keeps_state
                &&& if nums.len() < 1 {
                    r == HandlerOutcome::Done(-1i32)
                } else {
                    r matches HandlerOutcome::Output(OutputWork::RenderingMode(t)) && t@ == nums[0]
                }
            },
            XtxHandler::InitOverlay => b1 == b0 && q1 == q0 && (r matches HandlerOutcome::Done(v)
                && crate::specials::xtx::initoverlay_post(s0, c0, v, c1, n0, n1)),
            XtxHandler::ClipOverlay => keeps_state && match r {
                HandlerOutcome::Done(v) => v == -1 && crate::specials::xtx::clipoverlay_post(s0, c0, None, c1, n0),
                HandlerOutcome::Output(OutputWork::ClipOverlay(b)) => crate::specials::xtx::clipoverlay_post(s0, c0, Some(b), c1, n0),
                _ => false,
            },
        },
        SpecialHandler::Dvips(d) => match d {
            DvipsHandler::Header => keeps_state && match r {
                HandlerOutcome::Done(v) => v == -1 && crate::specials::dvips::ps_header_post(s0, c0, None, c1),
                HandlerOutcome::Output(OutputWork::PsHeader(n)) => crate::specials::dvips::ps_header_post(s0, c0, Some(n), c1),
                _ => false,
            },
            DvipsHandler::File => keeps_state && match r {
                HandlerOutcome::Done(v) => v == -1 && (crate::specials::dvips::ps_file_post(s0, c0, PsFileRead::NoFilename, c1)
                    || exists|dim: DvipsDimTrns| #[trigger] crate::specials::dvips::ps_file_post(s0, c0, PsFileRead::BadSpec { dim }, c1)),
                HandlerOutcome::Output(OutputWork::PsImage { name, dim }) => crate::specials::dvips::ps_file_post(
                    s0,
                    c0,
                    PsFileRead::Image { name, dim },
                    c1,
                ),
                _ => false,
            },
            DvipsHandler::PlotFile => keeps_state && match r {
                HandlerOutcome::Done(v) => v == -1 && crate::specials::dvips::ps_plotfile_post(s0, c0, None, c1),
                HandlerOutcome::Output(OutputWork::PlotFile(n)) => crate::specials::dvips::ps_plotfile_post(s0, c0, Some(n), c1),
                _ => false,
            },
            DvipsHandler::Literal => n1 == n0 && match r {
                HandlerOutcome::Done(v) => v == -1 && crate::specials::dvips::ps_literal_post(s0, c0, None, c1, b0, q0, b1, q1),
                HandlerOutcome::Output(OutputWork::Literal(pos)) => crate::specials::dvips::ps_literal_post(
                    s0,
                    c0,
                    Some(pos),
                    c1,
                    b0,
                    q0,
                    b1,
                    q1,
                ),
                _ => false,
            },
            DvipsHandler::TricksCmd | DvipsHandler::TricksObj => r == HandlerOutcome::Done(-1i32) && c1 == len && keeps_state,
            DvipsHandler::Default => r == HandlerOutcome::Output(OutputWork::PsDefault) && c1 == c0 && keeps_state,
        },
        SpecialHandler::Misc(m) => match m {
            MiscHandler::PostScriptBox => c1 == c0 && keeps_state && match crate::specials::misc::postscriptbox_text(s0, c0) {
                None => r == HandlerOutcome::Done(-1i32),
                Some(t) => r matches HandlerOutcome::Output(OutputWork::PostScriptBox(u)) && u@ == t,
            },
            MiscHandler::Null => r == HandlerOutcome::Done(0i32) && c1 == len && keeps_state,
        },
    }
}

/// Runs the handler `h` set up for a special (see `handler_outcome_ok`): the handler's result,
/// or, for a handler whose result comes from work on the output, what it read for that work.
pub fn spc_exec_handler(h: SpecialHandler, st: &mut SpecialsState, args: &mut spc_arg) -> (r: HandlerOutcome)
    requires
        old(args).wf(),
        h == SpecialHandler::Xtx(XtxHandler::InitOverlay) ==> old(args).buf@.len() - skip_white_end(
            old(args).buf@,
            old(args).curptr as int,
        ) < 256,
        h == SpecialHandler::Dvips(DvipsHandler::Literal) ==> old(st).dvips.block_pending < i32::MAX,
    ensures
        final(args).wf(),
        final(args).buf@ == old(args).buf@,
        final(args).command == old(args).command,
        final(st).dvips.headers@ == old(st).dvips.headers@,
        handler_outcome_ok(
            h,
            old(args).buf@,
            old(args).curptr as int,
            old(st).xtx.overlay_name@,
            old(st).dvips.block_pending,
            old(st).dvips.position_set,
            r,
            final(args).curptr as int,
            final(st).xtx.overlay_name@,
            final(st).dvips.block_pending,
            final(st).dvips.position_set,
        ),
{
    match h {
        SpecialHandler::Dvipdfmx(_) => HandlerOutcome::Done(crate::specials::dvipdfmx::spc_handler_null(args)),
        SpecialHandler::Xtx(x) => match x {
            XtxHandler::UnsupportedColor | XtxHandler::Unsupported => HandlerOutcome::Done(
                crate::specials::xtx::spc_handler_xtx_unsupported(args),
            ),
            XtxHandler::PaperSize => HandlerOutcome::Done(crate::specials::xtx::spc_handler_xtx_papersize()),
            XtxHandler::BackgroundColor => {
                let (v, c) = crate::specials::xtx::spc_handler_xtx_backgroundcolor(args);
                match c {
                    Some(col) => HandlerOutcome::Output(OutputWork::BackgroundColor(col)),
                    None => HandlerOutcome::Done(v),
                }
            },
            XtxHandler::GSave => HandlerOutcome::Output(OutputWork::GSave),
            XtxHandler::GRestore => HandlerOutcome::Output(OutputWork::GRestore),
            XtxHandler::EScale => HandlerOutcome::Output(OutputWork::EScale),
            XtxHandler::Scale => match crate::specials::xtx::spc_handler_xtx_scale(args) {
                Some(v) => HandlerOutcome::Output(OutputWork::Scale(v)),
                None => HandlerOutcome::Done(-1),
            },
            XtxHandler::BScale => HandlerOutcome::Output(OutputWork::BScale(crate::specials::xtx::spc_handler_xtx_scale(args))),
            XtxHandler::Rotate => match crate::specials::xtx::spc_handler_xtx_rotate(args) {
                Some(v) => HandlerOutcome::Output(OutputWork::Rotate(v)),
                None => HandlerOutcome::Done(-1),
            },
            XtxHandler::FontMapLine => {
                let q = crate::specials::xtx::spc_handler_xtx_fontmapline(args);
                match q {
                    FontmapLineRequest::Empty | FontmapLineRequest::MissingName => HandlerOutcome::Done(-1),
                    _ => HandlerOutcome::Output(OutputWork::FontMapLine(q)),
                }
            },
            XtxHandler::FontMapFile => match crate::specials::xtx::spc_handler_xtx_fontmapfile(args) {
                FontmapFileRequest::Nothing => HandlerOutcome::Done(0),
                FontmapFileRequest::Missing => HandlerOutcome::Done(-1),
                FontmapFileRequest::Load { name, mode } => HandlerOutcome::Output(OutputWork::FontMapFile { name, mode }),
            },
            XtxHandler::RenderingMode => {
                let v = crate::specials::util::spc_util_read_numbers(1, args);
                if v.len() < 1 {
                    HandlerOutcome::Done(-1)
                } else {
                    let t = crate::text::slice_to_vec(v[0].as_slice());
                    HandlerOutcome::Output(OutputWork::RenderingMode(t))
                }
            },
            XtxHandler::InitOverlay => HandlerOutcome::Done(crate::specials::xtx::spc_handler_xtx_initoverlay(&mut st.xtx, args)),
            XtxHandler::ClipOverlay => match crate::specials::xtx::spc_handler_xtx_clipoverlay(&st.xtx, args) {
                Some(b) => HandlerOutcome::Output(OutputWork::ClipOverlay(b)),
                None => HandlerOutcome::Done(-1),
            },
        },
        SpecialHandler::Dvips(d) => match d {
            DvipsHandler::Header => match crate::specials::dvips::spc_handler_ps_header(args) {
                Some(n) => HandlerOutcome::Output(OutputWork::PsHeader(n)),
                None => HandlerOutcome::Done(-1),
            },
            DvipsHandler::File => {
                let f = crate::specials::dvips::spc_handler_ps_file(args);
                match f {
                    PsFileRead::Image { name, dim } => HandlerOutcome::Output(OutputWork::PsImage { name, dim }),
                    PsFileRead::NoFilename => HandlerOutcome::Done(-1),
                    PsFileRead::BadSpec { dim } => {
                        assert(crate::specials::dvips::ps_file_post(
                            args.buf@,
                            old(args).curptr as int,
                            PsFileRead::BadSpec { dim },
                            args.curptr as int,
                        ));
                        HandlerOutcome::Done(-1)
                    },
                }
            },
            DvipsHandler::PlotFile => match crate::specials::dvips::spc_handler_ps_plotfile(args) {
                Some(n) => HandlerOutcome::Output(OutputWork::PlotFile(n)),
                None => HandlerOutcome::Done(-1),
            },
            DvipsHandler::Literal => match crate::specials::dvips::spc_handler_ps_literal(&mut st.dvips, args) {
                Some(pos) => HandlerOutcome::Output(OutputWork::Literal(pos)),
                None => HandlerOutcome::Done(-1),
            },
            DvipsHandler::TricksCmd => HandlerOutcome::Done(crate::specials::dvips::spc_handler_ps_trickscmd(args)),
            DvipsHandler::TricksObj => HandlerOutcome::Done(crate::specials::dvips::spc_handler_ps_tricksobj(args)),
            DvipsHandler::Default => HandlerOutcome::Output(OutputWork::PsDefault),
        },
        SpecialHandler::Misc(m) => match m {
            MiscHandler::PostScriptBox => match crate::specials::misc::spc_handler_postscriptbox(args) {
                Some(t) => HandlerOutcome::Output(OutputWork::PostScriptBox(t)),
                None => HandlerOutcome::Done(-1),
            },
            MiscHandler::Null => HandlerOutcome::Done(crate::specials::dvipdfmx::spc_handler_null(args)),
        },
    }
}

/// What running the special `s` gives (`r`, with reading standing at `c1`) and does to the
/// overlay name and the PostScript block state: when the special is set up, what its handler
/// gives from where the setup stopped; else `Done(-1)` with nothing changed.
pub open spec fn exec_special_post(
    s: Seq<u8>,
    n0: Seq<u8>,
    b0: i32,
    q0: bool,
    r: HandlerOutcome,
    c1: int,
    n1: Seq<u8>,
    b1: i32,
    q1: bool,
) -> bool {
    match special_setup_spec(s).0 {
        SpecialSetup::Ready(_, h) => handler_outcome_ok(h, s, special_setup_spec(s).1, n0, b0, q0, r, c1, n1, b1, q1),
        _ => r == HandlerOutcome::Done(-1i32) && c1 == special_setup_spec(s).1 && n1 == n0 && b1 == b0 && q1 == q0,
    }
}

/// The modules in the order in which they are asked to take a special.
pub open spec fn known_special(i: int) -> Special {
    if i == 0 {
        Special::Xtx
    } else if i == 1 {
        Special::Dvipdfmx
    } else if i == 2 {
        Special::Dvips
    } else {
        Special::Misc
    }
}

/// Whether module `m`'s check takes the special `s` (the contracts of the modules' checks).
pub open spec fn special_check(m: Special, s: Seq<u8>) -> bool {
    let p = skip_white_end(s, 0);
    match m {
        Special::Xtx => prefix_at(s, p, crate::specials::xtx::xtx_prefix()),
        Special::Dvipdfmx => prefix_at(s, p, crate::specials::dvipdfmx::dvipdfmx_prefix()),
        Special::Dvips => p < s.len() && crate::specials::dvips::dvips_key_at(s, p, 0),
        Special::Misc => crate::specials::misc::misc_key_at(s, p, 0),
    }
}

/// What module `m`'s setup gives for the special `s` (the contracts of the modules' setups):
/// the handler, if the command is known, and where reading stands.
pub open spec fn module_setup(m: Special, s: Seq<u8>) -> (Option<SpecialHandler>, int) {
    match m {
        Special::Xtx => {
            let (h, p) = crate::specials::xtx::xtx_setup_spec(s, 0);
            (match h {
                Some(x) => Some(SpecialHandler::Xtx(x)),
                None => None,
            }, p)
        },
        Special::Dvipdfmx => {
            let (h, p) = crate::specials::dvipdfmx::dvipdfmx_setup_spec(s, 0);
            (match h {
                Some(x) => Some(SpecialHandler::Dvipdfmx(x)),
                None => None,
            }, p)
        },
        Special::Dvips => {
            let (h, p) = crate::specials::dvips::dvips_setup_spec(s, 0);
            (match h {
                Some(x) => Some(SpecialHandler::Dvips(x)),
                None => None,
            }, p)
        },
        Special::Misc => {
            let (h, p) = crate::specials::misc::misc_setup_spec(s, 0);
            (match h {
                Some(x) => Some(SpecialHandler::Misc(x)),
                None => None,
            }, p)
        },
    }
}

/// How a special is dispatched: the module that takes it is the first whose check accepts
/// it, and none when no check does. With none, the result is `Done(-1)` and nothing is read or
/// changed; else only that module's setup runs: when it fails, the result is `Done(-1)`, and
/// when it succeeds, the result is what the handler it installed gives from where the setup
/// stopped.
pub proof fn law_exec_special_dispatch(
    s: Seq<u8>,
    n0: Seq<u8>,
    b0: i32,
    q0: bool,
    r: HandlerOutcome,
    c1: int,
    n1: Seq<u8>,
    b1: i32,
    q1: bool,
)
    requires
        exec_special_post(s, n0, b0, q0, r, c1, n1, b1, q1),
    ensures
        forall|i: int|
            0 <= i < 4 ==> (claimed_by(s) == Some(known_special(i)) <==> (special_check(
                #[trigger] known_special(i),
                s,
            ) && forall|j: int| 0 <= j < i ==> !special_check(known_special(j), s))),
        claimed_by(s) is None <==> forall|i: int| 0 <= i < 4 ==> !special_check(#[trigger] known_special(i), s),
        claimed_by(s) is None ==> r == HandlerOutcome::Done(-1i32) && c1 == 0 && n1 == n0 && b1 == b0 && q1 == q0,
        claimed_by(s) matches Some(m) ==> match module_setup(m, s) {
            (None, p) => r == HandlerOutcome::Done(-1i32) && c1 == p && n1 == n0 && b1 == b0 && q1 == q0,
            (Some(h), p) => handler_outcome_ok(h, s, p, n0, b0, q0, r, c1, n1, b1, q1),
        },
{
    assert(known_special(0) == Special::Xtx);
    assert(known_special(1) == Special::Dvipdfmx);
    assert(known_special(2) == Special::Dvips);
    assert(known_special(3) == Special::Misc);
    assert forall|i: int|
        0 <= i < 4 implies (claimed_by(s) == Some(known_special(i)) <==> (special_check(
            #[trigger] known_special(i),
            s,
        ) && forall|j: int| 0 <= j < i ==> !special_check(known_special(j), s))) by {
        if i == 0 {
        } else if i == 1 {
        } else if i == 2 {
            assert(known_special(2) == Special::Dvips);
        } else {
            assert(known_special(3) == Special::Misc);
        }
    }
}

/// Runs a special: the first module that takes it sets up its handler, which then runs on
/// the rest of the text. The result is `Done(-1)` when no module takes the special or the
/// setup fails, else what the handler gives (see `exec_special_post` and
/// `law_exec_special_dispatch`). Also gives the special's text as reading left it.
pub fn spc_exec_special(buffer: &[u8], st: &mut SpecialsState) -> (r: (HandlerOutcome, spc_arg))
    requires
        special_setup_spec(buffer@).0 == SpecialSetup::Ready(Special::Xtx, SpecialHandler::Xtx(XtxHandler::InitOverlay))
            ==> buffer@.len() - skip_white_end(buffer@, special_setup_spec(buffer@).1) < 256,
        special_setup_spec(buffer@).0 == SpecialSetup::Ready(Special::Dvips, SpecialHandler::Dvips(DvipsHandler::Literal))
            ==> old(st).dvips.block_pending < i32::MAX,
    ensures
        r.1.wf(),
        r.1.buf@ == buffer@,
        final(st).dvips.headers@ == old(st).dvips.headers@,
        exec_special_post(
            buffer@,
            old(st).xtx.overlay_name@,
            old(st).dvips.block_pending,
            old(st).dvips.position_set,
            r.0,
            r.1.curptr as int,
            final(st).xtx.overlay_name@,
            final(st).dvips.block_pending,
            final(st).dvips.position_set,
        ),
{
    let (setup, mut args) = spc_setup_special(buffer);
    match setup {
        SpecialSetup::Ready(_, h) => {
            let r = spc_exec_handler(h, st, &mut args);
            (r, args)
        },
        _ => (HandlerOutcome::Done(-1), args),
    }
}

} // verus!
