use vstd::prelude::*;
use crate::pdfparse::skip_white_end;
use crate::specials::{spc_arg, prefix_at, bytes_at, skip_white_arg};
use crate::specials::util::{spc_read_dimtrns_dvips, dvips_dimtrns_spec, DvipsDimTrns};
use crate::text::{is_ascii_alpha, before_first, lemma_first_index_of, find_byte, slice_to_vec};

verus! {

/// The keys of the `ps:` special handlers, in the order they are tried.
pub open spec fn dvips_key(i: int) -> Seq<u8> {
    if i == 0 {
        // header
        seq![104u8, 101u8, 97u8, 100u8, 101u8, 114u8]
    } else if i == 1 {
        // PSfile
        seq![80u8, 83u8, 102u8, 105u8, 108u8, 101u8]
    } else if i == 2 {
        // psfile
        seq![112u8, 115u8, 102u8, 105u8, 108u8, 101u8]
    } else if i == 3 {
        // ps: plotfile 
        seq![112u8, 115u8, 58u8, 32u8, 112u8, 108u8, 111u8, 116u8, 102u8, 105u8, 108u8, 101u8, 32u8]
    } else if i == 4 {
        // PS: plotfile 
        seq![80u8, 83u8, 58u8, 32u8, 112u8, 108u8, 111u8, 116u8, 102u8, 105u8, 108u8, 101u8, 32u8]
    } else if i == 5 {
        // PS:
        seq![80u8, 83u8, 58u8]
    } else if i == 6 {
        // ps:
        seq![112u8, 115u8, 58u8]
    } else if i == 7 {
        // PST:
        seq![80u8, 83u8, 84u8, 58u8]
    } else if i == 8 {
        // pst:
        seq![112u8, 115u8, 116u8, 58u8]
    } else if i == 9 {
        // " 
        seq![34u8, 32u8]
    } else {
        Seq::<u8>::empty()
    }
}

fn dvips_key_bytes(i: usize) -> (r: Vec<u8>)
    requires
        i < 10,
    ensures
        r@ == dvips_key(i as int),
{
    match i {
        0 => vec![104u8, 101u8, 97u8, 100u8, 101u8, 114u8], // header
        1 => vec![80u8, 83u8, 102u8, 105u8, 108u8, 101u8], // PSfile
        2 => vec![112u8, 115u8, 102u8, 105u8, 108u8, 101u8], // psfile
        3 => vec![112u8, 115u8, 58u8, 32u8, 112u8, 108u8, 111u8, 116u8, 102u8, 105u8, 108u8, 101u8, 32u8], // ps: plotfile 
        4 => vec![80u8, 83u8, 58u8, 32u8, 112u8, 108u8, 111u8, 116u8, 102u8, 105u8, 108u8, 101u8, 32u8], // PS: plotfile 
        5 => vec![80u8, 83u8, 58u8], // PS:
        6 => vec![112u8, 115u8, 58u8], // ps:
        7 => vec![80u8, 83u8, 84u8, 58u8], // PST:
        8 => vec![112u8, 115u8, 116u8, 58u8], // pst:
        _ => vec![34u8, 32u8], // " 
    }
}

/// What each `ps:`-family special does.
#[derive(PartialEq, Eq, Structural, Clone, Copy, Debug)]
pub enum DvipsHandler {
    /// `header=FILE`: a PostScript header.
    Header,
    /// `PSfile=FILE`, `psfile=FILE`: an image.
    File,
    /// `ps: plotfile FILE`.
    PlotFile,
    /// `ps:` and `PS:`: literal PostScript.
    Literal,
    /// `PST:`: refused.
    TricksCmd,
    /// `pst:`: refused.
    TricksObj,
    /// `" `: PostScript in user coordinates.
    Default,
}

/// The handler of the `i`th key of `dvips_key`.
pub open spec fn dvips_handler_of(i: int) -> DvipsHandler {
    if i == 0 {
        DvipsHandler::Header
    } else if i == 1 || i == 2 {
        DvipsHandler::File
    } else if i == 3 || i == 4 {
        DvipsHandler::PlotFile
    } else if i == 5 || i == 6 {
        DvipsHandler::Literal
    } else if i == 7 {
        DvipsHandler::TricksCmd
    } else if i == 8 {
        DvipsHandler::TricksObj
    } else {
        DvipsHandler::Default
    }
}

fn dvips_handler_at(i: usize) -> (r: DvipsHandler)
    requires
        i < 10,
    ensures
        r == dvips_handler_of(i as int),
{
    if i == 0 {
        DvipsHandler::Header
    } else if i == 1 || i == 2 {
        DvipsHandler::File
    } else if i == 3 || i == 4 {
        DvipsHandler::PlotFile
    } else if i == 5 || i == 6 {
        DvipsHandler::Literal
    } else if i == 7 {
        DvipsHandler::TricksCmd
    } else if i == 8 {
        DvipsHandler::TricksObj
    } else {
        DvipsHandler::Default
    }
}

/// Whether one of the keys of `dvips_key` from the `i`th on stands at position `p` of `s`.
pub open spec fn dvips_key_at(s: Seq<u8>, p: int, i: int) -> bool
    decreases 10 - i,
{
    if i < 0 || i >= 10 {
        false
    } else {
        prefix_at(s, p, dvips_key(i)) || dvips_key_at(s, p, i + 1)
    }
}

/// `dvips_key_at` from `i` holds when one of the keys from the `i`-th on starts at `p`.
pub proof fn lemma_dvips_key_at(s: Seq<u8>, p: int, i: int)
    requires
        0 <= i <= 10,
    ensures
        dvips_key_at(s, p, i) <==> exists|k: int| i <= k < 10 && #[trigger] prefix_at(s, p, dvips_key(k)),
    decreases 10 - i,
{
    if i < 10 {
        lemma_dvips_key_at(s, p, i + 1);
        if prefix_at(s, p, dvips_key(i)) {
            assert(i <= i < 10 && prefix_at(s, p, dvips_key(i)));
        }
        if exists|k: int| i <= k < 10 && #[trigger] prefix_at(s, p, dvips_key(k)) {
            let k = choose|k: int| i <= k < 10 && #[trigger] prefix_at(s, p, dvips_key(k));
            if k != i {
                assert(i + 1 <= k < 10 && prefix_at(s, p, dvips_key(k)));
            }
        }
    }
}

/// Whether a special belongs to this module: after white space and comments, one of the keys
/// of `dvips_key` starts the text.
pub fn spc_dvips_check_special(buf: &[u8]) -> (r: bool)
    ensures
        r == ({
            let p = skip_white_end(buf@, 0);
            p < buf@.len() && dvips_key_at(buf@, p, 0)
        }),
        r == ({
            let p = skip_white_end(buf@, 0);
            p < buf@.len() && exists|k: int| 0 <= k < 10 && #[trigger] prefix_at(buf@, p, dvips_key(k))
        }),
{
    let p = crate::pdfparse::skip_white(buf, 0);
    proof {
        lemma_dvips_key_at(buf@, p as int, 0);
    }
    if p >= buf.len() {
        return false;
    }
    let mut i: usize = 0;
    while i < 10
        invariant
            i <= 10,
            p < buf@.len(),
            p == skip_white_end(buf@, 0),
            dvips_key_at(buf@, p as int, 0) == dvips_key_at(buf@, p as int, i as int),
        decreases 10 - i,
    {
        let k = dvips_key_bytes(i);
        if bytes_at(buf, p, k.as_slice()) {
            assert(dvips_key_at(buf@, p as int, i as int));
            return true;
        }
        i = i + 1;
    }
    false
}

/// Where a run of ASCII letters from `i` ends.
pub open spec fn alpha_run_end(s: Seq<u8>, i: int) -> int
    decreases s.len() - i,
{
    if 0 <= i < s.len() && is_ascii_alpha(s[i]) {
        alpha_run_end(s, i + 1)
    } else {
        i
    }
}

/// A run of letters ends within the text, not before its start.
pub proof fn lemma_alpha_run_end(s: Seq<u8>, i: int)
    requires
        0 <= i <= s.len(),
    ensures
        i <= alpha_run_end(s, i) <= s.len(),
    decreases s.len() - i,
{
    if i < s.len() && is_ascii_alpha(s[i]) {
        lemma_alpha_run_end(s, i + 1);
    }
}

/// ` plotfile `.
pub open spec fn plotfile_word() -> Seq<u8> {
    seq![32u8, 112u8, 108u8, 111u8, 116u8, 102u8, 105u8, 108u8, 101u8, 32u8]
}

/// Where the key of a `ps:`-family special that starts at `k` ends: a run of letters, then
/// either `:` (with ` plotfile ` after it, if that follows) or `" `.
pub open spec fn dvips_key_end(s: Seq<u8>, k: int) -> int {
    let a = alpha_run_end(s, k);
    if a < s.len() && s[a] == 58 {
        if prefix_at(s, a + 1, plotfile_word()) {
            a + 11
        } else {
            a + 1
        }
    } else if a + 1 < s.len() && s[a] == 34 && s[a + 1] == 32 {
        a + 2
    } else {
        a
    }
}

/// The index of the first key of `dvips_key` from `i` on that is `v`.
pub open spec fn dvips_lookup(v: Seq<u8>, i: int) -> Option<int>
    decreases 10 - i,
{
    if i < 0 || i >= 10 {
        None
    } else if dvips_key(i) == v {
        Some(i)
    } else {
        dvips_lookup(v, i + 1)
    }
}

/// What the setup of a `ps:`-family special does, from read position `cur`: the handler of the
/// key (when it is one of `dvips_key`), and where reading stands after.
pub open spec fn dvips_setup_spec(s: Seq<u8>, cur: int) -> (Option<DvipsHandler>, int) {
    let k = skip_white_end(s, cur);
    let e = dvips_key_end(s, k);
    if e - k < 1 {
        (None, e)
    } else {
        match dvips_lookup(s.subrange(k, e), 0) {
            Some(i) => (Some(dvips_handler_of(i)), skip_white_end(s, e)),
            None => (None, e),
        }
    }
}

/// The key read decides the handler of a `ps:`-family special: `header` a PostScript header;
/// `PSfile` and `psfile` an image file; `ps: plotfile ` and `PS: plotfile ` a plot file; `PS:`
/// and `ps:` literal PostScript; `PST:` and `pst:` the refused PSTricks forms; `" ` PostScript
/// in user coordinates. Any other key is refused.
pub proof fn law_dvips_keys_choose_handlers(s: Seq<u8>, cur: int)
    requires
        0 <= cur <= s.len(),
    ensures
        ({
            let c = dvips_setup_command(s, cur);
            dvips_setup_spec(s, cur).0 == (if c == seq![104u8, 101u8, 97u8, 100u8, 101u8, 114u8] {
            Some(DvipsHandler::Header)
        } else if c == seq![80u8, 83u8, 102u8, 105u8, 108u8, 101u8] || c == seq![112u8, 115u8, 102u8, 105u8, 108u8, 101u8] {
            Some(DvipsHandler::File)
        } else if c == seq![112u8, 115u8, 58u8, 32u8, 112u8, 108u8, 111u8, 116u8, 102u8, 105u8, 108u8, 101u8, 32u8] || c == seq![80u8, 83u8, 58u8, 32u8, 112u8, 108u8, 111u8, 116u8, 102u8, 105u8, 108u8, 101u8, 32u8] {
            Some(DvipsHandler::PlotFile)
        } else if c == seq![80u8, 83u8, 58u8] || c == seq![112u8, 115u8, 58u8] {
            Some(DvipsHandler::Literal)
        } else if c == seq![80u8, 83u8, 84u8, 58u8] {
            Some(DvipsHandler::TricksCmd)
        } else if c == seq![112u8, 115u8, 116u8, 58u8] {
            Some(DvipsHandler::TricksObj)
        } else if c == seq![34u8, 32u8] {
            Some(DvipsHandler::Default)
        } else {
            None::<DvipsHandler>
        })
        }),
{
    let k = skip_white_end(s, cur);
    crate::pdfparse::lemma_skip_white_end(s, cur);
    lemma_alpha_run_end(s, k);
    let e = dvips_key_end(s, k);
    let c = dvips_setup_command(s, cur);
    assert(k <= e <= s.len()) by {
        let a = alpha_run_end(s, k);
        if a < s.len() && s[a] == 58 && prefix_at(s, a + 1, plotfile_word()) {
        }
    }
    assert(c.len() == e - k);
    reveal_with_fuel(dvips_lookup, 11);
    assert(dvips_key(0) =~= seq![104u8, 101u8, 97u8, 100u8, 101u8, 114u8]);
    assert(dvips_key(1) =~= seq![80u8, 83u8, 102u8, 105u8, 108u8, 101u8]);
    assert(dvips_key(2) =~= seq![112u8, 115u8, 102u8, 105u8, 108u8, 101u8]);
    assert(dvips_key(3) =~= seq![112u8, 115u8, 58u8, 32u8, 112u8, 108u8, 111u8, 116u8, 102u8, 105u8, 108u8, 101u8, 32u8]);
    assert(dvips_key(4) =~= seq![80u8, 83u8, 58u8, 32u8, 112u8, 108u8, 111u8, 116u8, 102u8, 105u8, 108u8, 101u8, 32u8]);
    assert(dvips_key(5) =~= seq![80u8, 83u8, 58u8]);
    assert(dvips_key(6) =~= seq![112u8, 115u8, 58u8]);
    assert(dvips_key(7) =~= seq![80u8, 83u8, 84u8, 58u8]);
    assert(dvips_key(8) =~= seq![112u8, 115u8, 116u8, 58u8]);
    assert(dvips_key(9) =~= seq![34u8, 32u8]);
    assert(dvips_key(0)[0] != dvips_key(1)[0]);
    assert(dvips_key(0)[0] != dvips_key(2)[0]);
    assert(dvips_key(1)[0] != dvips_key(2)[0]);
    assert(dvips_key(3)[0] != dvips_key(4)[0]);
    assert(dvips_key(5)[0] != dvips_key(6)[0]);
    assert(dvips_key(7)[0] != dvips_key(8)[0]);
}

/// The key of a `ps:`-family special read from `cur`: the text from after white space to
/// `dvips_key_end`.
pub open spec fn dvips_setup_command(s: Seq<u8>, cur: int) -> Seq<u8> {
    let k = skip_white_end(s, cur);
    s.subrange(k, dvips_key_end(s, k))
}

/// Reads the key of a `ps:`-family special. On success the key is recorded in `ap.command` and
/// its handler is returned; `None` for an empty or unknown key.
pub fn spc_dvips_setup_handler(args: &mut spc_arg) -> (r: Option<DvipsHandler>)
    requires
        old(args).wf(),
    ensures
        final(args).wf(),
        final(args).buf@ == old(args).buf@,
        (r, final(args).curptr as int) == dvips_setup_spec(old(args).buf@, old(args).curptr as int),
        r is Some ==> (final(args).command matches Some(c) && dvips_lookup(c@, 0) is Some
            && c@ == dvips_setup_command(old(args).buf@, old(args).curptr as int)),
        r is None ==> final(args).command == old(args).command,
{
    let ghost s = args.buf@;
    skip_white_arg(args);
    let key = args.curptr;
    proof {
        lemma_alpha_run_end(s, key as int);
    }
    while args.curptr < args.buf.len() && ((65 <= args.buf[args.curptr] && args.buf[args.curptr]
        <= 90) || (97 <= args.buf[args.curptr] && args.buf[args.curptr] <= 122))
        invariant
            args.wf(),
            args.buf@ == s,
            args.command == old(args).command,
            key <= args.curptr,
            alpha_run_end(s, key as int) == alpha_run_end(s, args.curptr as int),
        decreases s.len() - args.curptr,
    {
        args.curptr = args.curptr + 1;
    }
    let word: [u8; 10] = [32u8, 112u8, 108u8, 111u8, 116u8, 102u8, 105u8, 108u8, 101u8, 32u8];
    assert(word@ == plotfile_word());
    if args.curptr < args.buf.len() && args.buf[args.curptr] == 58 {
        args.curptr = args.curptr + 1;
        if bytes_at(args.buf.as_slice(), args.curptr, word.as_slice()) {
            args.curptr = args.curptr + 10;
        }
    } else if args.buf.len() - args.curptr > 1 && args.buf[args.curptr] == 34 && args.buf[args.curptr
        + 1] == 32 {
        args.curptr = args.curptr + 2;
    }
    let e = args.curptr;
    if e - key < 1 {
        return None;
    }
    let v = slice_to_vec(&args.buf.as_slice()[key..e]);
    let mut i: usize = 0;
    let mut found: Option<usize> = None;
    while i < 10 && found.is_none()
        invariant
            i <= 10,
            v@ == s.subrange(key as int, e as int),
            match found {
                Some(j) => j < 10 && dvips_lookup(v@, 0) == Some(j as int),
                None => dvips_lookup(v@, 0) == dvips_lookup(v@, i as int),
            },
        decreases 10 - i + (if found is None { 1int } else { 0int }),
    {
        let k = dvips_key_bytes(i);
        if crate::text::bytes_eq(k.as_slice(), v.as_slice()) {
            found = Some(i);
        } else {
            i = i + 1;
        }
    }
    match found {
        Some(j) => {
            skip_white_arg(args);
            args.command = Some(v);
            Some(dvips_handler_at(j))
        },
        None => None,
    }
}

/// What the `ps:`-family specials keep between specials: the PostScript headers asked for, how
/// many `::[begin]` blocks are open, and whether a pending position is set.
pub struct DvipsState {
    pub headers: Vec<Vec<u8>>,
    pub block_pending: i32,
    pub position_set: bool,
}

impl DvipsState {
    /// No header, no open block, no pending position.
    pub fn new() -> (r: DvipsState)
        ensures
            r.headers@.len() == 0,
            r.block_pending == 0,
            !r.position_set,
    {
        DvipsState { headers: Vec::new(), block_pending: 0, position_set: false }
    }

    /// Records a PostScript header that was found, and consumes the special.
    pub fn add_header(&mut self, name: Vec<u8>, args: &mut spc_arg) -> (r: i32)
        requires
            old(args).wf(),
        ensures
            r == 0,
            final(self).headers@.len() == old(self).headers@.len() + 1,
            forall|i: int|
                0 <= i < old(self).headers@.len() ==> final(self).headers@[i]
                    == old(self).headers@[i],
            final(self).headers@.last()@ == name@,
            final(self).block_pending == old(self).block_pending,
            final(self).position_set == old(self).position_set,
            final(args).wf(),
            final(args).buf@ == old(args).buf@,
            final(args).command == old(args).command,
            final(args).curptr == old(args).buf@.len(),
    {
        self.headers.push(name);
        args.curptr = args.buf.len();
        0
    }
}

/// What `spc_handler_ps_header` gives for the text `s0` read from `c0`, and where reading stands after (`c1`).
pub open spec fn ps_header_post(s0: Seq<u8>, c0: int, r: Option<Vec<u8>>, c1: int) -> bool {
    let s = s0;
    let p = skip_white_end(s, c0);
    if p + 1 >= s.len() || s[p] != 61 {
        r is None && c1 == p
    } else {
        &&& r matches Some(n) && n@ == before_first(s.subrange(p + 1, s.len() as int), 0u8)
        &&& c1 == p + 1
    }
}

/// `header=FILE`: the name of the header file, the rest of the special after `=` up to a NUL
/// byte; `None` (an error) when white space is followed by no `=` or by nothing after it. The
/// caller looks the file up and then records it with `DvipsState::add_header`.
pub fn spc_handler_ps_header(args: &mut spc_arg) -> (r: Option<Vec<u8>>)
    requires
        old(args).wf(),
    ensures
        final(args).wf(),
        final(args).buf@ == old(args).buf@,
        final(args).command == old(args).command,
        ps_header_post(old(args).buf@, old(args).curptr as int, r, final(args).curptr as int),
{
    skip_white_arg(args);
    if args.buf.len() - args.curptr <= 1 || args.buf[args.curptr] != 61 {
        return None;
    }
    args.curptr = args.curptr + 1;
    let rest = &args.buf.as_slice()[args.curptr..args.buf.len()];
    proof {
        lemma_first_index_of(rest@, 0u8);
    }
    let n = match find_byte(rest, 0u8) {
        Some(n) => n,
        None => rest.len(),
    };
    let name = slice_to_vec(&rest[0..n]);
    assert(name@ =~= before_first(args.buf@.subrange(args.curptr as int, args.buf@.len() as int), 0u8));
    Some(name)
}

/// The bytes from `i` on that are not `q`: where that run ends.
pub open spec fn run_until(s: Seq<u8>, i: int, end: int, q: u8) -> int
    decreases end - i,
{
    if 0 <= i < end && i < s.len() && s[i] != q {
        run_until(s, i + 1, end, q)
    } else {
        i
    }
}

proof fn lemma_run_until(s: Seq<u8>, i: int, end: int, q: u8)
    requires
        0 <= i <= end <= s.len(),
    ensures
        i <= run_until(s, i, end, q) <= end,
        run_until(s, i, end, q) < end ==> s[run_until(s, i, end, q)] == q,
    decreases end - i,
{
    if i < end && s[i] != q {
        lemma_run_until(s, i + 1, end, q);
    }
}

/// What `parse_filename` reads at `p` before `end`: a name in `"` or `'` quotes, or up to a
/// space; `None` for nothing, an empty name or a missing closing quote.
pub open spec fn spec_parse_filename(s: Seq<u8>, p: int, end: int) -> (Option<Seq<u8>>, int) {
    if p >= end {
        (None, p)
    } else {
        let quoted = s[p] == 34 || s[p] == 39;
        let q: u8 = if quoted { s[p] } else { 32u8 };
        let start = if quoted { p + 1 } else { p };
        let e = run_until(s, start, end, q);
        if quoted && e >= end {
            (None, p)
        } else if e == start {
            (None, p)
        } else {
            (Some(s.subrange(start, e)), if quoted { e + 1 } else { e })
        }
    }
}

/// Reads a file name at `p` before `end` (see `spec_parse_filename`); returns it and the
/// position after it (`p` when there is none).
pub fn parse_filename(s: &[u8], p: usize, end: usize) -> (r: (Option<Vec<u8>>, usize))
    requires
        p <= end <= s@.len(),
    ensures
        (crate::dpxutil::opt_bytes(r.0), r.1 as int) == spec_parse_filename(
            s@,
            p as int,
            end as int,
        ),
        p <= r.1 <= end,
{
    if p >= end {
        return (None, p);
    }
    let quoted = s[p] == 34 || s[p] == 39;
    let q: u8 = if quoted {
        s[p]
    } else {
        32u8
    };
    let start = if quoted {
        p + 1
    } else {
        p
    };
    proof {
        lemma_run_until(s@, start as int, end as int, q);
    }
    let mut e = start;
    while e < end && s[e] != q
        invariant
            start <= e <= end <= s@.len(),
            run_until(s@, start as int, end as int, q) == run_until(s@, e as int, end as int, q),
        decreases end - e,
    {
        e = e + 1;
    }
    if quoted && e >= end {
        return (None, p);
    }
    if e == start {
        return (None, p);
    }
    let name = slice_to_vec(&s[start..e]);
    (Some(name), if quoted {
        e + 1
    } else {
        e
    })
}

/// Which position literal PostScript is placed at.
#[derive(PartialEq, Eq, Structural, Clone, Copy, Debug)]
pub enum LiteralPosition {
    /// The current position, which also becomes the pending position.
    CurrentRecorded,
    /// The pending position.
    Pending,
    /// The current position.
    Current,
}

/// `:[begin]`.
pub open spec fn begin_word() -> Seq<u8> {
    seq![58u8, 91u8, 98u8, 101u8, 103u8, 105u8, 110u8, 93u8]
}

/// `:[end]`.
pub open spec fn end_word() -> Seq<u8> {
    seq![58u8, 91u8, 101u8, 110u8, 100u8, 93u8]
}

/// What `spc_handler_ps_literal` does to the text `s0` read from `c0`: its result `r`, where reading stands after (`c1`), and the open blocks and pending-position flag before (`b0`, `q0`) and after (`b1`, `q1`).
pub open spec fn ps_literal_post(s0: Seq<u8>, c0: int, r: Option<LiteralPosition>, c1: int, b0: i32, q0: bool, b1: i32, q1: bool) -> bool {
    let s = s0;
    let c = c0;
    if prefix_at(s, c, begin_word()) {
        &&& r == Some(LiteralPosition::CurrentRecorded)
        &&& b1 == b0 + 1
        &&& q1
        &&& c1 == skip_white_end(s, c + 8)
    } else if prefix_at(s, c, end_word()) {
        if b0 <= 0 {
            &&& r is None
            &&& b1 == b0
            &&& q1 == q0
            &&& c1 == c
        } else {
            &&& r == Some(LiteralPosition::Pending)
            &&& b1 == b0 - 1
            &&& !q1
            &&& c1 == skip_white_end(s, c + 6)
        }
    } else if c < s.len() && s[c] == 58 {
        &&& r == Some(
            if q0 {
                LiteralPosition::Pending
            } else {
                LiteralPosition::Current
            },
        )
        &&& b1 == b0
        &&& q1 == q0
        &&& c1 == skip_white_end(s, c + 1)
    } else {
        &&& r == Some(LiteralPosition::CurrentRecorded)
        &&& b1 == b0
        &&& q1
        &&& c1 == skip_white_end(s, c)
    }
}

/// `ps:` and `PS:` literals: `:[begin]` opens a block at the current position, `:[end]` closes
/// one (an error, `None`, when none is open) and goes back to its position, a `:` alone uses
/// the pending position if one is set, and anything else sets the current position as the
/// pending one. Reading then goes past white space; the PostScript code that follows is run by
/// the caller.
pub fn spc_handler_ps_literal(st: &mut DvipsState, args: &mut spc_arg) -> (r: Option<
    LiteralPosition,
>)
    requires
        old(args).wf(),
        old(st).block_pending < i32::MAX,
    ensures
        final(args).wf(),
        final(args).buf@ == old(args).buf@,
        final(args).command == old(args).command,
        final(st).headers@ == old(st).headers@,
        ps_literal_post(old(args).buf@, old(args).curptr as int, r, final(args).curptr as int, old(st).block_pending, old(st).position_set, final(st).block_pending, final(st).position_set),
{
    let b: [u8; 8] = [58u8, 91u8, 98u8, 101u8, 103u8, 105u8, 110u8, 93u8];
    let e: [u8; 6] = [58u8, 91u8, 101u8, 110u8, 100u8, 93u8];
    assert(b@ == begin_word());
    assert(e@ == end_word());
    let r;
    let n = args.buf.len();
    assert(b@.len() == 8 && e@.len() == 6);
    if bytes_at(args.buf.as_slice(), args.curptr, b.as_slice()) {
        assert(prefix_at(args.buf@, args.curptr as int, begin_word()));
        assert(args.curptr + 8 <= n);
        st.block_pending = st.block_pending + 1;
        st.position_set = true;
        args.curptr = args.curptr + 8;
        r = LiteralPosition::CurrentRecorded;
    } else if bytes_at(args.buf.as_slice(), args.curptr, e.as_slice()) {
        if st.block_pending <= 0 {
            return None;
        }
        assert(prefix_at(args.buf@, args.curptr as int, end_word()));
        assert(args.curptr + 6 <= n);
        st.block_pending = st.block_pending - 1;
        st.position_set = false;
        args.curptr = args.curptr + 6;
        r = LiteralPosition::Pending;
    } else if args.curptr < args.buf.len() && args.buf[args.curptr] == 58 {
        r = if st.position_set {
            LiteralPosition::Pending
        } else {
            LiteralPosition::Current
        };
        args.curptr = args.curptr + 1;
    } else {
        st.position_set = true;
        r = LiteralPosition::CurrentRecorded;
    }
    skip_white_arg(args);
    Some(r)
}

/// `PST:` specials are refused: the special is consumed and -1 returned.
pub fn spc_handler_ps_trickscmd(args: &mut spc_arg) -> (r: i32)
    requires
        old(args).wf(),
    ensures
        r == -1,
        final(args).wf(),
        final(args).buf@ == old(args).buf@,
        final(args).command == old(args).command,
        final(args).curptr == old(args).buf@.len(),
{
    args.curptr = args.buf.len();
    -1
}

/// `pst:` specials are refused: the special is consumed and -1 returned.
pub fn spc_handler_ps_tricksobj(args: &mut spc_arg) -> (r: i32)
    requires
        old(args).wf(),
    ensures
        r == -1,
        final(args).wf(),
        final(args).buf@ == old(args).buf@,
        final(args).command == old(args).command,
        final(args).curptr == old(args).buf@.len(),
{
    args.curptr = args.buf.len();
    -1
}

/// What the dvips specials do at the start of a document: nothing.
pub fn spc_dvips_at_begin_document() -> (r: i32)
    ensures
        r == 0,
{
    0
}

/// What the dvips specials do at the start of a page: nothing.
pub fn spc_dvips_at_begin_page() -> (r: i32)
    ensures
        r == 0,
{
    0
}

/// At the end of the document the recorded headers are dropped.
pub fn spc_dvips_at_end_document(st: &mut DvipsState) -> (r: i32)
    ensures
        r == 0,
        final(st).headers@.len() == 0,
        final(st).block_pending == old(st).block_pending,
        final(st).position_set == old(st).position_set,
{
    st.headers = Vec::new();
    0
}

/// What a `PSfile=` special asks for.
#[derive(Debug, PartialEq)]
pub enum PsFileRead {
    /// No `=` and file name (an error).
    NoFilename,
    /// The dimension specification after the name is wrong (an error).
    BadSpec { dim: DvipsDimTrns },
    /// The image `name`, placed as `dim` says.
    Image { name: Vec<u8>, dim: DvipsDimTrns },
}

/// What `spc_handler_ps_file` gives for the text `s0` read from `c0`, and where reading stands after (`c1`).
pub open spec fn ps_file_post(s0: Seq<u8>, c0: int, r: PsFileRead, c1: int) -> bool {
    let s = s0;
    let p = skip_white_end(s, c0);
    if p + 1 >= s.len() || s[p] != 61 {
        r is NoFilename && c1 == p
    } else {
        let (name, q) = spec_parse_filename(s, p + 1, s.len() as int);
        match name {
            None => r is NoFilename && c1 == p + 1,
            Some(n) => match r {
                PsFileRead::Image { name: rn, dim } => rn@ == n && dim.error is None
                    && dvips_dimtrns_spec(s, q, 0, dim, c1),
                PsFileRead::BadSpec { dim } => dim.error is Some && dvips_dimtrns_spec(
                    s,
                    q,
                    0,
                    dim,
                    c1,
                ),
                PsFileRead::NoFilename => false,
            },
        }
    }
}

/// `PSfile=FILE KEY=VALUE...`: after white space, `=` with something after it, a file name
/// (see `parse_filename`), then a dimension specification in the dvips syntax on a cleared
/// transformation.
pub fn spc_handler_ps_file(args: &mut spc_arg) -> (r: PsFileRead)
    requires
        old(args).wf(),
    ensures
        final(args).wf(),
        final(args).buf@ == old(args).buf@,
        final(args).command == old(args).command,
        ps_file_post(old(args).buf@, old(args).curptr as int, r, final(args).curptr as int),
{
    skip_white_arg(args);
    if args.buf.len() - args.curptr <= 1 || args.buf[args.curptr] != 61 {
        return PsFileRead::NoFilename;
    }
    args.curptr = args.curptr + 1;
    let (name, q) = parse_filename(args.buf.as_slice(), args.curptr, args.buf.len());
    let name = match name {
        None => {
            return PsFileRead::NoFilename;
        },
        Some(n) => n,
    };
    args.curptr = q;
    let dim = spc_read_dimtrns_dvips(args, 0);
    if dim.error.is_some() {
        PsFileRead::BadSpec { dim }
    } else {
        PsFileRead::Image { name, dim }
    }
}

/// What `spc_handler_ps_plotfile` gives for the text `s0` read from `c0`, and where reading stands after (`c1`).
pub open spec fn ps_plotfile_post(s0: Seq<u8>, c0: int, r: Option<Vec<u8>>, c1: int) -> bool {
    let s = s0;
    let p = skip_white_end(s, c0);
    let (name, q) = spec_parse_filename(s, p, s.len() as int);
    crate::dpxutil::opt_bytes(r) == name && c1 == q
}

/// `ps: plotfile FILE`: after white space, a file name (see `parse_filename`); `None` (an
/// error) when there is none.
pub fn spc_handler_ps_plotfile(args: &mut spc_arg) -> (r: Option<Vec<u8>>)
    requires
        old(args).wf(),
    ensures
        final(args).wf(),
        final(args).buf@ == old(args).buf@,
        final(args).command == old(args).command,
        ps_plotfile_post(old(args).buf@, old(args).curptr as int, r, final(args).curptr as int),
{
    skip_white_arg(args);
    let (name, q) = parse_filename(args.buf.as_slice(), args.curptr, args.buf.len());
    args.curptr = q;
    name
}

/// The words of the `ps:` specials: a plot file follows ` plotfile ` after the colon; a block
/// of literal PostScript opens with `:[begin]` and closes with `:[end]`.
pub proof fn law_dvips_words()
    ensures
        plotfile_word() == seq![32u8, 112u8, 108u8, 111u8, 116u8, 102u8, 105u8, 108u8, 101u8, 32u8],
        begin_word() == seq![58u8, 91u8, 98u8, 101u8, 103u8, 105u8, 110u8, 93u8],
        end_word() == seq![58u8, 91u8, 101u8, 110u8, 100u8, 93u8],
{
    assert(plotfile_word() =~= seq![32u8, 112u8, 108u8, 111u8, 116u8, 102u8, 105u8, 108u8, 101u8, 32u8]);
    assert(begin_word() =~= seq![58u8, 91u8, 98u8, 101u8, 103u8, 105u8, 110u8, 93u8]);
    assert(end_word() =~= seq![58u8, 91u8, 101u8, 110u8, 100u8, 93u8]);
}

} // verus!
