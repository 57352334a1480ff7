use vstd::prelude::*;
use crate::dpxutil::opt_bytes;
use crate::pdfparse::{parse_ident, parse_val_ident, skip_white_end, spec_gen_ident};
use crate::specials::{spc_arg, prefix_at, bytes_at, read_command, read_command_spec, skip_white_arg};
use crate::text::{before_first, lemma_first_index_of, find_byte, slice_to_vec};

verus! {

/// `x:`, the prefix of the specials of this module.
pub open spec fn xtx_prefix() -> Seq<u8> {
    seq![120u8, 58u8]
}

/// The commands of the `x:` special, in the order they are tried.
pub open spec fn xtx_key(i: int) -> Seq<u8> {
    if i == 0 {
        // textcolor
        seq![116u8, 101u8, 120u8, 116u8, 99u8, 111u8, 108u8, 111u8, 114u8]
    } else if i == 1 {
        // textcolorpush
        seq![116u8, 101u8, 120u8, 116u8, 99u8, 111u8, 108u8, 111u8, 114u8, 112u8, 117u8, 115u8, 104u8]
    } else if i == 2 {
        // textcolorpop
        seq![116u8, 101u8, 120u8, 116u8, 99u8, 111u8, 108u8, 111u8, 114u8, 112u8, 111u8, 112u8]
    } else if i == 3 {
        // rulecolor
        seq![114u8, 117u8, 108u8, 101u8, 99u8, 111u8, 108u8, 111u8, 114u8]
    } else if i == 4 {
        // rulecolorpush
        seq![114u8, 117u8, 108u8, 101u8, 99u8, 111u8, 108u8, 111u8, 114u8, 112u8, 117u8, 115u8, 104u8]
    } else if i == 5 {
        // rulecolorpop
        seq![114u8, 117u8, 108u8, 101u8, 99u8, 111u8, 108u8, 111u8, 114u8, 112u8, 111u8, 112u8]
    } else if i == 6 {
        // papersize
        seq![112u8, 97u8, 112u8, 101u8, 114u8, 115u8, 105u8, 122u8, 101u8]
    } else if i == 7 {
        // backgroundcolor
        seq![98u8, 97u8, 99u8, 107u8, 103u8, 114u8, 111u8, 117u8, 110u8, 100u8, 99u8, 111u8, 108u8, 111u8, 114u8]
    } else if i == 8 {
        // gsave
        seq![103u8, 115u8, 97u8, 118u8, 101u8]
    } else if i == 9 {
        // grestore
        seq![103u8, 114u8, 101u8, 115u8, 116u8, 111u8, 114u8, 101u8]
    } else if i == 10 {
        // scale
        seq![115u8, 99u8, 97u8, 108u8, 101u8]
    } else if i == 11 {
        // bscale
        seq![98u8, 115u8, 99u8, 97u8, 108u8, 101u8]
    } else if i == 12 {
        // escale
        seq![101u8, 115u8, 99u8, 97u8, 108u8, 101u8]
    } else if i == 13 {
        // rotate
        seq![114u8, 111u8, 116u8, 97u8, 116u8, 101u8]
    } else if i == 14 {
        // fontmapline
        seq![102u8, 111u8, 110u8, 116u8, 109u8, 97u8, 112u8, 108u8, 105u8, 110u8, 101u8]
    } else if i == 15 {
        // fontmapfile
        seq![102u8, 111u8, 110u8, 116u8, 109u8, 97u8, 112u8, 102u8, 105u8, 108u8, 101u8]
    } else if i == 16 {
        // shadow
        seq![115u8, 104u8, 97u8, 100u8, 111u8, 119u8]
    } else if i == 17 {
        // colorshadow
        seq![99u8, 111u8, 108u8, 111u8, 114u8, 115u8, 104u8, 97u8, 100u8, 111u8, 119u8]
    } else if i == 18 {
        // renderingmode
        seq![114u8, 101u8, 110u8, 100u8, 101u8, 114u8, 105u8, 110u8, 103u8, 109u8, 111u8, 100u8, 101u8]
    } else if i == 19 {
        // initoverlay
        seq![105u8, 110u8, 105u8, 116u8, 111u8, 118u8, 101u8, 114u8, 108u8, 97u8, 121u8]
    } else if i == 20 {
        // clipoverlay
        seq![99u8, 108u8, 105u8, 112u8, 111u8, 118u8, 101u8, 114u8, 108u8, 97u8, 121u8]
    } else {
        Seq::<u8>::empty()
    }
}

fn xtx_key_bytes(i: usize) -> (r: Vec<u8>)
    requires
        i < 21,
    ensures
        r@ == xtx_key(i as int),
{
    match i {
        0 => vec![116u8, 101u8, 120u8, 116u8, 99u8, 111u8, 108u8, 111u8, 114u8], // textcolor
        1 => vec![116u8, 101u8, 120u8, 116u8, 99u8, 111u8, 108u8, 111u8, 114u8, 112u8, 117u8, 115u8, 104u8], // textcolorpush
        2 => vec![116u8, 101u8, 120u8, 116u8, 99u8, 111u8, 108u8, 111u8, 114u8, 112u8, 111u8, 112u8], // textcolorpop
        3 => vec![114u8, 117u8, 108u8, 101u8, 99u8, 111u8, 108u8, 111u8, 114u8], // rulecolor
        4 => vec![114u8, 117u8, 108u8, 101u8, 99u8, 111u8, 108u8, 111u8, 114u8, 112u8, 117u8, 115u8, 104u8], // rulecolorpush
        5 => vec![114u8, 117u8, 108u8, 101u8, 99u8, 111u8, 108u8, 111u8, 114u8, 112u8, 111u8, 112u8], // rulecolorpop
        6 => vec![112u8, 97u8, 112u8, 101u8, 114u8, 115u8, 105u8, 122u8, 101u8], // papersize
        7 => vec![98u8, 97u8, 99u8, 107u8, 103u8, 114u8, 111u8, 117u8, 110u8, 100u8, 99u8, 111u8, 108u8, 111u8, 114u8], // backgroundcolor
        8 => vec![103u8, 115u8, 97u8, 118u8, 101u8], // gsave
        9 => vec![103u8, 114u8, 101u8, 115u8, 116u8, 111u8, 114u8, 101u8], // grestore
        10 => vec![115u8, 99u8, 97u8, 108u8, 101u8], // scale
        11 => vec![98u8, 115u8, 99u8, 97u8, 108u8, 101u8], // bscale
        12 => vec![101u8, 115u8, 99u8, 97u8, 108u8, 101u8], // escale
        13 => vec![114u8, 111u8, 116u8, 97u8, 116u8, 101u8], // rotate
        14 => vec![102u8, 111u8, 110u8, 116u8, 109u8, 97u8, 112u8, 108u8, 105u8, 110u8, 101u8], // fontmapline
        15 => vec![102u8, 111u8, 110u8, 116u8, 109u8, 97u8, 112u8, 102u8, 105u8, 108u8, 101u8], // fontmapfile
        16 => vec![115u8, 104u8, 97u8, 100u8, 111u8, 119u8], // shadow
        17 => vec![99u8, 111u8, 108u8, 111u8, 114u8, 115u8, 104u8, 97u8, 100u8, 111u8, 119u8], // colorshadow
        18 => vec![114u8, 101u8, 110u8, 100u8, 101u8, 114u8, 105u8, 110u8, 103u8, 109u8, 111u8, 100u8, 101u8], // renderingmode
        19 => vec![105u8, 110u8, 105u8, 116u8, 111u8, 118u8, 101u8, 114u8, 108u8, 97u8, 121u8], // initoverlay
        _ => vec![99u8, 108u8, 105u8, 112u8, 111u8, 118u8, 101u8, 114u8, 108u8, 97u8, 121u8], // clipoverlay
    }
}

/// What each command of the `x:` special does.
#[derive(PartialEq, Eq, Structural, Clone, Copy, Debug)]
pub enum XtxHandler {
    /// `textcolor`, `rulecolor` and their push and pop forms: not supported, with a hint.
    UnsupportedColor,
    /// `papersize`: nothing to do here.
    PaperSize,
    /// `backgroundcolor`: a colour in the syntax of `pdf:` specials.
    BackgroundColor,
    /// `gsave`.
    GSave,
    /// `grestore`.
    GRestore,
    /// `scale`: two factors.
    Scale,
    /// `bscale`: two factors, undone by the next `escale`.
    BScale,
    /// `escale`.
    EScale,
    /// `rotate`: an angle in degrees.
    Rotate,
    /// `fontmapline`.
    FontMapLine,
    /// `fontmapfile`.
    FontMapFile,
    /// `shadow`, `colorshadow`: not supported.
    Unsupported,
    /// `renderingmode`.
    RenderingMode,
    /// `initoverlay`.
    InitOverlay,
    /// `clipoverlay`.
    ClipOverlay,
}

/// The handler of the `i`th command of `xtx_key`.
pub open spec fn xtx_handler_of(i: int) -> XtxHandler {
    if 0 <= i <= 5 {
        XtxHandler::UnsupportedColor
    } else if i == 6 {
        XtxHandler::PaperSize
    } else if i == 7 {
        XtxHandler::BackgroundColor
    } else if i == 8 {
        XtxHandler::GSave
    } else if i == 9 {
        XtxHandler::GRestore
    } else if i == 10 {
        XtxHandler::Scale
    } else if i == 11 {
        XtxHandler::BScale
    } else if i == 12 {
        XtxHandler::EScale
    } else if i == 13 {
        XtxHandler::Rotate
    } else if i == 14 {
        XtxHandler::FontMapLine
    } else if i == 15 {
        XtxHandler::FontMapFile
    } else if i == 16 || i == 17 {
        XtxHandler::Unsupported
    } else if i == 18 {
        XtxHandler::RenderingMode
    } else if i == 19 {
        XtxHandler::InitOverlay
    } else {
        XtxHandler::ClipOverlay
    }
}

fn xtx_handler_at(i: usize) -> (r: XtxHandler)
    requires
        i < 21,
    ensures
        r == xtx_handler_of(i as int),
{
    if i <= 5 {
        XtxHandler::UnsupportedColor
    } else if i == 6 {
        XtxHandler::PaperSize
    } else if i == 7 {
        XtxHandler::BackgroundColor
    } else if i == 8 {
        XtxHandler::GSave
    } else if i == 9 {
        XtxHandler::GRestore
    } else if i == 10 {
        XtxHandler::Scale
    } else if i == 11 {
        XtxHandler::BScale
    } else if i == 12 {
        XtxHandler::EScale
    } else if i == 13 {
        XtxHandler::Rotate
    } else if i == 14 {
        XtxHandler::FontMapLine
    } else if i == 15 {
        XtxHandler::FontMapFile
    } else if i == 16 || i == 17 {
        XtxHandler::Unsupported
    } else if i == 18 {
        XtxHandler::RenderingMode
    } else if i == 19 {
        XtxHandler::InitOverlay
    } else {
        XtxHandler::ClipOverlay
    }
}

/// The index of the first command of `xtx_key` from `i` on that is `v`.
pub open spec fn xtx_lookup(v: Seq<u8>, i: int) -> Option<int>
    decreases 21 - i,
{
    if i < 0 || i >= 21 {
        None
    } else if xtx_key(i) == v {
        Some(i)
    } else {
        xtx_lookup(v, i + 1)
    }
}

fn xtx_find(v: &[u8]) -> (r: Option<usize>)
    ensures
        match r {
            Some(k) => xtx_lookup(v@, 0) == Some(k as int) && k < 21,
            None => xtx_lookup(v@, 0) is None,
        },
{
    let mut i: usize = 0;
    while i < 21
        invariant
            i <= 21,
            xtx_lookup(v@, 0) == xtx_lookup(v@, i as int),
        decreases 21 - i,
    {
        let k = xtx_key_bytes(i);
        if crate::text::bytes_eq(k.as_slice(), v) {
            return Some(i);
        }
        i = i + 1;
    }
    None
}

/// Whether a special is an `x:` special: after white space and comments, the text starts with
/// `x:`.
pub fn spc_xtx_check_special(buf: &[u8]) -> (r: bool)
    ensures
        r == prefix_at(buf@, skip_white_end(buf@, 0), xtx_prefix()),
{
    let p = crate::pdfparse::skip_white(buf, 0);
    let pre: [u8; 2] = [120u8, 58u8];
    assert(pre@ == xtx_prefix());
    bytes_at(buf, p, pre.as_slice())
}

/// What the setup of an `x:` special does, from read position `cur`: the handler of the
/// command (when it is one of `xtx_key`), and where reading stands after.
pub open spec fn xtx_setup_spec(s: Seq<u8>, cur: int) -> (Option<XtxHandler>, int) {
    let (id, p) = read_command_spec(s, cur, xtx_prefix());
    match id {
        Some(v) => match xtx_lookup(v, 0) {
            Some(k) => (Some(xtx_handler_of(k)), skip_white_end(s, p)),
            None => (None, p),
        },
        None => (None, p),
    }
}

/// An `x:` special is its prefix `x:` and a command, and the command decides the handler:
/// `textcolor`, `rulecolor` and their `push` and `pop` forms are colours not supported here;
/// `papersize`, `backgroundcolor`, `gsave`, `grestore`, `scale`, `bscale`, `escale`, `rotate`,
/// `fontmapline`, `fontmapfile`, `renderingmode`, `initoverlay`, `clipoverlay` each have their
/// own handler; `shadow` and `colorshadow` are not supported. Any other command is refused.
pub proof fn law_xtx_commands_choose_handlers(s: Seq<u8>, cur: int)
    ensures
        xtx_prefix() == seq![120u8, 58u8],
        match read_command_spec(s, cur, seq![120u8, 58u8]).0 {
            Some(c) => xtx_setup_spec(s, cur).0 == (if c == seq![116u8, 101u8, 120u8, 116u8, 99u8, 111u8, 108u8, 111u8, 114u8] || c == seq![116u8, 101u8, 120u8, 116u8, 99u8, 111u8, 108u8, 111u8, 114u8, 112u8, 117u8, 115u8, 104u8] || c == seq![116u8, 101u8, 120u8, 116u8, 99u8, 111u8, 108u8, 111u8, 114u8, 112u8, 111u8, 112u8] || c == seq![114u8, 117u8, 108u8, 101u8, 99u8, 111u8, 108u8, 111u8, 114u8] || c == seq![114u8, 117u8, 108u8, 101u8, 99u8, 111u8, 108u8, 111u8, 114u8, 112u8, 117u8, 115u8, 104u8] || c == seq![114u8, 117u8, 108u8, 101u8, 99u8, 111u8, 108u8, 111u8, 114u8, 112u8, 111u8, 112u8] {
            Some(XtxHandler::UnsupportedColor)
        } else if c == seq![112u8, 97u8, 112u8, 101u8, 114u8, 115u8, 105u8, 122u8, 101u8] {
            Some(XtxHandler::PaperSize)
        } else if c == seq![98u8, 97u8, 99u8, 107u8, 103u8, 114u8, 111u8, 117u8, 110u8, 100u8, 99u8, 111u8, 108u8, 111u8, 114u8] {
            Some(XtxHandler::BackgroundColor)
        } else if c == seq![103u8, 115u8, 97u8, 118u8, 101u8] {
            Some(XtxHandler::GSave)
        } else if c == seq![103u8, 114u8, 101u8, 115u8, 116u8, 111u8, 114u8, 101u8] {
            Some(XtxHandler::GRestore)
        } else if c == seq![115u8, 99u8, 97u8, 108u8, 101u8] {
            Some(XtxHandler::Scale)
        } else if c == seq![98u8, 115u8, 99u8, 97u8, 108u8, 101u8] {
            Some(XtxHandler::BScale)
        } else if c == seq![101u8, 115u8, 99u8, 97u8, 108u8, 101u8] {
            Some(XtxHandler::EScale)
        } else if c == seq![114u8, 111u8, 116u8, 97u8, 116u8, 101u8] {
            Some(XtxHandler::Rotate)
        } else if c == seq![102u8, 111u8, 110u8, 116u8, 109u8, 97u8, 112u8, 108u8, 105u8, 110u8, 101u8] {
            Some(XtxHandler::FontMapLine)
        } else if c == seq![102u8, 111u8, 110u8, 116u8, 109u8, 97u8, 112u8, 102u8, 105u8, 108u8, 101u8] {
            Some(XtxHandler::FontMapFile)
        } else if c == seq![115u8, 104u8, 97u8, 100u8, 111u8, 119u8] || c == seq![99u8, 111u8, 108u8, 111u8, 114u8, 115u8, 104u8, 97u8, 100u8, 111u8, 119u8] {
            Some(XtxHandler::Unsupported)
        } else if c == seq![114u8, 101u8, 110u8, 100u8, 101u8, 114u8, 105u8, 110u8, 103u8, 109u8, 111u8, 100u8, 101u8] {
            Some(XtxHandler::RenderingMode)
        } else if c == seq![105u8, 110u8, 105u8, 116u8, 111u8, 118u8, 101u8, 114u8, 108u8, 97u8, 121u8] {
            Some(XtxHandler::InitOverlay)
        } else if c == seq![99u8, 108u8, 105u8, 112u8, 111u8, 118u8, 101u8, 114u8, 108u8, 97u8, 121u8] {
            Some(XtxHandler::ClipOverlay)
        } else {
            None::<XtxHandler>
        }),
            None => xtx_setup_spec(s, cur).0 is None,
        },
{
    assert(xtx_prefix() =~= seq![120u8, 58u8]);
    reveal_with_fuel(xtx_lookup, 22);
}

/// Reads the prefix and the command of an `x:` special. On success the command name is
/// recorded in `ap.command` and its handler is returned; `None` for text that is not an `x:`
/// special with a body, or for an unknown command.
pub fn spc_xtx_setup_handler(ap: &mut spc_arg) -> (r: Option<XtxHandler>)
    requires
        old(ap).wf(),
    ensures
        final(ap).wf(),
        final(ap).buf@ == old(ap).buf@,
        (r, final(ap).curptr as int) == xtx_setup_spec(old(ap).buf@, old(ap).curptr as int),
        r is Some ==> (final(ap).command matches Some(c) && xtx_lookup(c@, 0) is Some
            && read_command_spec(old(ap).buf@, old(ap).curptr as int, xtx_prefix()).0 == Some(c@)),
        r is None ==> final(ap).command == old(ap).command,
{
    let pre: [u8; 2] = [120u8, 58u8];
    assert(pre@ == xtx_prefix());
    let id = read_command(ap, pre.as_slice());
    match id {
        Some(v) => match xtx_find(v.as_slice()) {
            Some(k) => {
                skip_white_arg(ap);
                ap.command = Some(v);
                Some(xtx_handler_at(k))
            },
            None => None,
        },
        None => None,
    }
}

/// What the `x:` specials keep between pages: the name of the overlay being drawn.
pub struct XtxState {
    pub overlay_name: Vec<u8>,
}

impl XtxState {
    /// No overlay yet.
    pub fn new() -> (r: XtxState)
        ensures
            r.overlay_name@.len() == 0,
    {
        XtxState { overlay_name: Vec::new() }
    }
}

/// What `spc_handler_xtx_initoverlay` does to the text `s0` read from `c0`: its result `r`, where reading stands after (`c1`), and the overlay name before (`n0`) and after (`n1`).
pub open spec fn initoverlay_post(s0: Seq<u8>, c0: int, r: i32, c1: int, n0: Seq<u8>, n1: Seq<u8>) -> bool {
    let p = skip_white_end(s0, c0);
    let s = s0;
    if p >= s.len() {
        &&& r == -1
        &&& c1 == p
        &&& n1 == n0
    } else {
        &&& r == 0
        &&& c1 == s.len()
        &&& n1 == before_first(s.subrange(p, s.len() as int), 0u8)
    }
}

/// `initoverlay NAME`: the rest of the special, up to a NUL byte, names the overlay; an empty
/// rest is an error (-1). The special is consumed.
pub fn spc_handler_xtx_initoverlay(st: &mut XtxState, args: &mut spc_arg) -> (r: i32)
    requires
        old(args).wf(),
        old(args).buf@.len() - skip_white_end(old(args).buf@, old(args).curptr as int) < 256,
    ensures
        final(args).wf(),
        final(args).buf@ == old(args).buf@,
        final(args).command == old(args).command,
        initoverlay_post(old(args).buf@, old(args).curptr as int, r, final(args).curptr as int, old(st).overlay_name@, final(st).overlay_name@),
{
    skip_white_arg(args);
    if args.curptr >= args.buf.len() {
        return -1;
    }
    let rest = &args.buf.as_slice()[args.curptr..args.buf.len()];
    proof {
        lemma_first_index_of(rest@, 0u8);
    }
    let n = match find_byte(rest, 0u8) {
        Some(n) => n,
        None => rest.len(),
    };
    st.overlay_name = slice_to_vec(&rest[0..n]);
    assert(st.overlay_name@ =~= before_first(args.buf@.subrange(args.curptr as int, args.buf@.len() as int), 0u8));
    args.curptr = args.buf.len();
    0
}

/// `all`: the overlay name that every `clipoverlay` keeps.
pub open spec fn all_key() -> Seq<u8> {
    seq![97u8, 108u8, 108u8]
}

/// Whether `clipoverlay` at text position `p` hides what follows: the text there starts neither
/// with the current overlay name nor with `all`.
pub open spec fn clips_overlay(s: Seq<u8>, p: int, overlay: Seq<u8>) -> bool {
    !prefix_at(s, p, overlay) && !prefix_at(s, p, all_key())
}

/// What `spc_handler_xtx_clipoverlay` gives for the text `s0` read from `c0` with overlay `n0`, and where reading stands after (`c1`).
pub open spec fn clipoverlay_post(s0: Seq<u8>, c0: int, r: Option<bool>, c1: int, n0: Seq<u8>) -> bool {
    let p = skip_white_end(s0, c0);
    let s = s0;
    if p >= s.len() {
        r is None && c1 == p
    } else {
        r == Some(clips_overlay(s, p, n0)) && c1 == s.len()
    }
}

/// `clipoverlay NAME`: `None` (error) for an empty rest; else whether drawing is to be clipped
/// away (see `clips_overlay`). The special is consumed.
pub fn spc_handler_xtx_clipoverlay(st: &XtxState, args: &mut spc_arg) -> (r: Option<bool>)
    requires
        old(args).wf(),
    ensures
        final(args).wf(),
        final(args).buf@ == old(args).buf@,
        final(args).command == old(args).command,
        clipoverlay_post(old(args).buf@, old(args).curptr as int, r, final(args).curptr as int, st.overlay_name@),
{
    skip_white_arg(args);
    if args.curptr >= args.buf.len() {
        return None;
    }
    let all: [u8; 3] = [97u8, 108u8, 108u8];
    assert(all@ == all_key());
    let keep = bytes_at(args.buf.as_slice(), args.curptr, st.overlay_name.as_slice())
        || bytes_at(args.buf.as_slice(), args.curptr, all.as_slice());
    args.curptr = args.buf.len();
    Some(!keep)
}

/// What an `x:fontmapline` special asks of the font map.
#[derive(Debug, PartialEq)]
pub enum FontmapLineRequest {
    /// Nothing after the command (an error).
    Empty,
    /// `-` without a TFM name (an error).
    MissingName,
    /// `-NAME`: remove the record of that TFM name.
    Remove { name: Vec<u8> },
    /// A map line, to be read and inserted (`append` for a line that started with `+`).
    Add { append: bool, line: Vec<u8> },
}

/// What `spc_handler_xtx_fontmapline` reads from the text `s` at `cur`, and where it leaves the
/// read position: past white space, an optional `+` or `-` and white space again; after `-` a
/// TFM name (and the special is consumed when there is one), else the rest of the text is the
/// map line.
pub open spec fn fontmapline_spec(s: Seq<u8>, cur: int) -> (FontmapLineView, int) {
    let p0 = skip_white_end(s, cur);
    if p0 >= s.len() {
        (FontmapLineView::Empty, p0)
    } else {
        let op = s[p0];
        let p1 = skip_white_end(s, if op == 45 || op == 43 { p0 + 1 } else { p0 });
        if op == 45 {
            match spec_gen_ident(s, p1, s.len() as int, false).0 {
                Some(name) => (FontmapLineView::Remove { name }, s.len() as int),
                None => (FontmapLineView::MissingName, p1),
            }
        } else {
            (FontmapLineView::Add { append: op == 43, line: s.subrange(p1, s.len() as int) }, p1)
        }
    }
}

pub enum FontmapLineView {
    Empty,
    MissingName,
    Remove { name: Seq<u8> },
    Add { append: bool, line: Seq<u8> },
}

impl View for FontmapLineRequest {
    type V = FontmapLineView;

    open spec fn view(&self) -> FontmapLineView {
        match self {
            FontmapLineRequest::Empty => FontmapLineView::Empty,
            FontmapLineRequest::MissingName => FontmapLineView::MissingName,
            FontmapLineRequest::Remove { name } => FontmapLineView::Remove { name: name@ },
            FontmapLineRequest::Add { append, line } => FontmapLineView::Add {
                append: *append,
                line: line@,
            },
        }
    }
}

/// Reads an `x:fontmapline` special (see `fontmapline_spec`). For a map line the caller reads
/// it into a record, and consumes the special when that succeeds.
pub fn spc_handler_xtx_fontmapline(ap: &mut spc_arg) -> (r: FontmapLineRequest)
    requires
        old(ap).wf(),
    ensures
        final(ap).wf(),
        final(ap).buf@ == old(ap).buf@,
        final(ap).command == old(ap).command,
        (r@, final(ap).curptr as int) == fontmapline_spec(old(ap).buf@, old(ap).curptr as int),
{
    skip_white_arg(ap);
    if ap.curptr >= ap.buf.len() {
        return FontmapLineRequest::Empty;
    }
    let op = ap.buf[ap.curptr];
    if op == 45 || op == 43 {
        ap.curptr = ap.curptr + 1;
    }
    skip_white_arg(ap);
    if op == 45 {
        let (name, _p) = parse_ident(ap.buf.as_slice(), ap.curptr, ap.buf.len());
        match name {
            Some(name) => {
                ap.curptr = ap.buf.len();
                FontmapLineRequest::Remove { name }
            },
            None => FontmapLineRequest::MissingName,
        }
    } else {
        let line = slice_to_vec(&ap.buf.as_slice()[ap.curptr..ap.buf.len()]);
        FontmapLineRequest::Add { append: op == 43, line }
    }
}

/// What an `x:fontmapfile` special asks for.
#[derive(Debug, PartialEq)]
pub enum FontmapFileRequest {
    /// Nothing after the command: nothing to do.
    Nothing,
    /// No file name (an error).
    Missing,
    /// Load the map file `name`; `mode` is `+`, `-` or 0 for none.
    Load { name: Vec<u8>, mode: u8 },
}

/// What `spc_handler_xtx_fontmapfile` gives for the text `s0` read from `c0`, and where reading stands after (`c1`).
pub open spec fn fontmapfile_post(s0: Seq<u8>, c0: int, r: FontmapFileRequest, c1: int) -> bool {
    let s = s0;
    let p0 = skip_white_end(s, c0);
    if p0 >= s.len() {
        r is Nothing && c1 == p0
    } else {
        let op = s[p0];
        let mode: u8 = if op == 45 || op == 43 { op } else { 0 };
        let p1 = if op == 45 || op == 43 { p0 + 1 } else { p0 };
        let (name, p2) = spec_gen_ident(s, p1, s.len() as int, true);
        &&& c1 == p2
        &&& match r {
            FontmapFileRequest::Load { name: n, mode: m } => name == Some(n@) && m
                == mode,
            FontmapFileRequest::Missing => name is None,
            FontmapFileRequest::Nothing => false,
        }
    }
}

/// Reads an `x:fontmapfile` special: past white space, an optional `+` or `-`, then a file
/// name (`parse_val_ident`).
pub fn spc_handler_xtx_fontmapfile(args: &mut spc_arg) -> (r: FontmapFileRequest)
    requires
        old(args).wf(),
    ensures
        final(args).wf(),
        final(args).buf@ == old(args).buf@,
        final(args).command == old(args).command,
        fontmapfile_post(old(args).buf@, old(args).curptr as int, r, final(args).curptr as int),
{
    skip_white_arg(args);
    if args.curptr >= args.buf.len() {
        return FontmapFileRequest::Nothing;
    }
    let op = args.buf[args.curptr];
    let mode: u8 = if op == 45 || op == 43 {
        args.curptr = args.curptr + 1;
        op
    } else {
        0
    };
    let (name, p) = parse_val_ident(args.buf.as_slice(), args.curptr, args.buf.len());
    args.curptr = p;
    match name {
        Some(name) => FontmapFileRequest::Load { name, mode },
        None => FontmapFileRequest::Missing,
    }
}

/// The page content that `x:renderingmode` adds for mode `mode`: ` N Tr`, then a space and
/// the rest of the special after white space, when there is any.
pub open spec fn renderingmode_content(mode: int, s: Seq<u8>, p: int) -> Seq<u8> {
    let tr = seq![32u8, (48 + mode) as u8, 32u8, 84u8, 114u8];
    if p < s.len() {
        tr + seq![32u8] + s.subrange(p, s.len() as int)
    } else {
        tr
    }
}

/// `renderingmode N`, given the mode number read from the special: `None` (an error) for a mode
/// outside 0..=7, with the special left as it is; else the content to add to the page, and the
/// special is consumed.
pub fn spc_handler_xtx_renderingmode(mode: i32, args: &mut spc_arg) -> (r: Option<Vec<u8>>)
    requires
        old(args).wf(),
    ensures
        final(args).wf(),
        final(args).buf@ == old(args).buf@,
        final(args).command == old(args).command,
        (mode < 0 || mode > 7) ==> r is None && final(args).curptr == old(args).curptr,
        0 <= mode <= 7 ==> (r matches Some(c) && c@ == renderingmode_content(
            mode as int,
            old(args).buf@,
            skip_white_end(old(args).buf@, old(args).curptr as int),
        )) && final(args).curptr == old(args).buf@.len(),
{
    if mode < 0 || mode > 7 {
        return None;
    }
    let mut c: Vec<u8> = vec![32u8, (48 + mode) as u8, 32u8, 84u8, 114u8];
    skip_white_arg(args);
    if args.curptr < args.buf.len() {
        c.push(32u8);
        let mut i = args.curptr;
        let ghost c0 = c@;
        while i < args.buf.len()
            invariant
                args.wf(),
                args.curptr <= i <= args.buf@.len(),
                c@ == c0 + args.buf@.subrange(args.curptr as int, i as int),
            decreases args.buf@.len() - i,
        {
            c.push(args.buf[i]);
            i = i + 1;
            assert(c@ =~= c0 + args.buf@.subrange(args.curptr as int, i as int));
        }
    }
    args.curptr = args.buf.len();
    Some(c)
}

/// The handler of commands that are not supported (and of `scale`-like commands once their
/// numbers are used): the rest of the special is consumed.
pub fn spc_handler_xtx_unsupported(args: &mut spc_arg) -> (r: i32)
    requires
        old(args).wf(),
    ensures
        r == 0,
        final(args).wf(),
        final(args).buf@ == old(args).buf@,
        final(args).command == old(args).command,
        final(args).curptr == old(args).buf@.len(),
{
    args.curptr = args.buf.len();
    0
}

/// `x:papersize` is dealt with before the pages are: nothing to do here.
pub fn spc_handler_xtx_papersize() -> (r: i32)
    ensures
        r == 0,
{
    0
}

/// What reading the `k` numbers of a transformation special gives: their texts with the special
/// consumed, or `None` (an error) with the read position where reading stopped, when fewer came.
pub open spec fn xtx_numbers_spec(s: Seq<u8>, cur: int, k: nat) -> (Option<Seq<Seq<u8>>>, int) {
    let (nums, p) = crate::specials::util::read_numbers_spec(s, cur, k);
    if nums.len() < k {
        (None, p)
    } else {
        (Some(nums), s.len() as int)
    }
}

fn xtx_read_numbers(args: &mut spc_arg, k: usize) -> (r: Option<Vec<Vec<u8>>>)
    requires
        old(args).wf(),
    ensures
        final(args).wf(),
        final(args).buf@ == old(args).buf@,
        final(args).command == old(args).command,
        (match r {
            Some(v) => Some(crate::specials::util::vecs_view(v@)),
            None => None,
        }, final(args).curptr as int) == xtx_numbers_spec(old(args).buf@, old(args).curptr as int, k as nat),
{
    let v = crate::specials::util::spc_util_read_numbers(k, args);
    if v.len() < k {
        None
    } else {
        args.curptr = args.buf.len();
        Some(v)
    }
}

/// `x:scale X Y`: the two factors (as their texts); the transformation is made from them.
pub fn spc_handler_xtx_scale(args: &mut spc_arg) -> (r: Option<Vec<Vec<u8>>>)
    requires
        old(args).wf(),
    ensures
        final(args).wf(),
        final(args).buf@ == old(args).buf@,
        final(args).command == old(args).command,
        (match r {
            Some(v) => Some(crate::specials::util::vecs_view(v@)),
            None => None,
        }, final(args).curptr as int) == xtx_numbers_spec(old(args).buf@, old(args).curptr as int, 2),
{
    xtx_read_numbers(args, 2)
}

/// `x:rotate A`: the angle in degrees (as its text); the transformation is made from it.
pub fn spc_handler_xtx_rotate(args: &mut spc_arg) -> (r: Option<Vec<Vec<u8>>>)
    requires
        old(args).wf(),
    ensures
        final(args).wf(),
        final(args).buf@ == old(args).buf@,
        final(args).command == old(args).command,
        (match r {
            Some(v) => Some(crate::specials::util::vecs_view(v@)),
            None => None,
        }, final(args).curptr as int) == xtx_numbers_spec(old(args).buf@, old(args).curptr as int, 1),
{
    xtx_read_numbers(args, 1)
}

/// What `spc_handler_xtx_backgroundcolor` gives for the text `s0` read from `c0`, and where reading stands after (`c1`).
pub open spec fn backgroundcolor_post(s0: Seq<u8>, c0: int, r: (i32, Option<crate::specials::util::ColorSpec>), c1: int) -> bool {
    let s = s0;
    let p0 = crate::dpxutil::blank_end(s, c0, s.len() as int);
    let (c, p) = if p0 >= s.len() {
        (Err::<crate::specials::util::ColorSpecView, crate::specials::util::ColorErrorView>(
            crate::specials::util::ColorErrorView::Empty,
        ), p0)
    } else {
        crate::specials::util::read_color_pdf_spec(s, p0)
    };
    &&& c1 == p
    &&& match c {
        Ok(cv) => r.0 == 1 && (r.1 matches Some(x) && x@ == cv),
        Err(_) => r.0 == -1 && r.1 is None,
    }
}

/// `x:backgroundcolor`: a colour in the syntax of `pdf:` specials (see
/// `spc_util_read_colorspec`); 1 and the colour when one was read, -1 otherwise.
pub fn spc_handler_xtx_backgroundcolor(args: &mut spc_arg) -> (r: (i32, Option<crate::specials::util::ColorSpec>))
    requires
        old(args).wf(),
    ensures
        final(args).wf(),
        final(args).buf@ == old(args).buf@,
        final(args).command == old(args).command,
        backgroundcolor_post(old(args).buf@, old(args).curptr as int, r, final(args).curptr as int),
{
    match crate::specials::util::spc_util_read_colorspec(args, false) {
        Ok(c) => (1, Some(c)),
        Err(_) => (-1, None),
    }
}

/// The overlay name that every `clipoverlay` keeps is `all`.
pub proof fn law_all_overlays_word()
    ensures
        all_key() == seq![97u8, 108u8, 108u8],
{
    assert(all_key() =~= seq![97u8, 108u8, 108u8]);
}

} // verus!
