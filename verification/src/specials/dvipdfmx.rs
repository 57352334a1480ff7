use vstd::prelude::*;
use crate::dpxutil::opt_bytes;
use crate::pdfparse::{skip_white, skip_white_end};
use crate::specials::{spc_arg, prefix_at, bytes_at, read_command, read_command_spec, skip_white_arg};

verus! {

/// `dvipdfmx:`, the prefix of the specials of this module.
pub open spec fn dvipdfmx_prefix() -> Seq<u8> {
    seq![100u8, 118u8, 105u8, 112u8, 100u8, 102u8, 109u8, 120u8, 58u8]
}

/// `config`, the one command of the `dvipdfmx:` special.
pub open spec fn config_key() -> Seq<u8> {
    seq![99u8, 111u8, 110u8, 102u8, 105u8, 103u8]
}

/// The commands of the `dvipdfmx:` special.
#[derive(PartialEq, Eq, Structural, Clone, Copy, Debug)]
pub enum DvipdfmxHandler {
    /// `config`: accepted and ignored.
    Config,
}

/// Whether a special is a `dvipdfmx:` special: after white space and comments, the text starts
/// with `dvipdfmx:`.
pub fn spc_dvipdfmx_check_special(buf: &[u8]) -> (r: bool)
    ensures
        r == prefix_at(buf@, skip_white_end(buf@, 0), dvipdfmx_prefix()),
{
    let p = skip_white(buf, 0);
    let pre: [u8; 9] = [100u8, 118u8, 105u8, 112u8, 100u8, 102u8, 109u8, 120u8, 58u8];
    assert(pre@ == dvipdfmx_prefix());
    bytes_at(buf, p, pre.as_slice())
}

/// What the setup of a `dvipdfmx:` special does, from read position `cur`: the handler (if
/// the command is known), and where reading stands after.
pub open spec fn dvipdfmx_setup_spec(s: Seq<u8>, cur: int) -> (Option<DvipdfmxHandler>, int) {
    let (id, p) = read_command_spec(s, cur, dvipdfmx_prefix());
    if id == Some(config_key()) {
        (Some(DvipdfmxHandler::Config), skip_white_end(s, p))
    } else {
        (None, p)
    }
}

/// Reads the prefix and the command of a `dvipdfmx:` special. On success the command name is
/// recorded in `ap.command` and the handler is returned; `None` for text that is not a
/// `dvipdfmx:` special with a non-empty body, or for an unknown command.
pub fn spc_dvipdfmx_setup_handler(ap: &mut spc_arg) -> (r: Option<DvipdfmxHandler>)
    requires
        old(ap).wf(),
    ensures
        final(ap).wf(),
        final(ap).buf@ == old(ap).buf@,
        (r, final(ap).curptr as int) == dvipdfmx_setup_spec(old(ap).buf@, old(ap).curptr as int),
        r is Some ==> (final(ap).command matches Some(c) && c@ == config_key()),
        r is None ==> final(ap).command == old(ap).command,
{
    let pre: [u8; 9] = [100u8, 118u8, 105u8, 112u8, 100u8, 102u8, 109u8, 120u8, 58u8];
    assert(pre@ == dvipdfmx_prefix());
    let id = read_command(ap, pre.as_slice());
    let key: [u8; 6] = [99u8, 111u8, 110u8, 102u8, 105u8, 103u8];
    assert(key@ == config_key());
    match id {
        Some(v) => {
            if crate::text::bytes_eq(v.as_slice(), key.as_slice()) {
                skip_white_arg(ap);
                ap.command = Some(v);
                Some(DvipdfmxHandler::Config)
            } else {
                assert(opt_bytes(Some(v)) != Some(config_key()));
                None
            }
        },
        None => None,
    }
}

/// The handler of commands that take no action: the rest of the special is consumed.
pub fn spc_handler_null(args: &mut spc_arg) -> (r: i32)
    requires
        old(args).wf(),
    ensures
        r == 0,
        final(args).wf(),
        final(args).buf@ == old(args).buf@,
        final(args).command == old(args).command,
        final(args).curptr == old(args).buf@.len(),
{
    args.curptr = args.buf.len();
    0
}

/// A `dvipdfmx:` special is its prefix `dvipdfmx:` and a command; the one command is
/// `config`, and any other is refused.
pub proof fn law_dvipdfmx_commands(s: Seq<u8>, cur: int)
    ensures
        dvipdfmx_setup_spec(s, cur).0 == (if read_command_spec(s, cur, seq![100u8, 118u8, 105u8, 112u8, 100u8, 102u8, 109u8, 120u8, 58u8]).0 == Some(seq![99u8, 111u8, 110u8, 102u8, 105u8, 103u8]) {
            Some(DvipdfmxHandler::Config)
        } else {
            None
        }),
{
    assert(dvipdfmx_prefix() =~= seq![100u8, 118u8, 105u8, 112u8, 100u8, 102u8, 109u8, 120u8, 58u8]);
    assert(config_key() =~= seq![99u8, 111u8, 110u8, 102u8, 105u8, 103u8]);
}

} // verus!
