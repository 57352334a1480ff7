use tectonic::specials::dvipdfmx::{
    spc_dvipdfmx_check_special, spc_dvipdfmx_setup_handler, spc_handler_null, DvipdfmxHandler,
};
use tectonic::specials::dvips::{
    spc_dvips_at_begin_document, spc_dvips_at_begin_page,
    parse_filename, spc_dvips_at_end_document, spc_dvips_check_special, spc_dvips_setup_handler,
    spc_handler_ps_file, spc_handler_ps_header, spc_handler_ps_literal, spc_handler_ps_plotfile,
    spc_handler_ps_trickscmd, spc_handler_ps_tricksobj, DvipsHandler, DvipsState, LiteralPosition, PsFileRead,
};
use tectonic::specials::misc::{
    spc_handler_postscriptbox, spc_misc_check_special, spc_misc_setup_handler, MiscHandler,
};
use tectonic::specials::xtx::{
    spc_handler_xtx_backgroundcolor, spc_handler_xtx_papersize, spc_handler_xtx_rotate,
    spc_handler_xtx_scale,
    spc_handler_xtx_clipoverlay, spc_handler_xtx_fontmapfile, spc_handler_xtx_fontmapline,
    spc_handler_xtx_initoverlay, spc_handler_xtx_renderingmode, spc_handler_xtx_unsupported,
    spc_xtx_check_special, spc_xtx_setup_handler, FontmapFileRequest, FontmapLineRequest,
    XtxHandler, XtxState,
};
use tectonic::specials::{
    spc_setup_special, Special, SpecialHandler, SpecialSetup,
    check_garbage, error_excerpt, ispageref, read_command, reference_kind, spc_arg,
    spc_handler_unknown, RefKind,
};

fn arg(s: &str) -> spc_arg {
    spc_arg::new(s.as_bytes().to_vec())
}

fn rest(a: &spc_arg) -> &[u8] {
    &a.buf[a.curptr..]
}

#[test]
fn dvipdfmx_specials() {
    assert!(spc_dvipdfmx_check_special(b"  dvipdfmx:config foo"));
    assert!(spc_dvipdfmx_check_special(b"% note\ndvipdfmx:x"));
    assert!(!spc_dvipdfmx_check_special(b"dvipdfmx"));
    let mut a = arg("dvipdfmx:config on");
    assert_eq!(spc_dvipdfmx_setup_handler(&mut a), Some(DvipdfmxHandler::Config));
    assert_eq!(a.command, Some(b"config".to_vec()));
    assert_eq!(rest(&a), b"on");
    assert_eq!(spc_handler_null(&mut a), 0);
    assert_eq!(a.curptr, a.buf.len());
    let mut a = arg("dvipdfmx:");
    assert_eq!(spc_dvipdfmx_setup_handler(&mut a), None);
    let mut a = arg("dvipdfmx:other");
    assert_eq!(spc_dvipdfmx_setup_handler(&mut a), None);
    assert_eq!(a.command, None);
    assert_eq!(a.curptr, 14);
}

#[test]
fn command_reading() {
    let mut a = arg("  x:  gsave rest");
    assert_eq!(read_command(&mut a, b"x:"), Some(b"gsave".to_vec()));
    assert_eq!(rest(&a), b" rest");
    let mut a = arg("y:gsave");
    assert_eq!(read_command(&mut a, b"x:"), None);
    assert_eq!(a.curptr, 0);
}

#[test]
fn xtx_setup() {
    assert!(spc_xtx_check_special(b"x:gsave"));
    assert!(!spc_xtx_check_special(b"xx:gsave"));
    let mut a = arg("x:textcolor red");
    assert_eq!(spc_xtx_setup_handler(&mut a), Some(XtxHandler::UnsupportedColor));
    assert_eq!(a.command, Some(b"textcolor".to_vec()));
    assert_eq!(rest(&a), b"red");
    let mut a = arg("x: backgroundcolor 1 0 0");
    assert_eq!(spc_xtx_setup_handler(&mut a), Some(XtxHandler::BackgroundColor));
    let mut a = arg("x:clipoverlay all");
    assert_eq!(spc_xtx_setup_handler(&mut a), Some(XtxHandler::ClipOverlay));
    let mut a = arg("x:foo");
    assert_eq!(spc_xtx_setup_handler(&mut a), None);
    let mut a = arg("x:");
    assert_eq!(spc_xtx_setup_handler(&mut a), None);
}

#[test]
fn xtx_overlays() {
    let mut st = XtxState::new();
    let mut a = arg("x:clipoverlay page1");
    spc_xtx_setup_handler(&mut a);
    // No overlay named yet: the empty name matches everything.
    assert_eq!(spc_handler_xtx_clipoverlay(&st, &mut a), Some(false));
    let mut a = arg("x:initoverlay page1");
    spc_xtx_setup_handler(&mut a);
    assert_eq!(spc_handler_xtx_initoverlay(&mut st, &mut a), 0);
    assert_eq!(st.overlay_name, b"page1".to_vec());
    assert_eq!(a.curptr, a.buf.len());
    let mut a = arg("x:clipoverlay page1");
    spc_xtx_setup_handler(&mut a);
    assert_eq!(spc_handler_xtx_clipoverlay(&st, &mut a), Some(false));
    let mut a = arg("x:clipoverlay other");
    spc_xtx_setup_handler(&mut a);
    assert_eq!(spc_handler_xtx_clipoverlay(&st, &mut a), Some(true));
    let mut a = arg("x:clipoverlay all");
    spc_xtx_setup_handler(&mut a);
    assert_eq!(spc_handler_xtx_clipoverlay(&st, &mut a), Some(false));
    let mut a = arg("   ");
    assert_eq!(spc_handler_xtx_clipoverlay(&st, &mut a), None);
    let mut a = arg("  ");
    assert_eq!(spc_handler_xtx_initoverlay(&mut st, &mut a), -1);
    assert_eq!(st.overlay_name, b"page1".to_vec());
}

#[test]
fn xtx_fontmaps() {
    let mut a = arg(" -cmr10");
    assert_eq!(
        spc_handler_xtx_fontmapline(&mut a),
        FontmapLineRequest::Remove { name: b"cmr10".to_vec() }
    );
    assert_eq!(a.curptr, a.buf.len());
    let mut a = arg("+cmr10 CMR10 <cmr10.pfb");
    assert_eq!(
        spc_handler_xtx_fontmapline(&mut a),
        FontmapLineRequest::Add { append: true, line: b"cmr10 CMR10 <cmr10.pfb".to_vec() }
    );
    let mut a = arg("cmr10 CMR10");
    assert_eq!(
        spc_handler_xtx_fontmapline(&mut a),
        FontmapLineRequest::Add { append: false, line: b"cmr10 CMR10".to_vec() }
    );
    let mut a = arg("  ");
    assert_eq!(spc_handler_xtx_fontmapline(&mut a), FontmapLineRequest::Empty);
    let mut a = arg("-");
    assert_eq!(spc_handler_xtx_fontmapline(&mut a), FontmapLineRequest::MissingName);
    let mut a = arg(" +my.map");
    assert_eq!(
        spc_handler_xtx_fontmapfile(&mut a),
        FontmapFileRequest::Load { name: b"my.map".to_vec(), mode: b'+' }
    );
    let mut a = arg("dir/base.map rest");
    assert_eq!(
        spc_handler_xtx_fontmapfile(&mut a),
        FontmapFileRequest::Load { name: b"dir/base.map".to_vec(), mode: 0 }
    );
    let mut a = arg(" ");
    assert_eq!(spc_handler_xtx_fontmapfile(&mut a), FontmapFileRequest::Nothing);
    let mut a = arg("+");
    assert_eq!(spc_handler_xtx_fontmapfile(&mut a), FontmapFileRequest::Missing);
}

#[test]
fn xtx_rendering_mode() {
    let mut a = arg(" abc");
    assert_eq!(spc_handler_xtx_renderingmode(2, &mut a), Some(b" 2 Tr abc".to_vec()));
    assert_eq!(a.curptr, a.buf.len());
    let mut a = arg("");
    assert_eq!(spc_handler_xtx_renderingmode(7, &mut a), Some(b" 7 Tr".to_vec()));
    let mut a = arg(" abc");
    assert_eq!(spc_handler_xtx_renderingmode(8, &mut a), None);
    assert_eq!(a.curptr, 0);
    assert_eq!(spc_handler_xtx_renderingmode(-1, &mut a), None);
    assert_eq!(spc_handler_xtx_unsupported(&mut a), 0);
    assert_eq!(a.curptr, a.buf.len());
}

#[test]
fn dvips_check_and_setup() {
    assert!(spc_dvips_check_special(b"ps: 0 0 moveto"));
    assert!(spc_dvips_check_special(b" header=a.pro"));
    assert!(spc_dvips_check_special(b"\" gsave"));
    assert!(!spc_dvips_check_special(b"foo"));
    assert!(!spc_dvips_check_special(b"   "));
    let mut a = arg("ps: plotfile a.ps");
    assert_eq!(spc_dvips_setup_handler(&mut a), Some(DvipsHandler::PlotFile));
    assert_eq!(a.command, Some(b"ps: plotfile ".to_vec()));
    assert_eq!(rest(&a), b"a.ps");
    let mut a = arg("ps::[begin] 1 2");
    assert_eq!(spc_dvips_setup_handler(&mut a), Some(DvipsHandler::Literal));
    assert_eq!(rest(&a), b":[begin] 1 2");
    let mut a = arg("\" gsave");
    assert_eq!(spc_dvips_setup_handler(&mut a), Some(DvipsHandler::Default));
    let mut a = arg("header=foo.pro");
    assert_eq!(spc_dvips_setup_handler(&mut a), Some(DvipsHandler::Header));
    assert_eq!(rest(&a), b"=foo.pro");
    let mut a = arg("PST:foo");
    assert_eq!(spc_dvips_setup_handler(&mut a), Some(DvipsHandler::TricksCmd));
    let mut a = arg("xyz:");
    assert_eq!(spc_dvips_setup_handler(&mut a), None);
    let mut a = arg("123");
    assert_eq!(spc_dvips_setup_handler(&mut a), None);
}

#[test]
fn dvips_headers() {
    let mut st = DvipsState::new();
    let mut a = arg(" =foo.pro");
    let name = spc_handler_ps_header(&mut a).unwrap();
    assert_eq!(name, b"foo.pro".to_vec());
    assert_eq!(st.add_header(name, &mut a), 0);
    assert_eq!(st.headers, vec![b"foo.pro".to_vec()]);
    assert_eq!(a.curptr, a.buf.len());
    let mut a = arg("=");
    assert_eq!(spc_handler_ps_header(&mut a), None);
    let mut a = arg("foo");
    assert_eq!(spc_handler_ps_header(&mut a), None);
    assert_eq!(spc_dvips_at_end_document(&mut st), 0);
    assert!(st.headers.is_empty());
}

#[test]
fn dvips_literal_blocks() {
    let mut st = DvipsState::new();
    let mut a = arg(":[begin] 1 2");
    assert_eq!(spc_handler_ps_literal(&mut st, &mut a), Some(LiteralPosition::CurrentRecorded));
    assert_eq!(st.block_pending, 1);
    assert!(st.position_set);
    assert_eq!(rest(&a), b"1 2");
    let mut a = arg(":x");
    assert_eq!(spc_handler_ps_literal(&mut st, &mut a), Some(LiteralPosition::Pending));
    let mut a = arg(":[end]");
    assert_eq!(spc_handler_ps_literal(&mut st, &mut a), Some(LiteralPosition::Pending));
    assert_eq!(st.block_pending, 0);
    assert!(!st.position_set);
    let mut a = arg(":[end]");
    assert_eq!(spc_handler_ps_literal(&mut st, &mut a), None);
    assert_eq!(a.curptr, 0);
    let mut a = arg(":x");
    assert_eq!(spc_handler_ps_literal(&mut st, &mut a), Some(LiteralPosition::Current));
    let mut a = arg("x");
    assert_eq!(spc_handler_ps_literal(&mut st, &mut a), Some(LiteralPosition::CurrentRecorded));
    assert!(st.position_set);
}

#[test]
fn dvips_file_names() {
    let s = b"\"a b.eps\" rest";
    assert_eq!(parse_filename(s, 0, s.len()), (Some(b"a b.eps".to_vec()), 9));
    let s = b"a.eps rest";
    assert_eq!(parse_filename(s, 0, s.len()), (Some(b"a.eps".to_vec()), 5));
    assert_eq!(parse_filename(b"'x", 0, 2), (None, 0));
    assert_eq!(parse_filename(b"", 0, 0), (None, 0));
    assert_eq!(parse_filename(b"\"\"", 0, 2), (None, 0));
    let mut a = arg(" \"a.eps\" hscale=50 clip");
    match spc_handler_ps_file(&mut arg(" =\"a.eps\" hscale=50 clip")) {
        PsFileRead::Image { name, dim } => {
            assert_eq!(name, b"a.eps".to_vec());
            assert_eq!(dim.items, vec![(4u8, b"50".to_vec())]);
            assert_eq!(dim.flags, 8);
            assert!(dim.error.is_none());
        }
        other => panic!("image expected, got {:?}", other),
    }
    assert_eq!(spc_handler_ps_file(&mut a), PsFileRead::NoFilename);
    assert!(matches!(spc_handler_ps_file(&mut arg("=a.eps foo=1")), PsFileRead::BadSpec { .. }));
    let mut a = arg("  a.ps");
    assert_eq!(spc_handler_ps_plotfile(&mut a), Some(b"a.ps".to_vec()));
    let mut a = arg("PST:x");
    assert_eq!(spc_handler_ps_trickscmd(&mut a), -1);
    assert_eq!(a.curptr, a.buf.len());
    let mut a = arg("pst:x");
    assert_eq!(spc_handler_ps_tricksobj(&mut a), -1);
    assert_eq!(a.curptr, a.buf.len());
}

#[test]
fn misc_specials() {
    assert!(spc_misc_check_special(b"landscape"));
    assert!(spc_misc_check_special(b" src:12 foo.tex"));
    assert!(spc_misc_check_special(b"pos:x"));
    assert!(!spc_misc_check_special(b"other"));
    let mut a = arg("landscape");
    assert_eq!(spc_misc_setup_handler(&mut a), Some(MiscHandler::Null));
    assert_eq!(a.command, Some(b"landscape".to_vec()));
    let mut a = arg("postscriptbox{1pt}{2pt}{a.eps}");
    assert_eq!(spc_misc_setup_handler(&mut a), Some(MiscHandler::PostScriptBox));
    assert_eq!(spc_handler_postscriptbox(&a), Some(b"{1pt}{2pt}{a.eps}".to_vec()));
    let mut a = arg("src:123 x.tex");
    assert_eq!(spc_misc_setup_handler(&mut a), Some(MiscHandler::Null));
    assert_eq!(a.command, Some(b"src:".to_vec()));
    let mut a = arg("xyz");
    assert_eq!(spc_misc_setup_handler(&mut a), None);
    let a = arg("");
    assert_eq!(spc_handler_postscriptbox(&a), None);
}

#[test]
fn references_and_pages() {
    assert!(ispageref(b"page12"));
    assert!(!ispageref(b"page"));
    assert!(!ispageref(b"page1a"));
    assert!(!ispageref(b"Page1"));
    assert!(!ispageref(b"page0"));
    assert!(!ispageref(b"page000"));
    assert!(ispageref(b"page007"));
    assert_eq!(reference_kind(b"xpos", true), RefKind::Reserved(0));
    assert_eq!(reference_kind(b"docinfo", false), RefKind::Reserved(9));
    assert_eq!(reference_kind(b"page3", true), RefKind::PageRef);
    assert_eq!(reference_kind(b"page3", false), RefKind::Named);
    assert_eq!(reference_kind(b"foo", true), RefKind::Named);
}

#[test]
fn error_excerpts() {
    assert_eq!(error_excerpt(b"ab\x01c", 0, false), b"ab\\x01c".to_vec());
    let long = vec![b'a'; 100];
    let e = error_excerpt(&long, 0, true);
    assert_eq!(e.len(), 63);
    assert_eq!(&e[..60], &long[..60]);
    assert_eq!(&e[60..], b"...");
    let e = error_excerpt(&long, 0, false);
    assert_eq!(e, vec![b'a'; 63]);
    assert_eq!(error_excerpt(b"abc", 1, false), b"bc".to_vec());
}

#[test]
fn garbage_and_unknown() {
    let mut a = arg("abc");
    assert!(check_garbage(&mut a));
    let mut a = arg("   ");
    assert!(!check_garbage(&mut a));
    assert_eq!(a.curptr, 3);
    let mut a = arg("x");
    assert_eq!(spc_handler_unknown(&mut a), -1);
    assert!(!check_garbage(&mut a));
}

#[test]
fn exec_special_dispatches_to_the_first_module() {
    let (r, a) = spc_setup_special(b" x:gsave");
    assert_eq!(r, SpecialSetup::Ready(Special::Xtx, SpecialHandler::Xtx(XtxHandler::GSave)));
    assert_eq!(a.command, Some(b"gsave".to_vec()));
    let (r, _) = spc_setup_special(b"dvipdfmx:config on");
    assert_eq!(r, SpecialSetup::Ready(Special::Dvipdfmx, SpecialHandler::Dvipdfmx(DvipdfmxHandler::Config)));
    let (r, a) = spc_setup_special(b"ps: 1 0 moveto");
    assert_eq!(r, SpecialSetup::Ready(Special::Dvips, SpecialHandler::Dvips(DvipsHandler::Literal)));
    assert_eq!(rest(&a), b"1 0 moveto");
    let (r, _) = spc_setup_special(b"landscape");
    assert_eq!(r, SpecialSetup::Ready(Special::Misc, SpecialHandler::Misc(MiscHandler::Null)));
    let (r, _) = spc_setup_special(b"x:nosuchthing");
    assert_eq!(r, SpecialSetup::Failed(Special::Xtx));
    let (r, a) = spc_setup_special(b"pdf:bop");
    assert_eq!(r, SpecialSetup::Unclaimed);
    assert_eq!(a.curptr, 0);
    assert_eq!(a.command, None);
}

#[test]
fn dvips_page_and_document_starts_do_nothing() {
    assert_eq!(spc_dvips_at_begin_document(), 0);
    assert_eq!(spc_dvips_at_begin_page(), 0);
}

#[test]
fn xtx_transformation_numbers() {
    let mut a = arg(" 2 0.5 rest");
    assert_eq!(spc_handler_xtx_scale(&mut a), Some(vec![b"2".to_vec(), b"0.5".to_vec()]));
    assert_eq!(a.curptr, a.buf.len());
    let mut a = arg(" 2");
    assert_eq!(spc_handler_xtx_scale(&mut a), None);
    assert_eq!(a.curptr, 2);
    let mut a = arg("-90");
    assert_eq!(spc_handler_xtx_rotate(&mut a), Some(vec![b"-90".to_vec()]));
    let mut a = arg("abc");
    assert_eq!(spc_handler_xtx_rotate(&mut a), None);
    assert_eq!(spc_handler_xtx_papersize(), 0);
}

#[test]
fn xtx_background_color() {
    let mut a = arg(" 0 0 1");
    let (r, c) = spc_handler_xtx_backgroundcolor(&mut a);
    assert_eq!(r, 1);
    assert!(c.is_some());
    let mut a = arg("   ");
    assert_eq!(spc_handler_xtx_backgroundcolor(&mut a), (-1, None));
}
