use tectonic::agl::agl_suffix_to_otltag;
use tectonic::agl_list::{agl_get_unicodes, agl_split_lines, AglMap};
use tectonic::font_mgr::{
    FontStyleInfo, XeTeXFontMgr, XeTeXFontMgrNameCollection, XeTeXFontMgrOpSizeRec, XeTeXFontMgr_addToMaps,
};
use tectonic::specials::dvipdfmx::DvipdfmxHandler;
use tectonic::specials::dvips::{spc_dvips_setup_handler, DvipsHandler, LiteralPosition};
use tectonic::specials::misc::{postscriptbox_parts, spc_misc_setup_handler, MiscHandler};
use tectonic::specials::xtx::{spc_xtx_setup_handler, FontmapLineRequest, XtxHandler};
use tectonic::specials::{
    spc_arg, spc_exec_handler, spc_setup_special, spc_exec_special, HandlerOutcome, OutputWork, Special, SpecialHandler, SpecialSetup,
    SpecialsState,
};

fn special(s: &str) -> spc_arg {
    spc_arg::new(s.as_bytes().to_vec())
}

/// Sets the special up and runs its handler.
fn run(st: &mut SpecialsState, s: &str) -> HandlerOutcome {
    let (setup, mut a) = spc_setup_special(s.as_bytes());
    match setup {
        SpecialSetup::Ready(_, h) => spc_exec_handler(h, st, &mut a),
        other => panic!("no handler for {:?}: {:?}", s, other),
    }
}

#[test]
fn handler_results_of_plain_specials() {
    let mut st = SpecialsState::new();
    assert_eq!(run(&mut st, "dvipdfmx:config on"), HandlerOutcome::Done(0));
    assert_eq!(run(&mut st, "x:papersize 210mm,297mm"), HandlerOutcome::Done(0));
    assert_eq!(run(&mut st, "x:textcolor red"), HandlerOutcome::Done(0));
    assert_eq!(run(&mut st, "x:gsave"), HandlerOutcome::Output(OutputWork::GSave));
    assert_eq!(run(&mut st, "x:grestore"), HandlerOutcome::Output(OutputWork::GRestore));
    assert_eq!(run(&mut st, "landscape"), HandlerOutcome::Done(0));
    assert_eq!(run(&mut st, "PST:foo"), HandlerOutcome::Done(-1));
    assert_eq!(run(&mut st, "\" gsave"), HandlerOutcome::Output(OutputWork::PsDefault));
}

#[test]
fn handler_results_of_transformations() {
    let mut st = SpecialsState::new();
    assert_eq!(
        run(&mut st, "x:scale 2 3"),
        HandlerOutcome::Output(OutputWork::Scale(vec![b"2".to_vec(), b"3".to_vec()]))
    );
    assert_eq!(run(&mut st, "x:scale 2"), HandlerOutcome::Done(-1));
    assert_eq!(run(&mut st, "x:bscale 2"), HandlerOutcome::Output(OutputWork::BScale(None)));
    assert_eq!(run(&mut st, "x:rotate 90"), HandlerOutcome::Output(OutputWork::Rotate(vec![b"90".to_vec()])));
    assert_eq!(run(&mut st, "x:escale"), HandlerOutcome::Output(OutputWork::EScale));
}

#[test]
fn handler_results_with_kept_state() {
    let mut st = SpecialsState::new();
    assert_eq!(run(&mut st, "x:initoverlay foo"), HandlerOutcome::Done(0));
    assert_eq!(st.xtx.overlay_name, b"foo".to_vec());
    assert_eq!(run(&mut st, "x:clipoverlay bar"), HandlerOutcome::Output(OutputWork::ClipOverlay(true)));
    assert_eq!(run(&mut st, "x:clipoverlay foo"), HandlerOutcome::Output(OutputWork::ClipOverlay(false)));
    assert_eq!(
        run(&mut st, "ps::[begin] 0 0 moveto"),
        HandlerOutcome::Output(OutputWork::Literal(LiteralPosition::CurrentRecorded))
    );
    assert_eq!(st.dvips.block_pending, 1);
    assert!(st.dvips.position_set);
    assert_eq!(run(&mut st, "ps::[end]"), HandlerOutcome::Output(OutputWork::Literal(LiteralPosition::Pending)));
    assert_eq!(st.dvips.block_pending, 0);
}

#[test]
fn handler_results_of_font_maps() {
    let mut st = SpecialsState::new();
    assert_eq!(run(&mut st, "x:fontmapfile "), HandlerOutcome::Done(0));
    assert_eq!(run(&mut st, "x:fontmapfile +"), HandlerOutcome::Done(-1));
    assert_eq!(
        run(&mut st, "x:fontmapfile +my.map"),
        HandlerOutcome::Output(OutputWork::FontMapFile { name: b"my.map".to_vec(), mode: b'+' })
    );
    assert_eq!(run(&mut st, "x:fontmapline -"), HandlerOutcome::Done(-1));
    assert_eq!(
        run(&mut st, "x:fontmapline -cmr10"),
        HandlerOutcome::Output(OutputWork::FontMapLine(FontmapLineRequest::Remove { name: b"cmr10".to_vec() }))
    );
    assert_eq!(run(&mut st, "x:shadow"), HandlerOutcome::Done(0));
    assert_eq!(run(&mut st, "header=foo.pro"), HandlerOutcome::Output(OutputWork::PsHeader(b"foo.pro".to_vec())));
    assert_eq!(run(&mut st, "header foo.pro"), HandlerOutcome::Done(-1));
}

#[test]
fn exec_special_sets_up_the_dvipdfmx_handler() {
    let (r, a) = spc_setup_special(b"dvipdfmx:config on");
    assert_eq!(r, SpecialSetup::Ready(Special::Dvipdfmx, SpecialHandler::Dvipdfmx(DvipdfmxHandler::Config)));
    assert_eq!(a.command, Some(b"config".to_vec()));
}

#[test]
fn setup_records_the_command_read() {
    let mut a = special("ps::[begin] 0 0 moveto");
    assert_eq!(spc_dvips_setup_handler(&mut a), Some(DvipsHandler::Literal));
    assert_eq!(a.command, Some(b"ps:".to_vec()));
    assert_eq!(a.curptr, 3);
    let mut a = special("header=x.pro");
    assert_eq!(spc_dvips_setup_handler(&mut a), Some(DvipsHandler::Header));
    assert_eq!(a.command, Some(b"header".to_vec()));
    let mut a = special("x:gsave");
    assert_eq!(spc_xtx_setup_handler(&mut a), Some(XtxHandler::GSave));
    assert_eq!(a.command, Some(b"gsave".to_vec()));
    let mut a = special("x:grestore");
    assert_eq!(spc_xtx_setup_handler(&mut a), Some(XtxHandler::GRestore));
    assert_eq!(a.command, Some(b"grestore".to_vec()));
    let mut a = special("landscape");
    assert_eq!(spc_misc_setup_handler(&mut a), Some(MiscHandler::Null));
    assert_eq!(a.command, Some(b"landscape".to_vec()));
}

#[test]
fn otl_tags_map_to_themselves() {
    for t in ["smcp", "swsh", "sups", "sinf", "numr", "dnom", "onum"] {
        assert_eq!(agl_suffix_to_otltag(t.as_bytes()), Some(t.as_bytes().to_vec()));
    }
    let t = agl_suffix_to_otltag(b"superior").unwrap();
    assert_eq!(agl_suffix_to_otltag(&t), Some(t.clone()));
}

#[test]
fn unicodes_concatenate_components_in_order() {
    let mut m = AglMap::new();
    let ls: Vec<Vec<u8>> = ["A;0041", "B;0042", "C;0043"].iter().map(|l| l.as_bytes().to_vec()).collect();
    m.agl_load_lines(&ls, 0);
    assert_eq!(agl_get_unicodes(&m, b"C_A_B", 3), Some(vec![0x43, 0x41, 0x42]));
    assert_eq!(agl_get_unicodes(&m, b"C_A_B", 2), None);
    assert_eq!(agl_get_unicodes(&m, b"uni00430041_B.alt", 8), Some(vec![0x43, 0x41, 0x42]));
    assert_eq!(agl_get_unicodes(&m, b"A__B", 8), None);
}

#[test]
fn family_ranges_stay_ordered() {
    let op = XeTeXFontMgrOpSizeRec { designSize: 100, subFamilyID: 0, nameCode: 0, minSize: 0, maxSize: 0 };
    let info = |w: u16, wd: u16, sl: i16| FontStyleInfo {
        opSizeInfo: op.clone(),
        weight: w,
        width: wd,
        slant: sl,
        isReg: false,
        isBold: false,
        isItalic: false,
    };
    let nm = |ps: &str, fams: &[&str]| XeTeXFontMgrNameCollection {
        m_familyNames: fams.iter().map(|f| f.as_bytes().to_vec()).collect(),
        m_styleNames: vec![ps.as_bytes().to_vec()],
        m_fullNames: vec![ps.as_bytes().to_vec()],
        m_psName: ps.as_bytes().to_vec(),
        m_subFamily: Vec::new(),
    };
    let mut mgr = XeTeXFontMgr::new();
    XeTeXFontMgr_addToMaps(&mut mgr, 1, &nm("A-Bold", &["A", "B"]), info(700, 5, 0));
    XeTeXFontMgr_addToMaps(&mut mgr, 2, &nm("A-Light", &["A"]), info(300, 3, -100));
    XeTeXFontMgr_addToMaps(&mut mgr, 3, &nm("B-Wide", &["B"]), info(500, 9, 50));
    assert_eq!(mgr.families.len(), 2);
    for f in &mgr.families {
        assert!(f.minWeight <= f.maxWeight && f.minWidth <= f.maxWidth && f.minSlant <= f.maxSlant);
    }
    let a = &mgr.families[0];
    assert_eq!((a.minWeight, a.maxWeight, a.minWidth, a.maxWidth, a.minSlant, a.maxSlant), (300, 700, 3, 5, -100, 0));
    let b = &mgr.families[1];
    assert_eq!((b.minWeight, b.maxWeight, b.minWidth, b.maxWidth, b.minSlant, b.maxSlant), (500, 700, 5, 9, 0, 50));
}

#[test]
fn run_special_gives_the_handler_result() {
    let mut st = SpecialsState::new();
    let (r, a) = spc_exec_special(b"x:initoverlay pg", &mut st);
    assert_eq!(r, HandlerOutcome::Done(0));
    assert_eq!(a.curptr, a.buf.len());
    assert_eq!(st.xtx.overlay_name, b"pg".to_vec());
    let (r, a) = spc_exec_special(b"pdf:bop", &mut st);
    assert_eq!(r, HandlerOutcome::Done(-1));
    assert_eq!(a.curptr, 0);
    let (r, _) = spc_exec_special(b"x:nosuchthing", &mut st);
    assert_eq!(r, HandlerOutcome::Done(-1));
    let (r, _) = spc_exec_special(b"x:scale 1 2", &mut st);
    assert_eq!(r, HandlerOutcome::Output(OutputWork::Scale(vec![b"1".to_vec(), b"2".to_vec()])));
}

#[test]
fn glyph_list_file_split_into_lines() {
    use_lines(b"a;0041\nb;0042\r\nc;0043\rd", &["a;0041", "b;0042", "c;0043", "d"]);
    use_lines(b"x\n\ny\n", &["x", "", "y"]);
    use_lines(b"", &[]);
    let long = vec![b'z'; 1030];
    let lines = agl_split_lines(&long);
    assert_eq!(lines.len(), 2);
    assert_eq!(lines[0].len(), 1023);
    assert_eq!(lines[1].len(), 7);
}

fn use_lines(data: &[u8], expected: &[&str]) {
    let got = agl_split_lines(data);
    let want: Vec<Vec<u8>> = expected.iter().map(|l| l.as_bytes().to_vec()).collect();
    assert_eq!(got, want);
}

#[test]
fn postscriptbox_texts() {
    assert_eq!(
        postscriptbox_parts(b"{10pt}{ 20.5pt}{pic.eps}"),
        Some((b"10".to_vec(), b"20.5".to_vec(), b"pic.eps".to_vec()))
    );
    assert_eq!(
        postscriptbox_parts(b"{-1.5e2pt}{3pt}{a b}rest"),
        Some((b"-1.5e2".to_vec(), b"3".to_vec(), b"a b".to_vec()))
    );
    assert_eq!(postscriptbox_parts(b"{10pt}{20pt}{}"), None);
    assert_eq!(postscriptbox_parts(b"{10}{20pt}{a}"), None);
    assert_eq!(postscriptbox_parts(b"10pt}{20pt}{a}"), None);
    let mut t = b"{1pt}{2pt}{".to_vec();
    t.extend(vec![b'n'; 300]);
    let (_, _, name) = postscriptbox_parts(&t).unwrap();
    assert_eq!(name.len(), 255);
}

#[test]
fn dispatch_goes_to_the_first_accepting_module() {
    let mut st = SpecialsState::new();
    // "x:" is taken by the x: module before any other.
    let (r, _) = spc_exec_special(b"  x:gsave", &mut st);
    assert_eq!(r, HandlerOutcome::Output(OutputWork::GSave));
    // No module: -1, nothing read.
    let (r, a) = spc_exec_special(b"html:<a>", &mut st);
    assert_eq!(r, HandlerOutcome::Done(-1));
    assert_eq!(a.curptr, 0);
    // The module's setup fails: -1.
    let (r, _) = spc_exec_special(b"dvipdfmx:nothing", &mut st);
    assert_eq!(r, HandlerOutcome::Done(-1));
}

#[test]
fn postscriptbox_numbers_must_end_in_digits() {
    assert_eq!(postscriptbox_parts(b"{1ept}{2pt}{a}"), None);
    assert_eq!(postscriptbox_parts(b"{1e+pt}{2pt}{a}"), None);
    assert_eq!(postscriptbox_parts(b"{1.pt}{2e1pt}{a}"), Some((b"1.".to_vec(), b"2e1".to_vec(), b"a".to_vec())));
}
