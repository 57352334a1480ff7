use tectonic::font_mgr::{
    FontNameSource, XeTeXFontMgr_FC_readNames,
    bytes_lt, design_size_fixed, find_font_in_caches, parse_variant, FontStyleInfo, SfntName,
    XeTeXFontMgr, XeTeXFontMgrNameCollection, XeTeXFontMgrOpSizeRec, XeTeXFontMgr_FC_getOpSizeRecAndStyleFlags,
    XeTeXFontMgr_FC_isFamilyMember, XeTeXFontMgr_FC_patternMatches, XeTeXFontMgr_FC_readNames_pattern,
    XeTeXFontMgr_FC_readNames_sfnt, XeTeXFontMgr_addToMaps, XeTeXFontMgr_appendToList,
    XeTeXFontMgr_applyVariant, XeTeXFontMgr_bestMatchFromFamily, XeTeXFontMgr_getFullName,
    XeTeXFontMgr_getReqEngine, XeTeXFontMgr_prependToList, XeTeXFontMgr_setReqEngine,
    XeTeXFontMgr_styleDiff, XeTeXFontMgr_weightAndWidthDiff,
};

fn v(s: &str) -> Vec<u8> {
    s.as_bytes().to_vec()
}

fn vs(ls: &[&str]) -> Vec<Vec<u8>> {
    ls.iter().map(|l| v(l)).collect()
}

fn op_size() -> XeTeXFontMgrOpSizeRec {
    XeTeXFontMgrOpSizeRec { designSize: 100, subFamilyID: 0, nameCode: 0, minSize: 0, maxSize: 0 }
}

fn style(weight: u16, slant: i16, reg: bool, bold: bool, ital: bool) -> FontStyleInfo {
    FontStyleInfo {
        opSizeInfo: op_size(),
        weight,
        width: 5,
        slant,
        isReg: reg,
        isBold: bold,
        isItalic: ital,
    }
}

fn names(ps: &str, full: &str, fam: &str, sty: &str) -> XeTeXFontMgrNameCollection {
    XeTeXFontMgrNameCollection {
        m_familyNames: vs(&[fam]),
        m_styleNames: vs(&[sty]),
        m_fullNames: vs(&[full]),
        m_psName: v(ps),
        m_subFamily: Vec::new(),
    }
}

/// Four faces of the family "Foo": Regular, Bold, Italic and Bold Italic.
fn foo_family() -> XeTeXFontMgr {
    let mut mgr = XeTeXFontMgr::new();
    XeTeXFontMgr_addToMaps(&mut mgr, 1, &names("Foo-Regular", "Foo Regular", "Foo", "Regular"), style(400, 0, true, false, false));
    XeTeXFontMgr_addToMaps(&mut mgr, 2, &names("Foo-Bold", "Foo Bold", "Foo", "Bold"), style(700, 0, false, true, false));
    XeTeXFontMgr_addToMaps(&mut mgr, 3, &names("Foo-Italic", "Foo Italic", "Foo", "Italic"), style(400, -200, false, false, true));
    XeTeXFontMgr_addToMaps(
        &mut mgr,
        4,
        &names("Foo-BoldItalic", "Foo Bold Italic", "Foo", "Bold Italic"),
        style(700, -200, false, true, true),
    );
    mgr
}

#[test]
fn add_to_maps_builds_one_family() {
    let mgr = foo_family();
    assert_eq!(mgr.fonts.len(), 4);
    assert_eq!(mgr.families.len(), 1);
    let fam = &mgr.families[0];
    let names: Vec<Vec<u8>> = fam.styles.iter().map(|s| s.0.clone()).collect();
    assert_eq!(names, vs(&["Bold", "Bold Italic", "Italic", "Regular"]));
    assert_eq!((fam.minWeight, fam.maxWeight), (400, 700));
    assert_eq!((fam.minSlant, fam.maxSlant), (-200, 0));
    for f in &mgr.fonts {
        assert_eq!(f.parent, Some(0));
    }
    assert_eq!(mgr.fonts[3].m_fullName, Some(v("Foo Bold Italic")));
}

#[test]
fn add_to_maps_ignores_known_fonts() {
    let mut mgr = foo_family();
    // Same platform font again.
    XeTeXFontMgr_addToMaps(&mut mgr, 1, &names("Other", "Other", "Other", "Regular"), style(400, 0, true, false, false));
    // Same PostScript name again.
    XeTeXFontMgr_addToMaps(&mut mgr, 9, &names("Foo-Bold", "X", "X", "Regular"), style(400, 0, true, false, false));
    // No PostScript name.
    XeTeXFontMgr_addToMaps(&mut mgr, 10, &names("", "Y", "Y", "Regular"), style(400, 0, true, false, false));
    assert_eq!(mgr.fonts.len(), 4);
    assert_eq!(mgr.families.len(), 1);
}

#[test]
fn add_to_maps_without_names_uses_ps_name_as_family() {
    let mut mgr = XeTeXFontMgr::new();
    let n = XeTeXFontMgrNameCollection {
        m_familyNames: Vec::new(),
        m_styleNames: Vec::new(),
        m_fullNames: Vec::new(),
        m_psName: v("Lone"),
        m_subFamily: Vec::new(),
    };
    XeTeXFontMgr_addToMaps(&mut mgr, 7, &n, style(400, 0, true, false, false));
    assert_eq!(mgr.fonts.len(), 1);
    assert_eq!(mgr.fonts[0].m_familyName, v("Lone"));
    assert_eq!(mgr.fonts[0].m_fullName, None);
    assert_eq!(mgr.fonts[0].parent, None);
    assert_eq!(XeTeXFontMgr_getFullName(&mgr, 7), v("Lone"));
    assert_eq!(find_font_in_caches(&mgr, b"Lone"), Some((0, true)));
}

#[test]
fn find_in_caches_by_each_kind_of_name() {
    let mgr = foo_family();
    assert_eq!(find_font_in_caches(&mgr, b"Foo Regular"), Some((0, true)));
    assert_eq!(find_font_in_caches(&mgr, b"Foo-Bold"), Some((1, true)));
    assert_eq!(find_font_in_caches(&mgr, b"Foo-Bold Italic"), Some((3, true)));
    assert_eq!(find_font_in_caches(&mgr, b"Foo-BoldItalic"), Some((3, true)));
    assert_eq!(find_font_in_caches(&mgr, b"Foo"), Some((0, false)));
    assert_eq!(find_font_in_caches(&mgr, b"Nope"), None);
    assert_eq!(find_font_in_caches(&mgr, b"Foo-"), None);
}

#[test]
fn family_without_regular_bit_uses_regular_name() {
    let mut mgr = XeTeXFontMgr::new();
    XeTeXFontMgr_addToMaps(&mut mgr, 1, &names("Bar-Roman", "Bar Roman", "Bar", "Roman"), style(400, 0, false, false, false));
    XeTeXFontMgr_addToMaps(&mut mgr, 2, &names("Bar-Heavy", "Bar Heavy", "Bar", "Heavy"), style(900, 0, false, true, false));
    assert_eq!(find_font_in_caches(&mgr, b"Bar"), Some((0, false)));
}

#[test]
fn family_without_regular_face_takes_nearest() {
    let mut mgr = XeTeXFontMgr::new();
    XeTeXFontMgr_addToMaps(&mut mgr, 1, &names("Baz-Heavy", "Baz Heavy", "Baz", "Heavy"), style(900, 0, false, true, false));
    XeTeXFontMgr_addToMaps(&mut mgr, 2, &names("Baz-Light", "Baz Light", "Baz", "Light"), style(200, 0, false, false, false));
    // Nearest to weight 80, width 100, slant 0: the lighter face.
    assert_eq!(find_font_in_caches(&mgr, b"Baz"), Some((1, false)));
}

#[test]
fn weight_and_width_difference() {
    let mgr = foo_family();
    assert_eq!(XeTeXFontMgr_weightAndWidthDiff(&mgr, 1, 0), 300);
    assert_eq!(XeTeXFontMgr_weightAndWidthDiff(&mgr, 0, 0), 0);
    let mut m2 = XeTeXFontMgr::new();
    let mut s = style(0, 0, true, false, false);
    s.width = 0;
    XeTeXFontMgr_addToMaps(&mut m2, 1, &names("A", "A", "A", "Regular"), s);
    XeTeXFontMgr_addToMaps(&mut m2, 2, &names("B", "B", "A", "Bold"), style(700, 0, false, true, false));
    assert_eq!(XeTeXFontMgr_weightAndWidthDiff(&m2, 0, 1), 10000);
    // Widths 5 and 0 differ by less than 10: counted 50 times.
    assert_eq!(XeTeXFontMgr_weightAndWidthDiff(&m2, 1, 0), 700 + 250);
}

#[test]
fn style_difference() {
    let mgr = foo_family();
    assert_eq!(XeTeXFontMgr_styleDiff(&mgr, 0, 400, 5, 0), 0);
    assert_eq!(XeTeXFontMgr_styleDiff(&mgr, 0, 700, 5, -200), 700);
    // Width difference under 10 is counted 200 times.
    assert_eq!(XeTeXFontMgr_styleDiff(&mgr, 0, 80, 100, 0), 320 + 95);
    assert_eq!(XeTeXFontMgr_styleDiff(&mgr, 0, 400, 7, 0), 400);
}

#[test]
fn best_match_from_family() {
    let mgr = foo_family();
    assert_eq!(XeTeXFontMgr_bestMatchFromFamily(&mgr, 0, 700, 5, -200), Some(3));
    assert_eq!(XeTeXFontMgr_bestMatchFromFamily(&mgr, 0, 400, 5, 0), Some(0));
    assert_eq!(XeTeXFontMgr_bestMatchFromFamily(&mgr, 0, 551, 5, 0), Some(1));
}

#[test]
fn apply_variant_bold_and_italic() {
    let mut mgr = foo_family();
    let (f, req) = XeTeXFontMgr_applyVariant(&mut mgr, 0, b"B");
    assert_eq!(f, 1);
    assert!(req.bold && !req.ital);
    let (f, _) = XeTeXFontMgr_applyVariant(&mut mgr, 0, b"I");
    assert_eq!(f, 2);
    let (f, _) = XeTeXFontMgr_applyVariant(&mut mgr, 0, b"BI");
    assert_eq!(f, 3);
    let (f, _) = XeTeXFontMgr_applyVariant(&mut mgr, 2, b"I");
    assert_eq!(f, 0);
    let (f, _) = XeTeXFontMgr_applyVariant(&mut mgr, 1, b"B");
    assert_eq!(f, 1);
}

#[test]
fn apply_variant_records_engine() {
    let mut mgr = foo_family();
    assert_eq!(XeTeXFontMgr_getReqEngine(&mgr), 0);
    let (f, req) = XeTeXFontMgr_applyVariant(&mut mgr, 0, b"AAT/S=12.5");
    assert_eq!(f, 0);
    assert_eq!(req.variant, v("AAT"));
    assert_eq!(req.engine, b'A');
    assert_eq!(req.size, Some((v("12"), v("5"))));
    assert_eq!(XeTeXFontMgr_getReqEngine(&mgr), b'A');
    XeTeXFontMgr_setReqEngine(&mut mgr, b'G');
    assert_eq!(XeTeXFontMgr_getReqEngine(&mgr), b'G');
}

#[test]
fn parse_variant_strings() {
    let r = parse_variant(b"ICU/GR/BI");
    assert_eq!(r.variant, v("OT/GR"));
    assert_eq!(r.engine, b'G');
    assert!(r.bold && r.ital);
    assert_eq!(r.size, None);
    let r = parse_variant(b"S12");
    assert_eq!(r.size, Some((v("12"), Vec::new())));
    assert_eq!(r.variant, Vec::<u8>::new());
    let r = parse_variant(b"OT");
    assert_eq!((r.variant, r.engine), (v("OT"), b'O'));
    let r = parse_variant(b"xyz/I");
    assert!(r.ital && !r.bold);
}

#[test]
fn design_size_as_fixed_point() {
    assert_eq!(design_size_fixed(100), 655360);
    assert_eq!(design_size_fixed(0), 0);
    assert_eq!(design_size_fixed(105), 688128);
}

#[test]
fn full_name_of_platform_font() {
    let mgr = foo_family();
    assert_eq!(XeTeXFontMgr_getFullName(&mgr, 2), v("Foo Bold"));
    assert_eq!(XeTeXFontMgr_getFullName(&mgr, 4), v("Foo Bold Italic"));
}

#[test]
fn append_and_prepend_to_list() {
    let mut l = vs(&["a", "b"]);
    XeTeXFontMgr_appendToList(&mut l, b"c");
    assert_eq!(l, vs(&["a", "b", "c"]));
    XeTeXFontMgr_appendToList(&mut l, b"a");
    assert_eq!(l, vs(&["a", "b", "c"]));
    XeTeXFontMgr_prependToList(&mut l, b"b");
    assert_eq!(l, vs(&["b", "a", "c"]));
    XeTeXFontMgr_prependToList(&mut l, b"z");
    assert_eq!(l, vs(&["z", "b", "a", "c"]));
}

fn rec(pid: u16, eid: u16, lid: u16, nid: u16, s: Option<&str>) -> SfntName {
    SfntName { platform_id: pid, encoding_id: eid, language_id: lid, name_id: nid, utf8: s.map(v) }
}

#[test]
fn read_names_from_sfnt_table() {
    let recs = vec![
        rec(3, 1, 0x409, 1, Some("Fam")),
        rec(3, 1, 0x409, 2, Some("Bold")),
        rec(3, 1, 0x409, 4, Some("Fam Bold")),
        rec(1, 0, 0, 4, Some("Mac Full")),
        rec(3, 1, 0x409, 4, Some("Fam Bold")),
        rec(2, 0, 0, 4, Some("Skipped")),
        rec(3, 1, 0x409, 6, Some("PSName")),
        rec(3, 1, 0x409, 1, None),
    ];
    let r = XeTeXFontMgr_FC_readNames_sfnt(b"Fam-Bold", &recs);
    assert_eq!(r.m_psName, v("Fam-Bold"));
    assert_eq!(r.m_fullNames, vs(&["Mac Full", "Fam Bold"]));
    assert_eq!(r.m_familyNames, vs(&["Fam"]));
    assert_eq!(r.m_styleNames, vs(&["Bold"]));
    assert!(r.m_subFamily.is_empty());
}

#[test]
fn typographic_names_take_precedence() {
    let recs = vec![
        rec(3, 1, 0x409, 1, Some("Fam Light")),
        rec(3, 1, 0x409, 2, Some("Regular")),
        rec(3, 1, 0x409, 16, Some("Fam")),
        rec(3, 1, 0x409, 17, Some("Light")),
    ];
    let r = XeTeXFontMgr_FC_readNames_sfnt(b"Fam-Light", &recs);
    assert_eq!(r.m_familyNames, vs(&["Fam"]));
    assert_eq!(r.m_styleNames, vs(&["Light"]));
    assert!(r.m_fullNames.is_empty());
}

#[test]
fn read_names_from_pattern() {
    let r = XeTeXFontMgr_FC_readNames_pattern(b"P", &Vec::new(), &vs(&["Fam", "Fam"]), &vs(&["Bold"]));
    assert_eq!(r.m_fullNames, vs(&["Fam Bold"]));
    assert_eq!(r.m_familyNames, vs(&["Fam"]));
    assert_eq!(r.m_styleNames, vs(&["Bold"]));
    let r = XeTeXFontMgr_FC_readNames_pattern(b"P", &Vec::new(), &vs(&["Fam"]), &Vec::new());
    assert_eq!(r.m_fullNames, vs(&["Fam"]));
    let r = XeTeXFontMgr_FC_readNames_pattern(b"P", &vs(&["Full", "Full"]), &vs(&["Fam"]), &Vec::new());
    assert_eq!(r.m_fullNames, vs(&["Full"]));
    let empty = XeTeXFontMgrNameCollection::new();
    assert!(empty.m_fullNames.is_empty() && empty.m_psName.is_empty());
}

#[test]
fn style_flags_from_font_database() {
    let base = style(0, 0, true, false, false);
    let mut b = base;
    b.width = 0;
    let r = XeTeXFontMgr_FC_getOpSizeRecAndStyleFlags(b, Some(200), Some(100), Some(-110));
    assert_eq!((r.weight, r.width, r.slant), (200, 100, -110));
    let r = XeTeXFontMgr_FC_getOpSizeRecAndStyleFlags(b, None, Some(100), None);
    assert_eq!((r.weight, r.width, r.slant), (0, 100, 0));
    let kept = style(400, 0, true, false, false);
    assert_eq!(XeTeXFontMgr_FC_getOpSizeRecAndStyleFlags(kept, Some(200), Some(100), Some(0)), kept);
}

#[test]
fn pattern_matches_names() {
    let full = vs(&["Foo Bold"]);
    let fam = vs(&["Foo"]);
    let sty = vs(&["Bold", "Italic"]);
    assert!(XeTeXFontMgr_FC_patternMatches(b"Foo Bold", &full, &fam, &sty));
    assert!(XeTeXFontMgr_FC_patternMatches(b"Foo", &full, &fam, &sty));
    assert!(XeTeXFontMgr_FC_patternMatches(b"Foo-Whatever", &full, &fam, &sty));
    assert!(XeTeXFontMgr_FC_patternMatches(b"Foo Italic", &full, &fam, &sty));
    assert!(!XeTeXFontMgr_FC_patternMatches(b"Foo Black", &full, &fam, &sty));
    assert!(!XeTeXFontMgr_FC_patternMatches(b"-Foo", &full, &fam, &sty));
    assert!(!XeTeXFontMgr_FC_patternMatches(b"Bar", &full, &fam, &sty));
}

#[test]
fn family_membership() {
    let wanted = vs(&["Foo", "Bar"]);
    assert!(XeTeXFontMgr_FC_isFamilyMember(&vs(&["Baz", "Bar"]), &wanted));
    assert!(!XeTeXFontMgr_FC_isFamilyMember(&vs(&["Baz"]), &wanted));
    assert!(!XeTeXFontMgr_FC_isFamilyMember(&Vec::new(), &wanted));
}

#[test]
fn byte_string_order() {
    assert!(bytes_lt(b"Bold", b"Bold Italic"));
    assert!(bytes_lt(b"Bold Italic", b"Italic"));
    assert!(!bytes_lt(b"Italic", b"Italic"));
    assert!(!bytes_lt(b"b", b"B"));
    assert!(bytes_lt(b"", b"a"));
}

#[test]
fn names_stay_found_as_fonts_are_added() {
    let mut mgr = XeTeXFontMgr::new();
    XeTeXFontMgr_addToMaps(&mut mgr, 1, &names("Foo-Regular", "Foo Regular", "Foo", "Regular"), style(400, 0, true, false, false));
    assert_eq!(find_font_in_caches(&mgr, b"Foo"), Some((0, false)));
    // A second face that also claims to be regular: the family now picks by style name.
    XeTeXFontMgr_addToMaps(&mut mgr, 2, &names("Foo-Plain", "Foo Plain", "Foo", "Plain"), style(400, 0, true, false, false));
    assert_eq!(find_font_in_caches(&mgr, b"Foo"), Some((0, false)));
    XeTeXFontMgr_addToMaps(&mut mgr, 3, &names("Foo-Bold", "Foo Regular", "Foo", "Bold"), style(700, 0, false, true, false));
    // The full name keeps the font it first named.
    assert_eq!(find_font_in_caches(&mgr, b"Foo Regular"), Some((0, true)));
    assert!(find_font_in_caches(&mgr, b"Foo-Plain").is_some());
}

#[test]
fn variant_keeps_only_engine_options() {
    let r = parse_variant(b"B/AAT/S=10/I/GR");
    assert_eq!(r.variant, v("AAT/GR"));
    assert_eq!(r.engine, b'G');
    assert!(r.bold && r.ital);
    assert_eq!(r.size, Some((v("10"), Vec::new())));
    let r = parse_variant(b"xyz");
    assert_eq!(r.variant, Vec::<u8>::new());
    assert_eq!(r.engine, 0);
}

#[test]
fn read_names_by_source() {
    let r = XeTeXFontMgr_FC_readNames(&FontNameSource::Unreadable);
    assert!(r.m_psName.is_empty() && r.m_fullNames.is_empty() && r.m_familyNames.is_empty());
    let r = XeTeXFontMgr_FC_readNames(&FontNameSource::Sfnt {
        psName: v("P"),
        records: vec![rec(3, 1, 0x409, 4, Some("Full"))],
    });
    assert_eq!(r.m_psName, v("P"));
    assert_eq!(r.m_fullNames, vs(&["Full"]));
    let r = XeTeXFontMgr_FC_readNames(&FontNameSource::Pattern {
        psName: v("Q"),
        fullnames: Vec::new(),
        families: vs(&["Fam"]),
        styles: vs(&["It"]),
    });
    assert_eq!(r.m_fullNames, vs(&["Fam It"]));
}
