use tectonic::font_mgr::{
    FontStyleInfo, Os2Style, XeTeXFontMgrNameCollection, XeTeXFontMgrOpSizeRec,
    XeTeXFontMgr_base_getOpSizeRecAndStyleFlags,
};
use tectonic::font_mgr_fc::{
    PlatformFont, XeTeXFontMgr_FC, XeTeXFontMgr_FC_cacheFamilyMembers,
    XeTeXFontMgr_FC_searchForHostPlatformFonts, XeTeXFontMgr_findFont,
};

fn v(s: &str) -> Vec<u8> {
    s.as_bytes().to_vec()
}

fn vs(ls: &[&str]) -> Vec<Vec<u8>> {
    ls.iter().map(|l| v(l)).collect()
}

fn style(weight: u16, slant: i16, reg: bool, bold: bool, ital: bool, design: u32) -> FontStyleInfo {
    let mut s = FontStyleInfo::new();
    s.weight = weight;
    s.width = 5;
    s.slant = slant;
    s.isReg = reg;
    s.isBold = bold;
    s.isItalic = ital;
    s.opSizeInfo.designSize = design;
    s
}

fn font(r: u64, ps: &str, fam: &str, sty: &str, info: FontStyleInfo) -> PlatformFont {
    let full = format!("{} {}", fam, sty);
    PlatformFont {
        fontRef: r,
        fullnames: vs(&[&full]),
        families: vs(&[fam]),
        styles: vs(&[sty]),
        names: XeTeXFontMgrNameCollection {
            m_familyNames: vs(&[fam]),
            m_styleNames: vs(&[sty]),
            m_fullNames: vs(&[&full]),
            m_psName: v(ps),
            m_subFamily: Vec::new(),
        },
        info,
    }
}

fn database() -> Vec<PlatformFont> {
    vec![
        font(10, "Foo-Regular", "Foo", "Regular", style(400, 0, true, false, false, 120)),
        font(11, "Foo-Bold", "Foo", "Bold", style(700, 0, false, true, false, 0)),
        font(12, "Bar-Regular", "Bar", "Regular", style(400, 0, true, false, false, 100)),
        font(13, "Foo-Italic", "Foo", "Italic", style(400, -200, false, false, true, 0)),
    ]
}

#[test]
fn search_adds_the_matching_font_and_its_family() {
    let mut fc = XeTeXFontMgr_FC::new(database());
    XeTeXFontMgr_FC_searchForHostPlatformFonts(&mut fc, b"Foo Bold");
    assert!(!fc.cachedAll);
    let refs: Vec<u64> = fc.super_.fonts.iter().map(|f| f.fontRef).collect();
    // The matching font first, then the other members of its family in database order.
    assert_eq!(refs, vec![11, 10, 13]);
    assert_eq!(fc.super_.families.len(), 1);
}

#[test]
fn search_without_match_adds_everything() {
    let mut fc = XeTeXFontMgr_FC::new(database());
    XeTeXFontMgr_FC_searchForHostPlatformFonts(&mut fc, b"Nothing");
    assert!(fc.cachedAll);
    assert_eq!(fc.super_.fonts.len(), 4);
    // A later search does nothing.
    XeTeXFontMgr_FC_searchForHostPlatformFonts(&mut fc, b"Foo");
    assert_eq!(fc.super_.fonts.len(), 4);
}

#[test]
fn cache_family_members_adds_only_members() {
    let mut fc = XeTeXFontMgr_FC::new(database());
    XeTeXFontMgr_FC_cacheFamilyMembers(&mut fc, &vs(&["Bar"]));
    let refs: Vec<u64> = fc.super_.fonts.iter().map(|f| f.fontRef).collect();
    assert_eq!(refs, vec![12]);
    XeTeXFontMgr_FC_cacheFamilyMembers(&mut fc, &Vec::new());
    assert_eq!(fc.super_.fonts.len(), 1);
}

#[test]
fn find_font_searches_then_applies_variant() {
    let mut fc = XeTeXFontMgr_FC::new(database());
    let r = XeTeXFontMgr_findFont(&mut fc, b"Foo", b"B/OT").unwrap();
    let f = &fc.super_.fonts[r.font];
    assert_eq!(f.fontRef, 11);
    // Found by family name: the design size is not the font's own.
    assert_eq!(r.designSize, 100);
    assert_eq!(r.request.variant, v("OT"));
    assert_eq!(fc.super_.reqEngine, b'O');
    let r = XeTeXFontMgr_findFont(&mut fc, b"Foo Regular", b"").unwrap();
    assert_eq!(fc.super_.fonts[r.font].fontRef, 10);
    assert_eq!(r.designSize, 120);
    assert_eq!(fc.super_.reqEngine, 0);
    let r = XeTeXFontMgr_findFont(&mut fc, b"Foo-Italic", b"").unwrap();
    assert_eq!(fc.super_.fonts[r.font].fontRef, 13);
    assert_eq!(r.designSize, 100);
}

#[test]
fn find_font_fails_for_unknown_names() {
    let mut fc = XeTeXFontMgr_FC::new(database());
    fc.super_.reqEngine = b'G';
    assert!(XeTeXFontMgr_findFont(&mut fc, b"Nothing", b"AAT").is_none());
    assert!(fc.cachedAll);
    assert_eq!(fc.super_.fonts.len(), 4);
    // The engine asked for before stays.
    assert_eq!(fc.super_.reqEngine, b'G');
}

#[test]
fn style_from_font_tables() {
    let base = FontStyleInfo::new();
    assert_eq!(base.opSizeInfo.designSize, 100);
    let size = XeTeXFontMgrOpSizeRec { designSize: 110, subFamilyID: 0, nameCode: 0, minSize: 0, maxSize: 0 };
    let os2 = Os2Style { usWeightClass: 700, usWidthClass: 5, fsSelection: 0x20 | 0x01 };
    let r = XeTeXFontMgr_base_getOpSizeRecAndStyleFlags(base, Some(size), Some(os2), None, Some(-212));
    assert_eq!(r.opSizeInfo, XeTeXFontMgrOpSizeRec { designSize: 110, ..base.opSizeInfo });
    assert_eq!((r.weight, r.width, r.slant), (700, 5, -212));
    assert!(r.isBold && r.isItalic && !r.isReg);
    let ranged = XeTeXFontMgrOpSizeRec { designSize: 100, subFamilyID: 3, nameCode: 256, minSize: 80, maxSize: 140 };
    let os2 = Os2Style { usWeightClass: 400, usWidthClass: 5, fsSelection: 0x40 };
    let r = XeTeXFontMgr_base_getOpSizeRecAndStyleFlags(base, Some(ranged), Some(os2), Some(2), None);
    assert_eq!(r.opSizeInfo, ranged);
    assert!(r.isReg && !r.isBold && r.isItalic);
    assert_eq!(XeTeXFontMgr_base_getOpSizeRecAndStyleFlags(base, None, None, None, None), base);
}

#[test]
fn search_keeps_what_was_known() {
    let mut fc = XeTeXFontMgr_FC::new(database());
    XeTeXFontMgr_FC_searchForHostPlatformFonts(&mut fc, b"Bar");
    let before: Vec<u64> = fc.super_.fonts.iter().map(|f| f.fontRef).collect();
    assert_eq!(before, vec![12]);
    assert_eq!(tectonic::font_mgr::find_font_in_caches(&fc.super_, b"Bar"), Some((0, false)));
    XeTeXFontMgr_FC_searchForHostPlatformFonts(&mut fc, b"Foo Italic");
    assert!(fc.super_.m_platformRefToFont.iter().any(|e| e.0 == 12));
    assert_eq!(tectonic::font_mgr::find_font_in_caches(&fc.super_, b"Bar"), Some((0, false)));
    assert!(tectonic::font_mgr::find_font_in_caches(&fc.super_, b"Foo Italic").is_some());
}

#[test]
fn failed_search_adds_every_font_it_can() {
    let mut db = database();
    // Same PostScript name as an earlier font, and no PostScript name at all.
    db.push(font(20, "Foo-Regular", "Dup", "Regular", style(400, 0, true, false, false, 0)));
    db.push(font(21, "", "Anon", "Regular", style(400, 0, true, false, false, 0)));
    let mut fc = XeTeXFontMgr_FC::new(db);
    XeTeXFontMgr_FC_searchForHostPlatformFonts(&mut fc, b"Missing");
    assert!(fc.cachedAll);
    let refs: Vec<u64> = fc.super_.fonts.iter().map(|f| f.fontRef).collect();
    assert_eq!(refs, vec![10, 11, 12, 13]);
}

#[test]
fn second_find_needs_no_search() {
    let mut fc = XeTeXFontMgr_FC::new(database());
    let a = XeTeXFontMgr_findFont(&mut fc, b"Bar Regular", b"").unwrap();
    let n = fc.super_.fonts.len();
    let b = XeTeXFontMgr_findFont(&mut fc, b"Bar Regular", b"").unwrap();
    assert_eq!(a.font, b.font);
    assert_eq!(fc.super_.fonts.len(), n);
    assert!(!fc.cachedAll);
}
