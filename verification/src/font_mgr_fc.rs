use vstd::prelude::*;

use crate::font_mgr::{
    add_to_maps_spec, families_add, key_pos, lemma_add_to_maps_grows, lemma_add_to_maps_wf,
    lemma_families_add_wf, lemma_grows_refl, lemma_grows_trans, lemma_key_pos_prefix,
    lemma_lookup_monotone, mgr_grows, view_wf, with_new_font, empty_mgr_view, find_font_in_caches, find_in_caches_spec, has_ref, names_view,
    parse_variant_spec, pattern_matches_spec, ref_find, variant_font, FontStyleInfo, MgrView,
    VariantRequest, XeTeXFontMgr, XeTeXFontMgrNameCollection, XeTeXFontMgr_FC_isFamilyMember,
    XeTeXFontMgr_FC_patternMatches, XeTeXFontMgr_addToMaps, XeTeXFontMgr_applyVariant,
};

verus! {

/// A font of the platform's font database: its platform font, the full, family and style names
/// the database lists for it, the names read from the font itself, and its style.
#[allow(non_snake_case)]
pub struct PlatformFont {
    pub fontRef: u64,
    pub fullnames: Vec<Vec<u8>>,
    pub families: Vec<Vec<u8>>,
    pub styles: Vec<Vec<u8>>,
    pub names: XeTeXFontMgrNameCollection,
    pub info: FontStyleInfo,
}

/// The font manager over the platform's font database, and whether every font of the database
/// has been added to its maps.
#[allow(non_snake_case, non_camel_case_types)]
pub struct XeTeXFontMgr_FC {
    pub super_: XeTeXFontMgr,
    pub allFonts: Vec<PlatformFont>,
    pub cachedAll: bool,
}

impl XeTeXFontMgr_FC {
    /// The invariant of the manager it holds.
    pub open spec fn wf(&self) -> bool {
        self.super_.wf()
    }

    /// A manager over the database `allFonts` that knows no font yet.
    #[allow(non_snake_case)]
    pub fn new(allFonts: Vec<PlatformFont>) -> (r: XeTeXFontMgr_FC)
        ensures
            r.wf(),
            r.allFonts@ == allFonts@,
            !r.cachedAll,
            r.super_@ == empty_mgr_view(),
    {
        XeTeXFontMgr_FC { super_: XeTeXFontMgr::new(), allFonts, cachedAll: false }
    }
}

/// Adding a database font to the maps.
pub open spec fn add_platform_font(m: MgrView, p: PlatformFont) -> MgrView {
    add_to_maps_spec(m, p.fontRef, p.names@, p.info)
}

/// Whether a database font is in one of the families `fams`.
pub open spec fn in_families(p: PlatformFont, fams: Seq<Seq<u8>>) -> bool {
    exists|i: int| 0 <= i < p.families@.len() && fams.contains(#[trigger] p.families@[i]@)
}

/// Whether a database font answers `name` (see `pattern_matches_spec`).
pub open spec fn answers(p: PlatformFont, name: Seq<u8>) -> bool {
    pattern_matches_spec(name, names_view(p.fullnames@), names_view(p.families@), names_view(p.styles@))
}

/// The maps after the first `n` database fonts that are not known yet and belong to one of the
/// families `fams` have been added.
pub open spec fn cache_members_run(m: MgrView, fonts: Seq<PlatformFont>, fams: Seq<Seq<u8>>, n: int) -> MgrView
    decreases n,
{
    if n <= 0 {
        m
    } else {
        let m1 = cache_members_run(m, fonts, fams, n - 1);
        let p = fonts[n - 1];
        if !has_ref(m1.m_platformRefToFont, p.fontRef) && in_families(p, fams) {
            add_platform_font(m1, p)
        } else {
            m1
        }
    }
}

/// One search pass over the first `n` database fonts: each font not known yet that answers
/// `name` is added, followed by the other members of its families; with whether any was.
pub open spec fn search_run(m: MgrView, fonts: Seq<PlatformFont>, name: Seq<u8>, n: int) -> (MgrView, bool)
    decreases n,
{
    if n <= 0 {
        (m, false)
    } else {
        let (m1, found) = search_run(m, fonts, name, n - 1);
        let p = fonts[n - 1];
        if !has_ref(m1.m_platformRefToFont, p.fontRef) && answers(p, name) {
            let m2 = add_platform_font(m1, p);
            (cache_members_run(m2, fonts, p.names@.m_familyNames, fonts.len() as int), true)
        } else {
            (m1, found)
        }
    }
}

/// The maps after every one of the first `n` database fonts not known yet has been added.
pub open spec fn add_all_run(m: MgrView, fonts: Seq<PlatformFont>, n: int) -> MgrView
    decreases n,
{
    if n <= 0 {
        m
    } else {
        let m1 = add_all_run(m, fonts, n - 1);
        let p = fonts[n - 1];
        if !has_ref(m1.m_platformRefToFont, p.fontRef) {
            add_platform_font(m1, p)
        } else {
            m1
        }
    }
}

/// A search of the database for `name`: nothing once every font has been added; else a pass
/// adding the fonts that answer the name (and their families); when none does, every font is
/// added and that is recorded. The maps after it, and whether every font has been added.
pub open spec fn search_spec(m: MgrView, fonts: Seq<PlatformFont>, cached_all: bool, name: Seq<u8>) -> (MgrView, bool) {
    if cached_all {
        (m, true)
    } else {
        let (m1, found) = search_run(m, fonts, name, fonts.len() as int);
        if found {
            (m1, false)
        } else {
            (add_all_run(m1, fonts, fonts.len() as int), true)
        }
    }
}

fn cache_members(mgr: &mut XeTeXFontMgr, fonts: &Vec<PlatformFont>, fams: &Vec<Vec<u8>>)
    requires
        old(mgr).wf(),
    ensures
        final(mgr).wf(),
        final(mgr)@ == cache_members_run(old(mgr)@, fonts@, names_view(fams@), fonts@.len() as int),
{
    let ghost m0 = mgr@;
    let mut f: usize = 0;
    while f < fonts.len()
        invariant
            mgr.wf(),
            f <= fonts@.len(),
            mgr@ == cache_members_run(m0, fonts@, names_view(fams@), f as int),
        decreases fonts@.len() - f,
    {
        let p = &fonts[f];
        if !ref_find(&mgr.m_platformRefToFont, p.fontRef) && XeTeXFontMgr_FC_isFamilyMember(&p.families, fams) {
            XeTeXFontMgr_addToMaps(mgr, p.fontRef, &p.names, p.info);
        }
        f = f + 1;
    }
}

/// Adds to the maps every database font not known yet that belongs to one of the families
/// `familyNames` (see `cache_members_run`).
#[allow(non_snake_case)]
pub fn XeTeXFontMgr_FC_cacheFamilyMembers(fc: &mut XeTeXFontMgr_FC, familyNames: &Vec<Vec<u8>>)
    requires
        old(fc).wf(),
    ensures
        final(fc).wf(),
        final(fc).allFonts@ == old(fc).allFonts@,
        final(fc).cachedAll == old(fc).cachedAll,
        final(fc).super_@ == cache_members_run(
            old(fc).super_@,
            old(fc).allFonts@,
            names_view(familyNames@),
            old(fc).allFonts@.len() as int,
        ),
{
    cache_members(&mut fc.super_, &fc.allFonts, familyNames);
}

fn search_pass(mgr: &mut XeTeXFontMgr, fonts: &Vec<PlatformFont>, name: &[u8]) -> (found: bool)
    requires
        old(mgr).wf(),
    ensures
        final(mgr).wf(),
        (final(mgr)@, found) == search_run(old(mgr)@, fonts@, name@, fonts@.len() as int),
{
    let ghost m0 = mgr@;
    let mut found = false;
    let mut f: usize = 0;
    while f < fonts.len()
        invariant
            mgr.wf(),
            f <= fonts@.len(),
            (mgr@, found) == search_run(m0, fonts@, name@, f as int),
        decreases fonts@.len() - f,
    {
        let p = &fonts[f];
        if !ref_find(&mgr.m_platformRefToFont, p.fontRef) && XeTeXFontMgr_FC_patternMatches(
            name,
            &p.fullnames,
            &p.families,
            &p.styles,
        ) {
            XeTeXFontMgr_addToMaps(mgr, p.fontRef, &p.names, p.info);
            cache_members(mgr, fonts, &p.names.m_familyNames);
            found = true;
        }
        f = f + 1;
    }
    found
}

fn add_all_pass(mgr: &mut XeTeXFontMgr, fonts: &Vec<PlatformFont>)
    requires
        old(mgr).wf(),
    ensures
        final(mgr).wf(),
        final(mgr)@ == add_all_run(old(mgr)@, fonts@, fonts@.len() as int),
{
    let ghost m0 = mgr@;
    let mut f: usize = 0;
    while f < fonts.len()
        invariant
            mgr.wf(),
            f <= fonts@.len(),
            mgr@ == add_all_run(m0, fonts@, f as int),
        decreases fonts@.len() - f,
    {
        let p = &fonts[f];
        if !ref_find(&mgr.m_platformRefToFont, p.fontRef) {
            XeTeXFontMgr_addToMaps(mgr, p.fontRef, &p.names, p.info);
        }
        f = f + 1;
    }
}

/// Searches the database for `name` and adds what it finds to the maps (see `search_spec`).
#[allow(non_snake_case)]
pub fn XeTeXFontMgr_FC_searchForHostPlatformFonts(fc: &mut XeTeXFontMgr_FC, name: &[u8])
    requires
        old(fc).wf(),
    ensures
        final(fc).wf(),
        final(fc).allFonts@ == old(fc).allFonts@,
        (final(fc).super_@, final(fc).cachedAll) == search_spec(
            old(fc).super_@,
            old(fc).allFonts@,
            old(fc).cachedAll,
            name@,
        ),
{
    if fc.cachedAll {
        return;
    }
    let found = search_pass(&mut fc.super_, &fc.allFonts, name);
    if !found {
        fc.cachedAll = true;
        add_all_pass(&mut fc.super_, &fc.allFonts);
    }
}

/// The design size (in decipoints) that a font found by name brings: its own, when it was found
/// by a name of its own and has one; else 100.
pub open spec fn found_design_size(m: MgrView, f: usize, own: bool) -> u32 {
    if own && m.fonts[f as int].opSizeInfo.designSize != 0 {
        m.fonts[f as int].opSizeInfo.designSize
    } else {
        100
    }
}

/// Looking `name` up in the maps, and again after a search of the database when that fails:
/// the font with whether it was found by a name of its own, the maps after, and whether every
/// font of the database has been added.
pub open spec fn lookup_spec(m: MgrView, fonts: Seq<PlatformFont>, cached_all: bool, name: Seq<u8>) -> (
    Option<(usize, bool)>,
    MgrView,
    bool,
) {
    match find_in_caches_spec(m, name) {
        Some(x) => (Some(x), m, cached_all),
        None => {
            let (m1, c1) = search_spec(m, fonts, cached_all, name);
            (find_in_caches_spec(m1, name), m1, c1)
        },
    }
}

/// A font found by name: the font chosen after the variant was applied, the design size (in
/// decipoints) of the font the name gave, and what the variant asked for.
#[allow(non_snake_case)]
pub struct FoundFont {
    pub font: usize,
    pub designSize: u32,
    pub request: VariantRequest,
}

/// Finds the font that `name` with `variant` asks for (see `lookup_spec`, `variant_font` and
/// `found_design_size`); the engine the variant asks for is recorded when a font is found.
#[allow(non_snake_case)]
pub fn XeTeXFontMgr_findFont(fc: &mut XeTeXFontMgr_FC, name: &[u8], variant: &[u8]) -> (r: Option<FoundFont>)
    requires
        old(fc).wf(),
    ensures
        final(fc).wf(),
        final(fc).allFonts@ == old(fc).allFonts@,
        ({
            let (hit, m1, c1) = lookup_spec(old(fc).super_@, old(fc).allFonts@, old(fc).cachedAll, name@);
            &&& final(fc).cachedAll == c1
            &&& match hit {
                None => r is None && final(fc).super_@ == m1,
                Some((f, own)) => r matches Some(x) && {
                    let req = parse_variant_spec(variant@);
                    &&& x.request@ == req
                    &&& x.font == variant_font(m1, f, req)
                    &&& x.designSize == found_design_size(m1, f, own)
                    &&& final(fc).super_@ == (MgrView { reqEngine: req.engine, ..m1 })
                    &&& x.font < final(fc).super_.fonts@.len()
                },
            }
        }),
{
    let mut hit = find_font_in_caches(&fc.super_, name);
    if hit.is_none() {
        XeTeXFontMgr_FC_searchForHostPlatformFonts(fc, name);
        hit = find_font_in_caches(&fc.super_, name);
    }
    match hit {
        None => None,
        Some((f, own)) => {
            assert(fc.super_@.fonts[f as int] == fc.super_.fonts@[f as int]@);
            let d = fc.super_.fonts[f].opSizeInfo.designSize;
            let dsize: u32 = if own && d != 0 {
                d
            } else {
                100
            };
            let (g, req) = XeTeXFontMgr_applyVariant(&mut fc.super_, f, variant);
            Some(FoundFont { font: g, designSize: dsize, request: req })
        },
    }
}

proof fn lemma_cache_members_grows(m: MgrView, fonts: Seq<PlatformFont>, fams: Seq<Seq<u8>>, n: int)
    requires
        view_wf(m),
    ensures
        view_wf(cache_members_run(m, fonts, fams, n)),
        mgr_grows(m, cache_members_run(m, fonts, fams, n)),
    decreases n,
{
    if n <= 0 {
        lemma_grows_refl(m);
    } else {
        lemma_cache_members_grows(m, fonts, fams, n - 1);
        let m1 = cache_members_run(m, fonts, fams, n - 1);
        let p = fonts[n - 1];
        if !has_ref(m1.m_platformRefToFont, p.fontRef) && in_families(p, fams) {
            lemma_add_to_maps_wf(m1, p.fontRef, p.names@, p.info);
            lemma_add_to_maps_grows(m1, p.fontRef, p.names@, p.info);
            lemma_grows_trans(m, m1, add_platform_font(m1, p));
        }
    }
}

proof fn lemma_search_run_grows(m: MgrView, fonts: Seq<PlatformFont>, name: Seq<u8>, n: int)
    requires
        view_wf(m),
    ensures
        view_wf(search_run(m, fonts, name, n).0),
        mgr_grows(m, search_run(m, fonts, name, n).0),
    decreases n,
{
    if n <= 0 {
        lemma_grows_refl(m);
    } else {
        lemma_search_run_grows(m, fonts, name, n - 1);
        let m1 = search_run(m, fonts, name, n - 1).0;
        let p = fonts[n - 1];
        if !has_ref(m1.m_platformRefToFont, p.fontRef) && answers(p, name) {
            lemma_add_to_maps_wf(m1, p.fontRef, p.names@, p.info);
            lemma_add_to_maps_grows(m1, p.fontRef, p.names@, p.info);
            let m2 = add_platform_font(m1, p);
            lemma_grows_trans(m, m1, m2);
            lemma_cache_members_grows(m2, fonts, p.names@.m_familyNames, fonts.len() as int);
            lemma_grows_trans(m, m2, cache_members_run(m2, fonts, p.names@.m_familyNames, fonts.len() as int));
        }
    }
}

/// A database font is in the maps, or could not be added: its PostScript name is empty or
/// names a font there already.
pub open spec fn placed(m: MgrView, p: PlatformFont) -> bool {
    ||| has_ref(m.m_platformRefToFont, p.fontRef)
    ||| p.names@.m_psName.len() == 0
    ||| key_pos(m.m_psNameToFont, p.names@.m_psName) is Some
}

proof fn lemma_placed_grows(m: MgrView, m2: MgrView, p: PlatformFont)
    requires
        mgr_grows(m, m2),
        placed(m, p),
    ensures
        placed(m2, p),
{
    if has_ref(m.m_platformRefToFont, p.fontRef) {
        let i = choose|i: int| 0 <= i < m.m_platformRefToFont.len() && (#[trigger] m.m_platformRefToFont[i]).0 == p.fontRef;
        assert(m2.m_platformRefToFont[i] == m.m_platformRefToFont[i]);
    } else if key_pos(m.m_psNameToFont, p.names@.m_psName) is Some {
        lemma_key_pos_prefix(m.m_psNameToFont, m2.m_psNameToFont, p.names@.m_psName);
    }
}

proof fn lemma_add_places(m: MgrView, p: PlatformFont)
    requires
        view_wf(m),
    ensures
        placed(add_platform_font(m, p), p),
{
    let names = p.names@;
    if !(has_ref(m.m_platformRefToFont, p.fontRef) || names.m_psName.len() == 0 || key_pos(m.m_psNameToFont, names.m_psName) is Some) {
        let v = m.fonts.len() as usize;
        let m1 = with_new_font(m, p.fontRef, names, p.info);
        crate::font_mgr::lemma_new_font_wf(m, p.fontRef, names, p.info);
        lemma_families_add_wf(m1, v, names.m_familyNames, names.m_styleNames, names.m_familyNames.len() as int);
        let r = add_platform_font(m, p);
        let i = m.m_platformRefToFont.len() as int;
        assert(r.m_platformRefToFont[i].0 == p.fontRef);
    }
}

proof fn lemma_add_all_places(m: MgrView, fonts: Seq<PlatformFont>, n: int)
    requires
        view_wf(m),
        n <= fonts.len(),
    ensures
        view_wf(add_all_run(m, fonts, n)),
        mgr_grows(m, add_all_run(m, fonts, n)),
        forall|i: int| 0 <= i < n ==> placed(add_all_run(m, fonts, n), #[trigger] fonts[i]),
    decreases n,
{
    if n <= 0 {
        lemma_grows_refl(m);
    } else {
        lemma_add_all_places(m, fonts, n - 1);
        let m1 = add_all_run(m, fonts, n - 1);
        let p = fonts[n - 1];
        let m2 = add_all_run(m, fonts, n);
        if !has_ref(m1.m_platformRefToFont, p.fontRef) {
            lemma_add_to_maps_wf(m1, p.fontRef, p.names@, p.info);
            lemma_add_to_maps_grows(m1, p.fontRef, p.names@, p.info);
            lemma_add_places(m1, p);
        } else {
            lemma_grows_refl(m1);
        }
        lemma_grows_trans(m, m1, m2);
        assert forall|i: int| 0 <= i < n implies placed(m2, #[trigger] fonts[i]) by {
            if i < n - 1 {
                lemma_placed_grows(m1, m2, fonts[i]);
            }
        }
    }
}

/// A search keeps all that the maps held (see `mgr_grows`).
pub proof fn lemma_search_grows(m: MgrView, fonts: Seq<PlatformFont>, cached_all: bool, name: Seq<u8>)
    requires
        view_wf(m),
    ensures
        view_wf(search_spec(m, fonts, cached_all, name).0),
        mgr_grows(m, search_spec(m, fonts, cached_all, name).0),
{
    if cached_all {
        lemma_grows_refl(m);
    } else {
        lemma_search_run_grows(m, fonts, name, fonts.len() as int);
        let (m1, found) = search_run(m, fonts, name, fonts.len() as int);
        if !found {
            lemma_add_all_places(m1, fonts, fonts.len() as int);
            lemma_grows_trans(m, m1, add_all_run(m1, fonts, fonts.len() as int));
        }
    }
}

/// A search of the database forgets no platform font that the maps knew.
pub proof fn law_search_keeps_known_fonts(m: MgrView, fonts: Seq<PlatformFont>, cached_all: bool, name: Seq<u8>, r: u64)
    requires
        view_wf(m),
        has_ref(m.m_platformRefToFont, r),
    ensures
        has_ref(search_spec(m, fonts, cached_all, name).0.m_platformRefToFont, r),
{
    lemma_search_grows(m, fonts, cached_all, name);
    let m2 = search_spec(m, fonts, cached_all, name).0;
    let i = choose|i: int| 0 <= i < m.m_platformRefToFont.len() && (#[trigger] m.m_platformRefToFont[i]).0 == r;
    assert(m2.m_platformRefToFont[i] == m.m_platformRefToFont[i]);
}

/// A name that finds a font in the maps still finds one after any search of the database.
pub proof fn law_search_keeps_names_found(
    m: MgrView,
    fonts: Seq<PlatformFont>,
    cached_all: bool,
    name: Seq<u8>,
    other: Seq<u8>,
)
    requires
        view_wf(m),
        find_in_caches_spec(m, other) is Some,
    ensures
        find_in_caches_spec(search_spec(m, fonts, cached_all, name).0, other) is Some,
{
    lemma_search_grows(m, fonts, cached_all, name);
    lemma_lookup_monotone(m, search_spec(m, fonts, cached_all, name).0, other);
}

/// When a search finds nothing that answers the name, it adds the whole database: afterwards
/// every font of it is in the maps, unless its PostScript name is empty or names a font there
/// already.
pub proof fn law_failed_search_adds_every_font(m: MgrView, fonts: Seq<PlatformFont>, name: Seq<u8>, i: int)
    requires
        view_wf(m),
        search_spec(m, fonts, false, name).1,
        0 <= i < fonts.len(),
    ensures
        placed(search_spec(m, fonts, false, name).0, fonts[i]),
{
    lemma_search_run_grows(m, fonts, name, fonts.len() as int);
    let m1 = search_run(m, fonts, name, fonts.len() as int).0;
    lemma_add_all_places(m1, fonts, fonts.len() as int);
}

/// Looking a name up again after it was found gives the same font from the maps alone, with no
/// search and no change.
pub proof fn law_lookup_idempotent(m: MgrView, fonts: Seq<PlatformFont>, cached_all: bool, name: Seq<u8>)
    requires
        lookup_spec(m, fonts, cached_all, name).0 is Some,
    ensures
        ({
            let (hit, m1, c1) = lookup_spec(m, fonts, cached_all, name);
            lookup_spec(m1, fonts, c1, name) == (hit, m1, c1)
        }),
{
}

} // verus!
