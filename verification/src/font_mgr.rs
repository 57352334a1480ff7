use vstd::prelude::*;

verus! {

/// Byte strings in the order of C strings: byte by byte, a proper prefix first.
pub open spec fn lex_lt(a: Seq<u8>, b: Seq<u8>) -> bool
    decreases a.len(),
{
    if a.len() == 0 {
        b.len() > 0
    } else if b.len() == 0 {
        false
    } else if a[0] != b[0] {
        a[0] < b[0]
    } else {
        lex_lt(a.drop_first(), b.drop_first())
    }
}

pub proof fn lemma_lex_irreflexive(a: Seq<u8>)
    ensures
        !lex_lt(a, a),
    decreases a.len(),
{
    if a.len() > 0 {
        lemma_lex_irreflexive(a.drop_first());
    }
}

pub proof fn lemma_lex_transitive(a: Seq<u8>, b: Seq<u8>, c: Seq<u8>)
    requires
        lex_lt(a, b),
        lex_lt(b, c),
    ensures
        lex_lt(a, c),
    decreases a.len(),
{
    if a.len() > 0 && b.len() > 0 && c.len() > 0 && a[0] == b[0] && b[0] == c[0] {
        lemma_lex_transitive(a.drop_first(), b.drop_first(), c.drop_first());
    }
}

pub proof fn lemma_lex_total(a: Seq<u8>, b: Seq<u8>)
    ensures
        a == b || lex_lt(a, b) || lex_lt(b, a),
    decreases a.len(),
{
    if a.len() > 0 && b.len() > 0 && a[0] == b[0] {
        lemma_lex_total(a.drop_first(), b.drop_first());
        if a.drop_first() == b.drop_first() {
            assert(a =~= seq![a[0]] + a.drop_first());
            assert(b =~= seq![b[0]] + b.drop_first());
        }
    } else if a.len() == 0 && b.len() == 0 {
        assert(a =~= b);
    }
}

/// Whether `a` comes before `b` in the order of C strings.
pub fn bytes_lt(a: &[u8], b: &[u8]) -> (r: bool)
    ensures
        r == lex_lt(a@, b@),
{
    let mut i: usize = 0;
    assert(a@.subrange(0, a@.len() as int) =~= a@);
    assert(b@.subrange(0, b@.len() as int) =~= b@);
    while i < a.len() && i < b.len() && a[i] == b[i]
        invariant
            i <= a@.len(),
            i <= b@.len(),
            lex_lt(a@, b@) == lex_lt(a@.subrange(i as int, a@.len() as int), b@.subrange(i as int, b@.len() as int)),
        decreases a@.len() - i,
    {
        let ghost sa = a@.subrange(i as int, a@.len() as int);
        let ghost sb = b@.subrange(i as int, b@.len() as int);
        assert(sa.drop_first() =~= a@.subrange(i + 1, a@.len() as int));
        assert(sb.drop_first() =~= b@.subrange(i + 1, b@.len() as int));
        i = i + 1;
    }
    if i == a.len() {
        i < b.len()
    } else if i == b.len() {
        false
    } else {
        a[i] < b[i]
    }
}

/// The optical-size information of a font: design size, the sub-family it belongs to, the name
/// code, and the range of sizes (all in decipoints) that it suits.
#[allow(non_snake_case)]
#[derive(Clone, Copy, PartialEq, Eq, Structural, Debug)]
pub struct XeTeXFontMgrOpSizeRec {
    pub designSize: u32,
    pub subFamilyID: u32,
    pub nameCode: u32,
    pub minSize: u32,
    pub maxSize: u32,
}

/// What a font file says of its style: optical size, OS/2 weight and width, slant (in
/// thousandths), and the regular, bold and italic bits.
#[allow(non_snake_case)]
#[derive(Clone, Copy, PartialEq, Eq, Structural, Debug)]
pub struct FontStyleInfo {
    pub opSizeInfo: XeTeXFontMgrOpSizeRec,
    pub weight: u16,
    pub width: u16,
    pub slant: i16,
    pub isReg: bool,
    pub isBold: bool,
    pub isItalic: bool,
}

/// A font known to the font manager. `parent` is the index of its first family in the
/// manager's families; `fontRef` stands for the platform's font.
#[allow(non_snake_case)]
pub struct XeTeXFontMgrFont {
    pub m_fullName: Option<Vec<u8>>,
    pub m_psName: Vec<u8>,
    pub m_familyName: Vec<u8>,
    pub m_styleName: Vec<u8>,
    pub parent: Option<usize>,
    pub fontRef: u64,
    pub opSizeInfo: XeTeXFontMgrOpSizeRec,
    pub weight: u16,
    pub width: u16,
    pub slant: i16,
    pub isReg: bool,
    pub isBold: bool,
    pub isItalic: bool,
}

/// A family of fonts: its styles by name (in the order of their names), with the fonts they
/// name as indices into the manager's fonts, and the ranges of weight, width and slant of its
/// members.
#[allow(non_snake_case)]
pub struct XeTeXFontMgrFamily {
    pub styles: Vec<(Vec<u8>, usize)>,
    pub minWeight: u16,
    pub maxWeight: u16,
    pub minWidth: u16,
    pub maxWidth: u16,
    pub minSlant: i16,
    pub maxSlant: i16,
}

/// The names of a font: family, style and full names (each list without repeats, the
/// preferred first), its PostScript name and its sub-family.
#[allow(non_snake_case)]
#[derive(Debug, PartialEq)]
pub struct XeTeXFontMgrNameCollection {
    pub m_familyNames: Vec<Vec<u8>>,
    pub m_styleNames: Vec<Vec<u8>>,
    pub m_fullNames: Vec<Vec<u8>>,
    pub m_psName: Vec<u8>,
    pub m_subFamily: Vec<u8>,
}

impl XeTeXFontMgrNameCollection {
    /// No names.
    pub fn new() -> (r: XeTeXFontMgrNameCollection)
        ensures
            r.m_familyNames@.len() == 0,
            r.m_styleNames@.len() == 0,
            r.m_fullNames@.len() == 0,
            r.m_psName@.len() == 0,
            r.m_subFamily@.len() == 0,
    {
        XeTeXFontMgrNameCollection {
            m_familyNames: Vec::new(),
            m_styleNames: Vec::new(),
            m_fullNames: Vec::new(),
            m_psName: Vec::new(),
            m_subFamily: Vec::new(),
        }
    }
}

/// The font manager: the fonts and families it knows, and its indices by full name, family
/// name, platform font and PostScript name.
#[allow(non_snake_case)]
pub struct XeTeXFontMgr {
    pub fonts: Vec<XeTeXFontMgrFont>,
    pub families: Vec<XeTeXFontMgrFamily>,
    pub m_nameToFont: Vec<(Vec<u8>, usize)>,
    pub m_nameToFamily: Vec<(Vec<u8>, usize)>,
    pub m_platformRefToFont: Vec<(u64, usize)>,
    pub m_psNameToFont: Vec<(Vec<u8>, usize)>,
    pub reqEngine: u8,
}

/// The platform index: no platform font occurs twice, and every font index is in range.
pub open spec fn ref_index_wf(m: Seq<(u64, usize)>, n: int) -> bool {
    &&& forall|i: int, j: int| 0 <= i < m.len() && 0 <= j < m.len() && i != j ==> m[i].0 != m[j].0
    &&& forall|i: int| 0 <= i < m.len() ==> (#[trigger] m[i]).1 < n
}

/// No key of an index occurs twice.
pub open spec fn index_unique(m: Seq<(Seq<u8>, usize)>) -> bool {
    forall|i: int, j: int| 0 <= i < m.len() && 0 <= j < m.len() && i != j ==> m[i].0 != m[j].0
}

/// Every value of an index is below `n`.
pub open spec fn index_below(m: Seq<(Seq<u8>, usize)>, n: int) -> bool {
    forall|i: int| 0 <= i < m.len() ==> (#[trigger] m[i]).1 < n
}

/// The keys of a list of styles are in increasing order (so none occurs twice).
pub open spec fn index_sorted(m: Seq<(Seq<u8>, usize)>) -> bool {
    forall|i: int, j: int| 0 <= i < j < m.len() ==> lex_lt(#[trigger] m[i].0, #[trigger] m[j].0)
}

/// The manager's invariant: every index it holds is in range, the name indices hold each name
/// once, and each family keeps its styles in the order of their names.
pub open spec fn view_wf(m: MgrView) -> bool {
    let nf = m.fonts.len() as int;
    let nfam = m.families.len() as int;
    &&& index_unique(m.m_nameToFont) && index_below(m.m_nameToFont, nf)
    &&& index_unique(m.m_nameToFamily) && index_below(m.m_nameToFamily, nfam)
    &&& index_unique(m.m_psNameToFont) && index_below(m.m_psNameToFont, nf)
    &&& ref_index_wf(m.m_platformRefToFont, nf)
    &&& forall|f: int|
        0 <= f < nf ==> match (#[trigger] m.fonts[f]).parent {
            Some(p) => p < nfam,
            None => true,
        }
    &&& forall|k: int|
        0 <= k < nfam ==> index_sorted((#[trigger] m.families[k]).styles) && index_below(
            m.families[k].styles,
            nf,
        )
}

impl XeTeXFontMgr {
    /// The manager's invariant (see `view_wf`).
    pub open spec fn wf(&self) -> bool {
        view_wf(self@)
    }

    /// An empty manager.
    pub fn new() -> (r: XeTeXFontMgr)
        ensures
            r.wf(),
            r@ == empty_mgr_view(),
            r.fonts@.len() == 0,
            r.families@.len() == 0,
            r.m_nameToFont@.len() == 0,
            r.m_nameToFamily@.len() == 0,
            r.m_platformRefToFont@.len() == 0,
            r.m_psNameToFont@.len() == 0,
            r.reqEngine == 0,
    {
        let r = XeTeXFontMgr {
            fonts: Vec::new(),
            families: Vec::new(),
            m_nameToFont: Vec::new(),
            m_nameToFamily: Vec::new(),
            m_platformRefToFont: Vec::new(),
            m_psNameToFont: Vec::new(),
            reqEngine: 0,
        };
        assert(r@.fonts =~= Seq::empty());
        assert(r@.families =~= Seq::empty());
        assert(r@.m_nameToFont =~= Seq::empty());
        assert(r@.m_nameToFamily =~= Seq::empty());
        assert(r@.m_psNameToFont =~= Seq::empty());
        r
    }
}

/// A manager that knows no font.
pub open spec fn empty_mgr_view() -> MgrView {
    MgrView {
        fonts: Seq::empty(),
        families: Seq::empty(),
        m_nameToFont: Seq::empty(),
        m_nameToFamily: Seq::empty(),
        m_platformRefToFont: Seq::empty(),
        m_psNameToFont: Seq::empty(),
        reqEngine: 0,
    }
}

/// `|x|`.
pub open spec fn abs(x: int) -> int {
    if x < 0 {
        -x
    } else {
        x
    }
}

/// How far apart two fonts are in weight and width (a width difference under 10 counts 50
/// times); when `a` has neither weight nor width (no OS/2 table), 0 if the bold bits agree and
/// 10000 if not.
pub open spec fn waw_diff(a: FontView, b: FontView) -> int {
    if a.weight == 0 && a.width == 0 {
        if a.isBold == b.isBold {
            0
        } else {
            10000
        }
    } else {
        let w = abs(a.width - b.width);
        abs(a.weight - b.weight) + if w < 10 {
            w * 50
        } else {
            w
        }
    }
}

/// The difference of fonts `a` and `b` in weight and width (see `waw_diff`).
#[allow(non_snake_case)]
pub fn XeTeXFontMgr_weightAndWidthDiff(mgr: &XeTeXFontMgr, a: usize, b: usize) -> (r: i32)
    requires
        a < mgr.fonts@.len(),
        b < mgr.fonts@.len(),
    ensures
        r == waw_diff(mgr@.fonts[a as int], mgr@.fonts[b as int]),
{
    let fa = &mgr.fonts[a];
    let fb = &mgr.fonts[b];
    if fa.weight == 0 && fa.width == 0 {
        return if fa.isBold == fb.isBold {
            0
        } else {
            10000
        };
    }
    let mut w: i32 = if fa.width >= fb.width {
        (fa.width - fb.width) as i32
    } else {
        (fb.width - fa.width) as i32
    };
    if w < 10 {
        w = w * 50;
    }
    let g: i32 = if fa.weight >= fb.weight {
        (fa.weight - fb.weight) as i32
    } else {
        (fb.weight - fa.weight) as i32
    };
    g + w
}

/// Whether the style difference of `a` from (`wt`, `wd`) can be computed: the differences of
/// width and weight fit in an `i32`, that of width not the most negative one (whose absolute
/// value, taken back to an `i32`, would overflow when multiplied by 200). Outside this the
/// arithmetic overflows.
pub open spec fn style_diff_ok(a: FontView, wt: i32, wd: i32) -> bool {
    i32::MIN < a.width - wd <= i32::MAX && i32::MIN <= a.weight - wt <= i32::MAX
}

/// How far font `a` is from weight `wt`, width `wd` and slant `slant`: twice the difference of
/// the absolute slants, plus the weight difference, plus the width difference (counted 200
/// times when under 10); the sum taken as an `int`.
pub open spec fn style_diff(a: FontView, wt: i32, wd: i32, slant: i32) -> i32 {
    let w = abs(a.width - wd);
    (abs(abs(a.slant as int) - abs(slant as int)) * 2 + abs(a.weight - wt) + if w < 10 {
        w * 200
    } else {
        w
    }) as i32
}

/// The style difference of font `a` (see `style_diff`).
#[allow(non_snake_case)]
pub fn XeTeXFontMgr_styleDiff(mgr: &XeTeXFontMgr, a: usize, wt: i32, wd: i32, slant: i32) -> (r: i32)
    requires
        a < mgr.fonts@.len(),
        style_diff_ok(mgr@.fonts[a as int], wt, wd),
    ensures
        r == style_diff(mgr@.fonts[a as int], wt, wd, slant),
{
    let fa = &mgr.fonts[a];
    let dw: i32 = fa.width as i32 - wd;
    let mut w: i64 = if dw < 0 {
        -(dw as i64)
    } else {
        dw as i64
    };
    if w < 10 {
        w = w * 200;
    }
    let sa: i64 = if fa.slant < 0 {
        -(fa.slant as i64)
    } else {
        fa.slant as i64
    };
    let sb: i64 = if slant < 0 {
        -(slant as i64)
    } else {
        slant as i64
    };
    let ds: i64 = if sa >= sb {
        sa - sb
    } else {
        sb - sa
    };
    let dg: i32 = fa.weight as i32 - wt;
    let g: i64 = if dg < 0 {
        -(dg as i64)
    } else {
        dg as i64
    };
    let total: i64 = ds * 2 + g + w;
    #[verifier::truncate]
    (total as i32)
}

/// The index of the style, among the first `n` of `styles`, whose font is nearest to (`wt`,
/// `wd`, `slant`): the first of the nearest, in the order of the styles.
pub open spec fn best_style_index(
    fonts: Seq<FontView>,
    styles: Seq<(Seq<u8>, usize)>,
    n: int,
    wt: i32,
    wd: i32,
    slant: i32,
) -> Option<int>
    decreases n,
{
    if n <= 0 {
        None
    } else {
        match best_style_index(fonts, styles, n - 1, wt, wd, slant) {
            None => Some(n - 1),
            Some(j) => if style_diff(fonts[styles[n - 1].1 as int], wt, wd, slant) < style_diff(
                fonts[styles[j].1 as int],
                wt,
                wd,
                slant,
            ) {
                Some(n - 1)
            } else {
                Some(j)
            },
        }
    }
}

/// The fonts of a family's styles all admit the style difference from (`wt`, `wd`).
pub open spec fn family_diff_ok(m: MgrView, fam: int, wt: i32, wd: i32) -> bool {
    forall|i: int|
        0 <= i < m.families[fam].styles.len() ==> style_diff_ok(
            m.fonts[(#[trigger] m.families[fam].styles[i]).1 as int],
            wt,
            wd,
        )
}

/// The font of family `fam` nearest to weight `wt`, width `wd` and slant `slant` (see
/// `best_style_index` and `law_best_match_from_family`); `None` for a family without styles.
/// The differences must not overflow (`family_diff_ok`).
#[allow(non_snake_case)]
pub fn XeTeXFontMgr_bestMatchFromFamily(
    mgr: &XeTeXFontMgr,
    fam: usize,
    wt: i32,
    wd: i32,
    slant: i32,
) -> (r: Option<usize>)
    requires
        mgr.wf(),
        fam < mgr.families@.len(),
        family_diff_ok(mgr@, fam as int, wt, wd),
    ensures
        r == best_match_spec(mgr@, fam as int, wt, wd, slant),
        r matches Some(f) ==> f < mgr.fonts@.len(),
{
    let ghost st = mgr@.families[fam as int].styles;
    proof {
        lemma_wf_family(mgr, fam as int);
    }
    let styles = &mgr.families[fam].styles;
    assert(index_view(styles@) == st);
    let mut best: Option<usize> = None;
    let mut i: usize = 0;
    while i < styles.len()
        invariant
            mgr.wf(),
            fam < mgr.families@.len(),
            family_diff_ok(mgr@, fam as int, wt, wd),
            st == mgr@.families[fam as int].styles,
            index_view(styles@) == st,
            i <= st.len(),
            match best_style_index(mgr@.fonts, st, i as int, wt, wd, slant) {
                Some(j) => best == Some(j as usize) && 0 <= j < i,
                None => best is None,
            },
            forall|j: int| 0 <= j < st.len() ==> (#[trigger] st[j]).1 < mgr.fonts@.len(),
        decreases st.len() - i,
    {
        let f = styles[i].1;
        assert(f == st[i as int].1);
        assert(style_diff_ok(mgr@.fonts[st[i as int].1 as int], wt, wd));
        match best {
            None => {
                best = Some(i);
            },
            Some(j) => {
                let g = styles[j].1;
                assert(g == st[j as int].1);
                assert(style_diff_ok(mgr@.fonts[st[j as int].1 as int], wt, wd));
                if XeTeXFontMgr_styleDiff(mgr, f, wt, wd, slant) < XeTeXFontMgr_styleDiff(
                    mgr,
                    g,
                    wt,
                    wd,
                    slant,
                ) {
                    best = Some(i);
                }
            },
        }
        i = i + 1;
    }
    match best {
        Some(j) => Some(styles[j].1),
        None => None,
    }
}

/// The font of family `fam` nearest to (`wt`, `wd`, `slant`).
pub open spec fn best_match_spec(m: MgrView, fam: int, wt: i32, wd: i32, slant: i32) -> Option<usize> {
    let st = m.families[fam].styles;
    match best_style_index(m.fonts, st, st.len() as int, wt, wd, slant) {
        Some(i) => Some(st[i].1),
        None => None,
    }
}

/// The fonts of a family of a well-formed manager are fonts of the manager, and its styles are
/// in the order of their names.
pub proof fn lemma_wf_family(mgr: &XeTeXFontMgr, fam: int)
    requires
        mgr.wf(),
        0 <= fam < mgr.families@.len(),
    ensures
        forall|j: int|
            0 <= j < mgr@.families[fam].styles.len() ==> (#[trigger] mgr@.families[fam].styles[j]).1
                < mgr.fonts@.len(),
        index_sorted(mgr@.families[fam].styles),
        mgr@.families[fam].styles == index_view(mgr.families@[fam].styles@),
{
    let fv = mgr@.families[fam];
    assert(fv == mgr.families@[fam]@);
}

/// The nearest style is no farther than any style of the family, and nearer than every style
/// before it.
pub proof fn law_best_match_is_nearest(
    fonts: Seq<FontView>,
    styles: Seq<(Seq<u8>, usize)>,
    n: int,
    wt: i32,
    wd: i32,
    slant: i32,
)
    requires
        0 <= n <= styles.len(),
    ensures
        match best_style_index(fonts, styles, n, wt, wd, slant) {
            Some(b) => 0 <= b < n && (forall|j: int|
                0 <= j < n ==> style_diff(fonts[styles[b].1 as int], wt, wd, slant) <= style_diff(
                    fonts[#[trigger] styles[j].1 as int],
                    wt,
                    wd,
                    slant,
                )) && (forall|j: int|
                0 <= j < b ==> style_diff(fonts[styles[b].1 as int], wt, wd, slant) < style_diff(
                    fonts[#[trigger] styles[j].1 as int],
                    wt,
                    wd,
                    slant,
                )),
            None => n == 0,
        },
    decreases n,
{
    if n > 0 {
        law_best_match_is_nearest(fonts, styles, n - 1, wt, wd, slant);
    }
}

/// For every family and whatever weight, width and slant are asked for, the best match is
/// missing exactly when the family has no style; else it is the font of a style of the family
/// that is no farther than the font of any style, and nearer than the font of every style
/// before it (ties go to the first).
pub proof fn law_best_match_from_family(m: MgrView, fam: int, wt: i32, wd: i32, slant: i32)
    requires
        0 <= fam < m.families.len(),
    ensures
        best_match_spec(m, fam, wt, wd, slant) is None <==> m.families[fam].styles.len() == 0,
        best_match_spec(m, fam, wt, wd, slant) matches Some(f) ==> exists|b: int|
            0 <= b < m.families[fam].styles.len() && #[trigger] m.families[fam].styles[b].1 == f && (forall|j: int|
                0 <= j < m.families[fam].styles.len() ==> style_diff(m.fonts[f as int], wt, wd, slant) <= style_diff(
                    m.fonts[(#[trigger] m.families[fam].styles[j]).1 as int],
                    wt,
                    wd,
                    slant,
                )) && (forall|j: int|
                0 <= j < b ==> style_diff(m.fonts[f as int], wt, wd, slant) < style_diff(
                    m.fonts[(#[trigger] m.families[fam].styles[j]).1 as int],
                    wt,
                    wd,
                    slant,
                )),
{
    let st = m.families[fam].styles;
    law_best_match_is_nearest(m.fonts, st, st.len() as int, wt, wd, slant);
    match best_style_index(m.fonts, st, st.len() as int, wt, wd, slant) {
        Some(b) => {
            assert(m.families[fam].styles[b].1 == st[b].1);
        },
        None => {},
    }
}

/// The byte strings of a list of names.
pub open spec fn names_view(l: Seq<Vec<u8>>) -> Seq<Seq<u8>> {
    l.map_values(|x: Vec<u8>| x@)
}

/// No name occurs twice.
pub open spec fn no_dup(l: Seq<Seq<u8>>) -> bool {
    forall|i: int, j: int| 0 <= i < l.len() && 0 <= j < l.len() && i != j ==> l[i] != l[j]
}

/// The position of the first `x` in `l`.
pub open spec fn first_pos(l: Seq<Seq<u8>>, x: Seq<u8>) -> Option<int> {
    if exists|i: int| 0 <= i < l.len() && l[i] == x {
        Some(choose|i: int| 0 <= i < l.len() && l[i] == x && forall|j: int| 0 <= j < i ==> l[j] != x)
    } else {
        None
    }
}

/// `l` without its first `x`.
pub open spec fn without_first(l: Seq<Seq<u8>>, x: Seq<u8>) -> Seq<Seq<u8>> {
    match first_pos(l, x) {
        Some(i) => l.remove(i),
        None => l,
    }
}

proof fn lemma_least_index(l: Seq<Seq<u8>>, x: Seq<u8>, k: int)
    requires
        0 <= k < l.len(),
        l[k] == x,
    ensures
        exists|i: int| 0 <= i < l.len() && l[i] == x && forall|j: int| 0 <= j < i ==> l[j] != x,
    decreases k,
{
    if exists|j: int| 0 <= j < k && l[j] == x {
        let j = choose|j: int| 0 <= j < k && l[j] == x;
        lemma_least_index(l, x, j);
    } else {
        assert(forall|j: int| 0 <= j < k ==> l[j] != x);
    }
}

proof fn lemma_first_pos(l: Seq<Seq<u8>>, x: Seq<u8>)
    ensures
        match first_pos(l, x) {
            Some(i) => 0 <= i < l.len() && l[i] == x && forall|j: int| 0 <= j < i ==> l[j] != x,
            None => forall|j: int| 0 <= j < l.len() ==> l[j] != x,
        },
{
    if exists|i: int| 0 <= i < l.len() && l[i] == x {
        let k = choose|i: int| 0 <= i < l.len() && l[i] == x;
        lemma_least_index(l, x, k);
    }
}

fn find_name(list: &Vec<Vec<u8>>, x: &[u8]) -> (r: Option<usize>)
    ensures
        match r {
            Some(i) => first_pos(names_view(list@), x@) == Some(i as int),
            None => first_pos(names_view(list@), x@) is None,
        },
{
    let ghost l = names_view(list@);
    proof {
        lemma_first_pos(l, x@);
    }
    let mut i: usize = 0;
    while i < list.len()
        invariant
            l == names_view(list@),
            i <= list@.len(),
            forall|j: int| 0 <= j < i ==> l[j] != x@,
        decreases list@.len() - i,
    {
        if crate::text::bytes_eq(list[i].as_slice(), x) {
            assert(l[i as int] == x@);
            return Some(i);
        }
        i = i + 1;
    }
    None
}

/// Appends a name to a list unless it is already there.
#[allow(non_snake_case)]
pub fn XeTeXFontMgr_appendToList(list: &mut Vec<Vec<u8>>, s: &[u8])
    ensures
        names_view(final(list)@) == if names_view(old(list)@).contains(s@) {
            names_view(old(list)@)
        } else {
            names_view(old(list)@).push(s@)
        },
{
    let ghost l = names_view(list@);
    match find_name(list, s) {
        Some(i) => {
            proof {
                lemma_first_pos(l, s@);
            }
            assert(l[i as int] == s@);
        },
        None => {
            proof {
                lemma_first_pos(l, s@);
            }
            list.push(crate::text::slice_to_vec(s));
            assert(names_view(list@) =~= l.push(s@));
        },
    }
}

/// Puts a name first in a list, taking its first occurrence out of the rest.
#[allow(non_snake_case)]
pub fn XeTeXFontMgr_prependToList(list: &mut Vec<Vec<u8>>, s: &[u8])
    ensures
        names_view(final(list)@) == seq![s@] + without_first(names_view(old(list)@), s@),
{
    let ghost l = names_view(list@);
    proof {
        lemma_first_pos(l, s@);
    }
    match find_name(list, s) {
        Some(i) => {
            list.remove(i);
            assert(names_view(list@) =~= l.remove(i as int));
        },
        None => {},
    }
    list.insert(0, crate::text::slice_to_vec(s));
    assert(names_view(list@) =~= seq![s@] + without_first(l, s@));
}

/// Appending keeps a list free of repeats and leaves the name in it.
pub proof fn law_append_keeps_names_unique(l: Seq<Seq<u8>>, x: Seq<u8>)
    requires
        no_dup(l),
    ensures
        ({
            let r = if l.contains(x) { l } else { l.push(x) };
            no_dup(r) && r.contains(x) && forall|y: Seq<u8>| l.contains(y) ==> r.contains(y)
        }),
{
    if !l.contains(x) {
        let r = l.push(x);
        assert(r[l.len() as int] == x);
        assert forall|y: Seq<u8>| l.contains(y) implies r.contains(y) by {
            let k = choose|k: int| 0 <= k < l.len() && l[k] == y;
            assert(r[k] == y);
        }
    }
}

/// Prepending puts the name first, keeps a list free of repeats, and keeps its other names.
pub proof fn law_prepend_puts_name_first(l: Seq<Seq<u8>>, x: Seq<u8>)
    requires
        no_dup(l),
    ensures
        ({
            let r = seq![x] + without_first(l, x);
            &&& r[0] == x
            &&& no_dup(r)
            &&& forall|y: Seq<u8>| l.contains(y) ==> r.contains(y)
            &&& r.len() == if l.contains(x) { l.len() } else { l.len() + 1 }
        }),
{
    lemma_first_pos(l, x);
    let w = without_first(l, x);
    let r = seq![x] + w;
    match first_pos(l, x) {
        Some(i) => {
            assert forall|a: int| 0 <= a < w.len() implies w[a] != x by {
                if a < i {
                    assert(w[a] == l[a]);
                } else {
                    assert(w[a] == l[a + 1]);
                    assert(l[i] == x);
                }
            }
        },
        None => {},
    }
    assert forall|a: int, b: int| 0 <= a < r.len() && 0 <= b < r.len() && a != b implies r[a] != r[b] by {
        if a == 0 {
            assert(r[b] == w[b - 1]);
        } else if b == 0 {
            assert(r[a] == w[a - 1]);
        } else {
            match first_pos(l, x) {
                Some(i) => {
                    let aa = if a - 1 < i { a - 1 } else { a };
                    let bb = if b - 1 < i { b - 1 } else { b };
                    assert(r[a] == l[aa]);
                    assert(r[b] == l[bb]);
                },
                None => {},
            }
        }
    }
    assert forall|y: Seq<u8>| l.contains(y) implies r.contains(y) by {
        let k = choose|k: int| 0 <= k < l.len() && l[k] == y;
        if y == x {
            assert(r[0] == y);
        } else {
            match first_pos(l, x) {
                Some(i) => {
                    if k < i {
                        assert(r[k + 1] == y);
                    } else {
                        assert(k != i);
                        assert(r[k] == y);
                    }
                },
                None => {
                    assert(r[k + 1] == y);
                },
            }
        }
    }
    if l.contains(x) {
        let k = choose|k: int| 0 <= k < l.len() && l[k] == x;
        assert(first_pos(l, x) is Some);
    } else {
        assert(first_pos(l, x) is None);
    }
}

/// What a font record holds, as values.
#[allow(non_snake_case)]
pub struct FontView {
    pub m_fullName: Option<Seq<u8>>,
    pub m_psName: Seq<u8>,
    pub m_familyName: Seq<u8>,
    pub m_styleName: Seq<u8>,
    pub parent: Option<usize>,
    pub fontRef: u64,
    pub opSizeInfo: XeTeXFontMgrOpSizeRec,
    pub weight: u16,
    pub width: u16,
    pub slant: i16,
    pub isReg: bool,
    pub isBold: bool,
    pub isItalic: bool,
}

impl View for XeTeXFontMgrFont {
    type V = FontView;

    open spec fn view(&self) -> FontView {
        FontView {
            m_fullName: match self.m_fullName {
                Some(n) => Some(n@),
                None => None,
            },
            m_psName: self.m_psName@,
            m_familyName: self.m_familyName@,
            m_styleName: self.m_styleName@,
            parent: self.parent,
            fontRef: self.fontRef,
            opSizeInfo: self.opSizeInfo,
            weight: self.weight,
            width: self.width,
            slant: self.slant,
            isReg: self.isReg,
            isBold: self.isBold,
            isItalic: self.isItalic,
        }
    }
}

/// What a family record holds, as values.
#[allow(non_snake_case)]
pub struct FamilyView {
    pub styles: Seq<(Seq<u8>, usize)>,
    pub minWeight: u16,
    pub maxWeight: u16,
    pub minWidth: u16,
    pub maxWidth: u16,
    pub minSlant: i16,
    pub maxSlant: i16,
}

/// The entries of a name index, as values.
pub open spec fn index_view(m: Seq<(Vec<u8>, usize)>) -> Seq<(Seq<u8>, usize)> {
    m.map_values(|e: (Vec<u8>, usize)| (e.0@, e.1))
}

impl View for XeTeXFontMgrFamily {
    type V = FamilyView;

    open spec fn view(&self) -> FamilyView {
        FamilyView {
            styles: index_view(self.styles@),
            minWeight: self.minWeight,
            maxWeight: self.maxWeight,
            minWidth: self.minWidth,
            maxWidth: self.maxWidth,
            minSlant: self.minSlant,
            maxSlant: self.maxSlant,
        }
    }
}

/// What the font manager holds, as values.
#[allow(non_snake_case)]
pub struct MgrView {
    pub fonts: Seq<FontView>,
    pub families: Seq<FamilyView>,
    pub m_nameToFont: Seq<(Seq<u8>, usize)>,
    pub m_nameToFamily: Seq<(Seq<u8>, usize)>,
    pub m_platformRefToFont: Seq<(u64, usize)>,
    pub m_psNameToFont: Seq<(Seq<u8>, usize)>,
    pub reqEngine: u8,
}

impl View for XeTeXFontMgr {
    type V = MgrView;

    open spec fn view(&self) -> MgrView {
        MgrView {
            fonts: self.fonts@.map_values(|f: XeTeXFontMgrFont| f@),
            families: self.families@.map_values(|f: XeTeXFontMgrFamily| f@),
            m_nameToFont: index_view(self.m_nameToFont@),
            m_nameToFamily: index_view(self.m_nameToFamily@),
            m_platformRefToFont: self.m_platformRefToFont@,
            m_psNameToFont: index_view(self.m_psNameToFont@),
            reqEngine: self.reqEngine,
        }
    }
}

/// What a name collection holds, as values.
#[allow(non_snake_case)]
pub struct NamesView {
    pub m_familyNames: Seq<Seq<u8>>,
    pub m_styleNames: Seq<Seq<u8>>,
    pub m_fullNames: Seq<Seq<u8>>,
    pub m_psName: Seq<u8>,
    pub m_subFamily: Seq<u8>,
}

impl View for XeTeXFontMgrNameCollection {
    type V = NamesView;

    open spec fn view(&self) -> NamesView {
        NamesView {
            m_familyNames: names_view(self.m_familyNames@),
            m_styleNames: names_view(self.m_styleNames@),
            m_fullNames: names_view(self.m_fullNames@),
            m_psName: self.m_psName@,
            m_subFamily: self.m_subFamily@,
        }
    }
}

/// The position of the entry with key `k`, if any.
pub open spec fn key_pos(m: Seq<(Seq<u8>, usize)>, k: Seq<u8>) -> Option<int>
    decreases m.len(),
{
    if m.len() == 0 {
        None
    } else if m.last().0 == k {
        Some(m.len() - 1)
    } else {
        key_pos(m.drop_last(), k)
    }
}

pub proof fn lemma_key_pos(m: Seq<(Seq<u8>, usize)>, k: Seq<u8>)
    ensures
        match key_pos(m, k) {
            Some(i) => 0 <= i < m.len() && m[i].0 == k,
            None => forall|j: int| 0 <= j < m.len() ==> m[j].0 != k,
        },
    decreases m.len(),
{
    if m.len() > 0 && m.last().0 != k {
        lemma_key_pos(m.drop_last(), k);
        assert forall|j: int| 0 <= j < m.len() - 1 implies m[j] == m.drop_last()[j] by {}
    }
}

/// An index with the entry (`k`, `v`) added, unless `k` already has one.
pub open spec fn index_add(m: Seq<(Seq<u8>, usize)>, k: Seq<u8>, v: usize) -> Seq<(Seq<u8>, usize)> {
    if key_pos(m, k) is Some {
        m
    } else {
        m.push((k, v))
    }
}

/// The number of keys of `st` before `k` in the order of C strings: where `k` goes in a list
/// sorted by key.
pub open spec fn sorted_pos(st: Seq<(Seq<u8>, usize)>, k: Seq<u8>) -> int
    decreases st.len(),
{
    if st.len() == 0 {
        0
    } else if lex_lt(st[0].0, k) {
        1 + sorted_pos(st.drop_first(), k)
    } else {
        0
    }
}

/// A family's styles with style `k` naming font `v`, unless the family has that style already.
pub open spec fn style_add(st: Seq<(Seq<u8>, usize)>, k: Seq<u8>, v: usize) -> Seq<(Seq<u8>, usize)> {
    if key_pos(st, k) is Some {
        st
    } else {
        st.insert(sorted_pos(st, k), (k, v))
    }
}

/// The styles after adding the first `n` style names, each naming font `v`.
pub open spec fn styles_add(st: Seq<(Seq<u8>, usize)>, names: Seq<Seq<u8>>, v: usize, n: int) -> Seq<
    (Seq<u8>, usize),
>
    decreases n,
{
    if n <= 0 {
        st
    } else {
        style_add(styles_add(st, names, v, n - 1), names[n - 1], v)
    }
}

/// A family joined by font `f`: its ranges widened to take in the font's weight, width and
/// slant, and the style names added.
pub open spec fn family_join(fam: FamilyView, w: u16, wd: u16, sl: i16, styles: Seq<Seq<u8>>, v: usize) -> FamilyView {
    FamilyView {
        styles: styles_add(fam.styles, styles, v, styles.len() as int),
        minWeight: if w < fam.minWeight { w } else { fam.minWeight },
        maxWeight: if w > fam.maxWeight { w } else { fam.maxWeight },
        minWidth: if wd < fam.minWidth { wd } else { fam.minWidth },
        maxWidth: if wd > fam.maxWidth { wd } else { fam.maxWidth },
        minSlant: if sl < fam.minSlant { sl } else { fam.minSlant },
        maxSlant: if sl > fam.maxSlant { sl } else { fam.maxSlant },
    }
}

/// A new family whose one member so far is font `f`, with the style names added.
pub open spec fn family_new(w: u16, wd: u16, sl: i16, styles: Seq<Seq<u8>>, v: usize) -> FamilyView {
    FamilyView {
        styles: styles_add(Seq::empty(), styles, v, styles.len() as int),
        minWeight: w,
        maxWeight: w,
        minWidth: wd,
        maxWidth: wd,
        minSlant: sl,
        maxSlant: sl,
    }
}

/// Font `v` joins the family named `name` (made when there is none), with its style names;
/// the family becomes the font's parent if it has none yet.
pub open spec fn family_add(m: MgrView, v: usize, name: Seq<u8>, styles: Seq<Seq<u8>>) -> MgrView {
    let f = m.fonts[v as int];
    let (fams, idx, k) = match key_pos(m.m_nameToFamily, name) {
        Some(i) => {
            let k = m.m_nameToFamily[i].1;
            (m.families.update(k as int, family_join(m.families[k as int], f.weight, f.width, f.slant, styles, v)), m.m_nameToFamily, k)
        },
        None => {
            let k = m.families.len() as usize;
            (m.families.push(family_new(f.weight, f.width, f.slant, styles, v)), m.m_nameToFamily.push((name, k)), k)
        },
    };
    let f2 = if f.parent is None { FontView { parent: Some(k), ..f } } else { f };
    MgrView { fonts: m.fonts.update(v as int, f2), families: fams, m_nameToFamily: idx, ..m }
}

/// Font `v` joins the families of the first `n` family names.
pub open spec fn families_add(m: MgrView, v: usize, names: Seq<Seq<u8>>, styles: Seq<Seq<u8>>, n: int) -> MgrView
    decreases n,
{
    if n <= 0 {
        m
    } else {
        family_add(families_add(m, v, names, styles, n - 1), v, names[n - 1], styles)
    }
}

/// The first `n` full names index font `v`, where they do not index a font already.
pub open spec fn full_names_add(idx: Seq<(Seq<u8>, usize)>, names: Seq<Seq<u8>>, v: usize, n: int) -> Seq<(Seq<u8>, usize)>
    decreases n,
{
    if n <= 0 {
        idx
    } else {
        index_add(full_names_add(idx, names, v, n - 1), names[n - 1], v)
    }
}

/// Whether a platform font is indexed.
pub open spec fn has_ref(m: Seq<(u64, usize)>, r: u64) -> bool {
    exists|i: int| 0 <= i < m.len() && (#[trigger] m[i]).0 == r
}

/// The record of a new font for platform font `r` with names `names` and style `info`: its
/// full name is the first full name, its family name the first family name (else the
/// PostScript name), its style name the first style name (else empty).
pub open spec fn new_font_view(r: u64, names: NamesView, info: FontStyleInfo) -> FontView {
    FontView {
        m_fullName: if names.m_fullNames.len() > 0 { Some(names.m_fullNames[0]) } else { None },
        m_psName: names.m_psName,
        m_familyName: if names.m_familyNames.len() > 0 { names.m_familyNames[0] } else { names.m_psName },
        m_styleName: if names.m_styleNames.len() > 0 { names.m_styleNames[0] } else { Seq::empty() },
        parent: None,
        fontRef: r,
        opSizeInfo: info.opSizeInfo,
        weight: info.weight,
        width: info.width,
        slant: info.slant,
        isReg: info.isReg,
        isBold: info.isBold,
        isItalic: info.isItalic,
    }
}

/// The manager with the record of a new font for platform font `r`, indexed by its PostScript
/// name and its platform font.
pub open spec fn with_new_font(m: MgrView, r: u64, names: NamesView, info: FontStyleInfo) -> MgrView {
    let v = m.fonts.len() as usize;
    MgrView {
        fonts: m.fonts.push(new_font_view(r, names, info)),
        m_psNameToFont: m.m_psNameToFont.push((names.m_psName, v)),
        m_platformRefToFont: m.m_platformRefToFont.push((r, v)),
        ..m
    }
}

/// What adding platform font `r` with names `names` and style `info` does to the manager:
/// nothing when the platform font is known, the PostScript name is empty or already known;
/// else a new font is recorded and indexed by its PostScript name and platform font, joins
/// each of its families (with its style names), and is indexed by each of its full names that
/// indexes no font yet.
pub open spec fn add_to_maps_spec(m: MgrView, r: u64, names: NamesView, info: FontStyleInfo) -> MgrView {
    if has_ref(m.m_platformRefToFont, r) || names.m_psName.len() == 0 || key_pos(m.m_psNameToFont, names.m_psName) is Some {
        m
    } else {
        let v = m.fonts.len() as usize;
        let m1 = with_new_font(m, r, names, info);
        let m2 = families_add(m1, v, names.m_familyNames, names.m_styleNames, names.m_familyNames.len() as int);
        MgrView { m_nameToFont: full_names_add(m2.m_nameToFont, names.m_fullNames, v, names.m_fullNames.len() as int), ..m2 }
    }
}

fn index_find(m: &Vec<(Vec<u8>, usize)>, k: &[u8]) -> (r: Option<usize>)
    ensures
        match r {
            Some(i) => key_pos(index_view(m@), k@) == Some(i as int),
            None => key_pos(index_view(m@), k@) is None,
        },
{
    let ghost mv = index_view(m@);
    let mut i: usize = m.len();
    assert(mv.take(i as int) =~= mv);
    while i > 0
        invariant
            i <= m@.len(),
            mv == index_view(m@),
            key_pos(mv, k@) == key_pos(mv.take(i as int), k@),
        decreases i,
    {
        assert(mv.take(i as int).drop_last() =~= mv.take(i - 1));
        if crate::text::bytes_eq(m[i - 1].0.as_slice(), k) {
            return Some(i - 1);
        }
        i = i - 1;
    }
    None
}

pub(crate) fn ref_find(m: &Vec<(u64, usize)>, r: u64) -> (b: bool)
    ensures
        b == has_ref(m@, r),
{
    let mut i: usize = 0;
    while i < m.len()
        invariant
            i <= m@.len(),
            forall|j: int| 0 <= j < i ==> m@[j].0 != r,
        decreases m@.len() - i,
    {
        if m[i].0 == r {
            assert(m@[i as int].0 == r);
            return true;
        }
        i = i + 1;
    }
    false
}

pub proof fn lemma_sorted_pos(st: Seq<(Seq<u8>, usize)>, k: Seq<u8>)
    ensures
        0 <= sorted_pos(st, k) <= st.len(),
    decreases st.len(),
{
    if st.len() > 0 && lex_lt(st[0].0, k) {
        lemma_sorted_pos(st.drop_first(), k);
    }
}

/// Below the insertion point every key comes before `k`; at and after it (in a sorted list)
/// none does.
pub proof fn lemma_sorted_pos_split(st: Seq<(Seq<u8>, usize)>, k: Seq<u8>)
    requires
        forall|i: int, j: int| 0 <= i < j < st.len() ==> lex_lt(#[trigger] st[i].0, #[trigger] st[j].0),
    ensures
        forall|i: int| 0 <= i < sorted_pos(st, k) ==> lex_lt(#[trigger] st[i].0, k),
        forall|i: int| sorted_pos(st, k) <= i < st.len() ==> !lex_lt(#[trigger] st[i].0, k),
    decreases st.len(),
{
    lemma_sorted_pos(st, k);
    if st.len() > 0 {
        let t = st.drop_first();
        assert forall|i: int, j: int| 0 <= i < j < t.len() implies lex_lt(#[trigger] t[i].0, #[trigger] t[j].0) by {
            assert(t[i] == st[i + 1] && t[j] == st[j + 1]);
        }
        lemma_sorted_pos_split(t, k);
        lemma_sorted_pos(t, k);
        if lex_lt(st[0].0, k) {
            assert forall|i: int| 0 <= i < sorted_pos(st, k) implies lex_lt(#[trigger] st[i].0, k) by {
                if i > 0 {
                    assert(st[i] == t[i - 1]);
                }
            }
            assert forall|i: int| sorted_pos(st, k) <= i < st.len() implies !lex_lt(#[trigger] st[i].0, k) by {
                assert(st[i] == t[i - 1]);
            }
        } else {
            assert forall|i: int| 0 <= i < st.len() implies !lex_lt(#[trigger] st[i].0, k) by {
                if i > 0 {
                    if lex_lt(st[i].0, k) {
                        lemma_lex_transitive(st[0].0, st[i].0, k);
                    }
                }
            }
        }
    }
}

/// Adding a style that a sorted list lacks keeps it sorted.
pub proof fn lemma_style_add_sorted(st: Seq<(Seq<u8>, usize)>, k: Seq<u8>, v: usize)
    requires
        forall|i: int, j: int| 0 <= i < j < st.len() ==> lex_lt(#[trigger] st[i].0, #[trigger] st[j].0),
    ensures
        ({
            let r = style_add(st, k, v);
            forall|i: int, j: int| 0 <= i < j < r.len() ==> lex_lt(#[trigger] r[i].0, #[trigger] r[j].0)
        }),
{
    lemma_key_pos(st, k);
    if key_pos(st, k) is None {
        let p = sorted_pos(st, k);
        lemma_sorted_pos(st, k);
        lemma_sorted_pos_split(st, k);
        let r = st.insert(p, (k, v));
        assert forall|i: int, j: int| 0 <= i < j < r.len() implies lex_lt(#[trigger] r[i].0, #[trigger] r[j].0) by {
            if j < p {
                assert(r[i] == st[i] && r[j] == st[j]);
            } else if j == p {
                assert(r[i] == st[i]);
            } else if i < p {
                assert(r[i] == st[i] && r[j] == st[j - 1]);
                assert(st[j - 1].0 != k);
                lemma_lex_total(st[j - 1].0, k);
                lemma_lex_transitive(st[i].0, k, st[j - 1].0);
            } else if i == p {
                assert(r[j] == st[j - 1]);
                assert(st[j - 1].0 != k);
                lemma_lex_total(st[j - 1].0, k);
            } else {
                assert(r[i] == st[i - 1] && r[j] == st[j - 1]);
            }
        }
    }
}

fn style_insert(st: &mut Vec<(Vec<u8>, usize)>, k: Vec<u8>, v: usize)
    ensures
        index_view(final(st)@) == style_add(index_view(old(st)@), k@, v),
{
    let ghost sv = index_view(st@);
    match index_find(st, k.as_slice()) {
        Some(_) => {},
        None => {
            proof {
                lemma_sorted_pos(sv, k@);
            }
            let mut i: usize = 0;
            assert(sv.subrange(0, sv.len() as int) =~= sv);
            while i < st.len() && bytes_lt(st[i].0.as_slice(), k.as_slice())
                invariant
                    i <= st@.len(),
                    sv == index_view(st@),
                    sorted_pos(sv, k@) == i + sorted_pos(sv.subrange(i as int, sv.len() as int), k@),
                decreases st@.len() - i,
            {
                assert(sv.subrange(i as int, sv.len() as int).drop_first() =~= sv.subrange(i + 1, sv.len() as int));
                i = i + 1;
            }
            assert(sorted_pos(sv, k@) == i);
            st.insert(i, (k, v));
            assert(index_view(st@) =~= sv.insert(i as int, (k@, v)));
        },
    }
}

fn styles_add_exec(st: &mut Vec<(Vec<u8>, usize)>, names: &Vec<Vec<u8>>, v: usize)
    ensures
        index_view(final(st)@) == styles_add(
            index_view(old(st)@),
            names_view(names@),
            v,
            names@.len() as int,
        ),
{
    let ghost s0 = index_view(st@);
    let ghost nv = names_view(names@);
    let mut j: usize = 0;
    while j < names.len()
        invariant
            j <= names@.len(),
            nv == names_view(names@),
            index_view(st@) == styles_add(s0, nv, v, j as int),
        decreases names@.len() - j,
    {
        let k = crate::text::slice_to_vec(names[j].as_slice());
        style_insert(st, k, v);
        j = j + 1;
    }
}

fn family_join_exec(fam: &mut XeTeXFontMgrFamily, w: u16, wd: u16, sl: i16, names: &Vec<Vec<u8>>, v: usize)
    ensures
        final(fam)@ == family_join(old(fam)@, w, wd, sl, names_view(names@), v),
{
    if w < fam.minWeight {
        fam.minWeight = w;
    }
    if w > fam.maxWeight {
        fam.maxWeight = w;
    }
    if wd < fam.minWidth {
        fam.minWidth = wd;
    }
    if wd > fam.maxWidth {
        fam.maxWidth = wd;
    }
    if sl < fam.minSlant {
        fam.minSlant = sl;
    }
    if sl > fam.maxSlant {
        fam.maxSlant = sl;
    }
    styles_add_exec(&mut fam.styles, names, v);
}

fn set_parent(f: &mut XeTeXFontMgrFont, k: usize)
    ensures
        final(f)@ == (FontView { parent: Some(k), ..old(f)@ }),
{
    f.parent = Some(k);
}

/// Font `v` joins the family `name` (see `family_add`).
fn family_add_exec(mgr: &mut XeTeXFontMgr, v: usize, name: &[u8], styles: &Vec<Vec<u8>>)
    requires
        view_wf(old(mgr)@),
        v < old(mgr).fonts@.len(),
    ensures
        final(mgr)@ == family_add(old(mgr)@, v, name@, names_view(styles@)),
{
    let ghost m = mgr@;
    let w = mgr.fonts[v].weight;
    let wd = mgr.fonts[v].width;
    let sl = mgr.fonts[v].slant;
    assert(m.fonts[v as int] == mgr.fonts@[v as int]@);
    let k: usize;
    match index_find(&mgr.m_nameToFamily, name) {
        Some(i) => {
            proof {
                lemma_key_pos(m.m_nameToFamily, name@);
            }
            k = mgr.m_nameToFamily[i].1;
            assert(k == m.m_nameToFamily[i as int].1);
            assert(k < mgr.families@.len());
            let ghost old_fam = mgr.families@[k as int];
            family_join_exec(&mut mgr.families[k], w, wd, sl, styles, v);
            assert(mgr.families@.map_values(|f: XeTeXFontMgrFamily| f@) =~= m.families.update(
                k as int,
                family_join(m.families[k as int], w, wd, sl, names_view(styles@), v),
            ));
        },
        None => {
            k = mgr.families.len();
            let mut st: Vec<(Vec<u8>, usize)> = Vec::new();
            styles_add_exec(&mut st, styles, v);
            let fam = XeTeXFontMgrFamily {
                styles: st,
                minWeight: w,
                maxWeight: w,
                minWidth: wd,
                maxWidth: wd,
                minSlant: sl,
                maxSlant: sl,
            };
            assert(index_view(Seq::<(Vec<u8>, usize)>::empty()) =~= Seq::<(Seq<u8>, usize)>::empty());
            mgr.families.push(fam);
            mgr.m_nameToFamily.push((crate::text::slice_to_vec(name), k));
            assert(mgr.families@.map_values(|f: XeTeXFontMgrFamily| f@) =~= m.families.push(
                family_new(w, wd, sl, names_view(styles@), v),
            ));
            assert(index_view(mgr.m_nameToFamily@) =~= m.m_nameToFamily.push((name@, k)));
        },
    }
    let ghost m2 = mgr@;
    if mgr.fonts[v].parent.is_none() {
        set_parent(&mut mgr.fonts[v], k);
        assert(mgr.fonts@.map_values(|f: XeTeXFontMgrFont| f@) =~= m2.fonts.update(
            v as int,
            FontView { parent: Some(k), ..m.fonts[v as int] },
        ));
    } else {
        assert(m2.fonts =~= m2.fonts.update(v as int, m.fonts[v as int]));
    }
}

proof fn lemma_styles_add_wf(st: Seq<(Seq<u8>, usize)>, names: Seq<Seq<u8>>, v: usize, n: int, nf: int)
    requires
        index_sorted(st),
        index_below(st, nf),
        v < nf,
    ensures
        index_sorted(styles_add(st, names, v, n)),
        index_below(styles_add(st, names, v, n), nf),
    decreases n,
{
    if n > 0 {
        lemma_styles_add_wf(st, names, v, n - 1, nf);
        let s1 = styles_add(st, names, v, n - 1);
        lemma_style_add_sorted(s1, names[n - 1], v);
        lemma_key_pos(s1, names[n - 1]);
        if key_pos(s1, names[n - 1]) is None {
            lemma_sorted_pos(s1, names[n - 1]);
            let p = sorted_pos(s1, names[n - 1]);
            let r = s1.insert(p, (names[n - 1], v));
            assert forall|i: int| 0 <= i < r.len() implies (#[trigger] r[i]).1 < nf by {
                if i < p {
                    assert(r[i] == s1[i]);
                } else if i > p {
                    assert(r[i] == s1[i - 1]);
                }
            }
        }
    }
}

proof fn lemma_family_add_wf(m: MgrView, v: usize, name: Seq<u8>, styles: Seq<Seq<u8>>)
    requires
        view_wf(m),
        v < m.fonts.len(),
    ensures
        view_wf(family_add(m, v, name, styles)),
        family_add(m, v, name, styles).fonts.len() == m.fonts.len(),
        family_add(m, v, name, styles).m_nameToFont == m.m_nameToFont,
        family_add(m, v, name, styles).m_psNameToFont == m.m_psNameToFont,
        family_add(m, v, name, styles).m_platformRefToFont == m.m_platformRefToFont,
{
    let r = family_add(m, v, name, styles);
    let nf = m.fonts.len() as int;
    let f = m.fonts[v as int];
    lemma_key_pos(m.m_nameToFamily, name);
    lemma_styles_add_wf(Seq::empty(), styles, v, styles.len() as int, nf);
    match key_pos(m.m_nameToFamily, name) {
        Some(i) => {
            let k = m.m_nameToFamily[i].1;
            lemma_styles_add_wf(m.families[k as int].styles, styles, v, styles.len() as int, nf);
            assert forall|q: int| 0 <= q < r.families.len() implies index_sorted((#[trigger] r.families[q]).styles)
                && index_below(r.families[q].styles, nf) by {
                if q != k {
                    assert(r.families[q] == m.families[q]);
                }
            }
        },
        None => {
            let k = m.families.len();
            assert forall|q: int| 0 <= q < r.families.len() implies index_sorted((#[trigger] r.families[q]).styles)
                && index_below(r.families[q].styles, nf) by {
                if q != k {
                    assert(r.families[q] == m.families[q]);
                }
            }
            assert forall|a: int, b: int| 0 <= a < r.m_nameToFamily.len() && 0 <= b < r.m_nameToFamily.len() && a != b
                implies r.m_nameToFamily[a].0 != r.m_nameToFamily[b].0 by {
                if a < m.m_nameToFamily.len() && b < m.m_nameToFamily.len() {
                } else if a == m.m_nameToFamily.len() {
                    assert(m.m_nameToFamily[b].0 != name);
                } else {
                    assert(m.m_nameToFamily[a].0 != name);
                }
            }
            assert forall|a: int| 0 <= a < r.m_nameToFamily.len() implies (#[trigger] r.m_nameToFamily[a]).1 < r.families.len() by {
                if a < m.m_nameToFamily.len() {
                    assert(r.m_nameToFamily[a] == m.m_nameToFamily[a]);
                }
            }
        },
    }
    assert forall|q: int| 0 <= q < r.fonts.len() implies match (#[trigger] r.fonts[q]).parent {
        Some(p) => p < r.families.len(),
        None => true,
    } by {
        if q != v {
            assert(r.fonts[q] == m.fonts[q]);
        }
    }
}

pub proof fn lemma_families_add_wf(m: MgrView, v: usize, names: Seq<Seq<u8>>, styles: Seq<Seq<u8>>, n: int)
    requires
        view_wf(m),
        v < m.fonts.len(),
    ensures
        view_wf(families_add(m, v, names, styles, n)),
        families_add(m, v, names, styles, n).fonts.len() == m.fonts.len(),
        families_add(m, v, names, styles, n).m_nameToFont == m.m_nameToFont,
        families_add(m, v, names, styles, n).m_psNameToFont == m.m_psNameToFont,
        families_add(m, v, names, styles, n).m_platformRefToFont == m.m_platformRefToFont,
    decreases n,
{
    if n > 0 {
        lemma_families_add_wf(m, v, names, styles, n - 1);
        lemma_family_add_wf(families_add(m, v, names, styles, n - 1), v, names[n - 1], styles);
    }
}

proof fn lemma_full_names_add_wf(idx: Seq<(Seq<u8>, usize)>, names: Seq<Seq<u8>>, v: usize, n: int, nf: int)
    requires
        index_unique(idx),
        index_below(idx, nf),
        v < nf,
    ensures
        index_unique(full_names_add(idx, names, v, n)),
        index_below(full_names_add(idx, names, v, n), nf),
    decreases n,
{
    if n > 0 {
        lemma_full_names_add_wf(idx, names, v, n - 1, nf);
        let i1 = full_names_add(idx, names, v, n - 1);
        lemma_key_pos(i1, names[n - 1]);
        if key_pos(i1, names[n - 1]) is None {
            let r = i1.push((names[n - 1], v));
            assert forall|a: int, b: int| 0 <= a < r.len() && 0 <= b < r.len() && a != b implies r[a].0 != r[b].0 by {
                if a == i1.len() {
                    assert(i1[b].0 != names[n - 1]);
                } else if b == i1.len() {
                    assert(i1[a].0 != names[n - 1]);
                }
            }
            assert forall|a: int| 0 <= a < r.len() implies (#[trigger] r[a]).1 < nf by {
                if a < i1.len() {
                    assert(r[a] == i1[a]);
                }
            }
        }
    }
}

pub proof fn lemma_new_font_wf(m: MgrView, r: u64, names: NamesView, info: FontStyleInfo)
    requires
        view_wf(m),
        !has_ref(m.m_platformRefToFont, r),
        key_pos(m.m_psNameToFont, names.m_psName) is None,
    ensures
        view_wf(with_new_font(m, r, names, info)),
{
    let v = m.fonts.len() as usize;
    let m1 = with_new_font(m, r, names, info);
    lemma_key_pos(m.m_psNameToFont, names.m_psName);
    let nf = m1.fonts.len() as int;
    assert forall|a: int, b: int| 0 <= a < m1.m_psNameToFont.len() && 0 <= b < m1.m_psNameToFont.len() && a != b
        implies m1.m_psNameToFont[a].0 != m1.m_psNameToFont[b].0 by {
        if a == m.m_psNameToFont.len() {
            assert(m.m_psNameToFont[b].0 != names.m_psName);
        } else if b == m.m_psNameToFont.len() {
            assert(m.m_psNameToFont[a].0 != names.m_psName);
        }
    }
    assert forall|a: int| 0 <= a < m1.m_psNameToFont.len() implies (#[trigger] m1.m_psNameToFont[a]).1 < nf by {
        if a < m.m_psNameToFont.len() {
            assert(m1.m_psNameToFont[a] == m.m_psNameToFont[a]);
        }
    }
    assert forall|a: int, b: int| 0 <= a < m1.m_platformRefToFont.len() && 0 <= b < m1.m_platformRefToFont.len() && a != b
        implies m1.m_platformRefToFont[a].0 != m1.m_platformRefToFont[b].0 by {
        if a == m.m_platformRefToFont.len() {
            assert(m1.m_platformRefToFont[b] == m.m_platformRefToFont[b]);
        } else if b == m.m_platformRefToFont.len() {
            assert(m1.m_platformRefToFont[a] == m.m_platformRefToFont[a]);
        }
    }
    assert forall|a: int| 0 <= a < m1.m_platformRefToFont.len() implies (#[trigger] m1.m_platformRefToFont[a]).1 < nf by {
        if a < m.m_platformRefToFont.len() {
            assert(m1.m_platformRefToFont[a] == m.m_platformRefToFont[a]);
        }
    }
    assert forall|q: int| 0 <= q < m1.fonts.len() implies match (#[trigger] m1.fonts[q]).parent {
        Some(p) => p < m1.families.len(),
        None => true,
    } by {
        if q < m.fonts.len() {
            assert(m1.fonts[q] == m.fonts[q]);
        }
    }
    assert forall|k: int| 0 <= k < m1.families.len() implies index_sorted((#[trigger] m1.families[k]).styles)
        && index_below(m1.families[k].styles, nf) by {
        assert(index_below(m.families[k].styles, m.fonts.len() as int));
    }
    assert(index_below(m1.m_nameToFont, nf)) by {
        assert(index_below(m.m_nameToFont, m.fonts.len() as int));
    }
}

/// Adding a font keeps the manager well formed.
pub proof fn lemma_add_to_maps_wf(m: MgrView, r: u64, names: NamesView, info: FontStyleInfo)
    requires
        view_wf(m),
    ensures
        view_wf(add_to_maps_spec(m, r, names, info)),
{
    if !(has_ref(m.m_platformRefToFont, r) || names.m_psName.len() == 0 || key_pos(m.m_psNameToFont, names.m_psName) is Some) {
        let v = m.fonts.len() as usize;
        let m1 = with_new_font(m, r, names, info);
        lemma_new_font_wf(m, r, names, info);
        lemma_families_add_wf(m1, v, names.m_familyNames, names.m_styleNames, names.m_familyNames.len() as int);
        let m2 = families_add(m1, v, names.m_familyNames, names.m_styleNames, names.m_familyNames.len() as int);
        lemma_full_names_add_wf(m2.m_nameToFont, names.m_fullNames, v, names.m_fullNames.len() as int, m1.fonts.len() as int);
    }
}

/// Records a platform font with its names and style (see `add_to_maps_spec`). Every
/// family's ranges of weight, width and slant stay in order, and when the font is recorded,
/// each family it joins holds its weight, width and slant.
#[allow(non_snake_case)]
pub fn XeTeXFontMgr_addToMaps(
    mgr: &mut XeTeXFontMgr,
    platformFont: u64,
    names: &XeTeXFontMgrNameCollection,
    info: FontStyleInfo,
)
    requires
        old(mgr).wf(),
    ensures
        final(mgr).wf(),
        final(mgr)@ == add_to_maps_spec(old(mgr)@, platformFont, names@, info),
        ranges_ordered(old(mgr)@) ==> ranges_ordered(final(mgr)@),
        ranges_ordered(old(mgr)@) && !(has_ref(old(mgr)@.m_platformRefToFont, platformFont)
            || names@.m_psName.len() == 0 || key_pos(old(mgr)@.m_psNameToFont, names@.m_psName) is Some)
            ==> forall|j: int| 0 <= j < names@.m_familyNames.len() ==> family_holds(
            final(mgr)@,
            #[trigger] names@.m_familyNames[j],
            info.weight,
            info.width,
            info.slant,
        ),
{
    add_to_maps_impl(mgr, platformFont, names, info);
    proof {
        assert(mgr.fonts.len() as int == mgr@.fonts.len());
        assert(mgr.families.len() as int == mgr@.families.len());
        if ranges_ordered(old(mgr)@) {
            law_add_to_maps_keeps_ranges_ordered(old(mgr)@, platformFont, names@, info);
        }
    }
}

fn add_to_maps_impl(
    mgr: &mut XeTeXFontMgr,
    platformFont: u64,
    names: &XeTeXFontMgrNameCollection,
    info: FontStyleInfo,
)
    requires
        old(mgr).wf(),
    ensures
        final(mgr).wf(),
        final(mgr)@ == add_to_maps_spec(old(mgr)@, platformFont, names@, info),
{
    let ghost m = mgr@;
    proof {
        lemma_add_to_maps_wf(m, platformFont, names@, info);
    }
    if ref_find(&mgr.m_platformRefToFont, platformFont) {
        return;
    }
    if names.m_psName.len() == 0 {
        return;
    }
    if index_find(&mgr.m_psNameToFont, names.m_psName.as_slice()).is_some() {
        return;
    }
    let v = mgr.fonts.len();
    let full = if names.m_fullNames.len() > 0 {
        Some(crate::text::slice_to_vec(names.m_fullNames[0].as_slice()))
    } else {
        None
    };
    let fam = if names.m_familyNames.len() > 0 {
        crate::text::slice_to_vec(names.m_familyNames[0].as_slice())
    } else {
        crate::text::slice_to_vec(names.m_psName.as_slice())
    };
    let sty = if names.m_styleNames.len() > 0 {
        crate::text::slice_to_vec(names.m_styleNames[0].as_slice())
    } else {
        Vec::new()
    };
    let font = XeTeXFontMgrFont {
        m_fullName: full,
        m_psName: crate::text::slice_to_vec(names.m_psName.as_slice()),
        m_familyName: fam,
        m_styleName: sty,
        parent: None,
        fontRef: platformFont,
        opSizeInfo: info.opSizeInfo,
        weight: info.weight,
        width: info.width,
        slant: info.slant,
        isReg: info.isReg,
        isBold: info.isBold,
        isItalic: info.isItalic,
    };
    assert(font@ == new_font_view(platformFont, names@, info));
    mgr.fonts.push(font);
    mgr.m_psNameToFont.push((crate::text::slice_to_vec(names.m_psName.as_slice()), v));
    mgr.m_platformRefToFont.push((platformFont, v));
    let ghost m1 = with_new_font(m, platformFont, names@, info);
    proof {
        lemma_new_font_wf(m, platformFont, names@, info);
    }
    assert(mgr.fonts@.map_values(|f: XeTeXFontMgrFont| f@) =~= m1.fonts);
    assert(index_view(mgr.m_psNameToFont@) =~= m1.m_psNameToFont);
    assert(mgr@ == m1);
    let ghost fams = names@.m_familyNames;
    let ghost stys = names@.m_styleNames;
    let mut j: usize = 0;
    while j < names.m_familyNames.len()
        invariant
            j <= names.m_familyNames@.len(),
            fams == names_view(names.m_familyNames@),
            stys == names_view(names.m_styleNames@),
            v < m1.fonts.len(),
            view_wf(m1),
            mgr@ == families_add(m1, v, fams, stys, j as int),
        decreases names.m_familyNames@.len() - j,
    {
        proof {
            lemma_families_add_wf(m1, v, fams, stys, j as int);
        }
        family_add_exec(mgr, v, names.m_familyNames[j].as_slice(), &names.m_styleNames);
        j = j + 1;
    }
    let ghost m2 = mgr@;
    proof {
        lemma_families_add_wf(m1, v, fams, stys, fams.len() as int);
    }
    let ghost fulls = names@.m_fullNames;
    let mut j: usize = 0;
    while j < names.m_fullNames.len()
        invariant
            j <= names.m_fullNames@.len(),
            fulls == names_view(names.m_fullNames@),
            mgr@ == (MgrView { m_nameToFont: full_names_add(m2.m_nameToFont, fulls, v, j as int), ..m2 }),
        decreases names.m_fullNames@.len() - j,
    {
        let ghost before = mgr@;
        match index_find(&mgr.m_nameToFont, names.m_fullNames[j].as_slice()) {
            Some(_) => {},
            None => {
                mgr.m_nameToFont.push((crate::text::slice_to_vec(names.m_fullNames[j].as_slice()), v));
                assert(index_view(mgr.m_nameToFont@) =~= before.m_nameToFont.push((fulls[j as int], v)));
            },
        }
        j = j + 1;
    }
}

/// The style names tried for a family's regular face, in order: `Regular`, `Plain`, `Normal`,
/// `Roman`.
pub open spec fn regular_style_name(i: int) -> Seq<u8> {
    if i == 0 {
        seq![82u8, 101u8, 103u8, 117u8, 108u8, 97u8, 114u8]
    } else if i == 1 {
        seq![80u8, 108u8, 97u8, 105u8, 110u8]
    } else if i == 2 {
        seq![78u8, 111u8, 114u8, 109u8, 97u8, 108u8]
    } else {
        seq![82u8, 111u8, 109u8, 97u8, 110u8]
    }
}

fn regular_style_name_bytes(i: usize) -> (r: Vec<u8>)
    requires
        i < 4,
    ensures
        r@ == regular_style_name(i as int),
{
    if i == 0 {
        vec![82u8, 101u8, 103u8, 117u8, 108u8, 97u8, 114u8]
    } else if i == 1 {
        vec![80u8, 108u8, 97u8, 105u8, 110u8]
    } else if i == 2 {
        vec![78u8, 111u8, 114u8, 109u8, 97u8, 108u8]
    } else {
        vec![82u8, 111u8, 109u8, 97u8, 110u8]
    }
}

/// Among the first `n` styles: the font of the first whose regular bit is set, and how many
/// have it set.
pub open spec fn reg_scan(fonts: Seq<FontView>, st: Seq<(Seq<u8>, usize)>, n: int) -> (Option<usize>, int)
    decreases n,
{
    if n <= 0 {
        (None, 0)
    } else {
        let (first, count) = reg_scan(fonts, st, n - 1);
        if fonts[st[n - 1].1 as int].isReg {
            (if first is None { Some(st[n - 1].1) } else { first }, count + 1)
        } else {
            (first, count)
        }
    }
}

/// The font of the first of the regular style names from the `i`th on that the family has.
pub open spec fn named_regular(st: Seq<(Seq<u8>, usize)>, i: int) -> Option<usize>
    decreases 4 - i,
{
    if i < 0 || i >= 4 {
        None
    } else {
        match key_pos(st, regular_style_name(i)) {
            Some(p) => Some(st[p].1),
            None => named_regular(st, i + 1),
        }
    }
}

/// The regular face by name is the one named `Regular`, else `Plain`, else `Normal`, else
/// `Roman`, as the family holds them.
pub proof fn law_regular_style_names(st: Seq<(Seq<u8>, usize)>)
    ensures
        named_regular(st, 0) == (match key_pos(st, seq![82u8, 101u8, 103u8, 117u8, 108u8, 97u8, 114u8]) {
            Some(p) => Some(st[p].1),
            None => match key_pos(st, seq![80u8, 108u8, 97u8, 105u8, 110u8]) {
                Some(p) => Some(st[p].1),
                None => match key_pos(st, seq![78u8, 111u8, 114u8, 109u8, 97u8, 108u8]) {
                    Some(p) => Some(st[p].1),
                    None => match key_pos(st, seq![82u8, 111u8, 109u8, 97u8, 110u8]) {
                        Some(p) => Some(st[p].1),
                        None => None::<usize>,
                    },
                },
            },
        }),
{
    reveal_with_fuel(named_regular, 5);
    assert(regular_style_name(0) =~= seq![82u8, 101u8, 103u8, 117u8, 108u8, 97u8, 114u8]);
    assert(regular_style_name(1) =~= seq![80u8, 108u8, 97u8, 105u8, 110u8]);
    assert(regular_style_name(2) =~= seq![78u8, 111u8, 114u8, 109u8, 97u8, 108u8]);
    assert(regular_style_name(3) =~= seq![82u8, 111u8, 109u8, 97u8, 110u8]);
}

/// The font that a family name alone selects: its one face with the regular bit set; when there
/// is none or more than one, the face named `Regular`, `Plain`, `Normal` or `Roman` (tried in
/// that order; else the first regular face); failing all these, the face nearest to weight 80,
/// width 100 and slant 0.
pub open spec fn family_default_font(m: MgrView, fam: int) -> Option<usize> {
    let st = m.families[fam].styles;
    let (first, count) = reg_scan(m.fonts, st, st.len() as int);
    let f1 = if first is None || count > 1 {
        match named_regular(st, 0) {
            Some(x) => Some(x),
            None => first,
        }
    } else {
        first
    };
    if f1 is None {
        best_match_spec(m, fam, 80, 100, 0)
    } else {
        f1
    }
}

/// The font that `name` names as `Family-Style`: split at its first hyphen (neither first nor
/// last), a known family and one of its styles.
pub open spec fn family_style_font(m: MgrView, name: Seq<u8>) -> Option<usize> {
    match crate::text::first_index_of(name, 45u8) {
        Some(h) => if 0 < h < name.len() - 1 {
            match key_pos(m.m_nameToFamily, name.take(h)) {
                Some(i) => {
                    let st = m.families[m.m_nameToFamily[i].1 as int].styles;
                    match key_pos(st, name.skip(h + 1)) {
                        Some(j) => Some(st[j].1),
                        None => None,
                    }
                },
                None => None,
            }
        } else {
            None
        },
        None => None,
    }
}

/// What the known fonts give for `name`, tried in turn: as a full name, as `Family-Style`, as a
/// PostScript name, as a family name (see `family_default_font`). With the font comes whether
/// it was found by a name of its own (then its design size counts).
pub open spec fn find_in_caches_spec(m: MgrView, name: Seq<u8>) -> Option<(usize, bool)> {
    match key_pos(m.m_nameToFont, name) {
        Some(i) => Some((m.m_nameToFont[i].1, true)),
        None => match family_style_font(m, name) {
            Some(f) => Some((f, true)),
            None => match key_pos(m.m_psNameToFont, name) {
                Some(i) => Some((m.m_psNameToFont[i].1, true)),
                None => match key_pos(m.m_nameToFamily, name) {
                    Some(i) => match family_default_font(m, m.m_nameToFamily[i].1 as int) {
                        Some(f) => Some((f, false)),
                        None => None,
                    },
                    None => None,
                },
            },
        },
    }
}

fn family_default_exec(mgr: &XeTeXFontMgr, fam: usize) -> (r: Option<usize>)
    requires
        mgr.wf(),
        fam < mgr.families@.len(),
    ensures
        r == family_default_font(mgr@, fam as int),
        r matches Some(f) ==> f < mgr.fonts@.len(),
{
    let ghost st = mgr@.families[fam as int].styles;
    proof {
        lemma_wf_family(mgr, fam as int);
    }
    let styles = &mgr.families[fam].styles;
    let mut first: Option<usize> = None;
    let mut count: usize = 0;
    let mut i: usize = 0;
    while i < styles.len()
        invariant
            mgr.wf(),
            st == mgr@.families[fam as int].styles,
            index_view(styles@) == st,
            i <= st.len(),
            reg_scan(mgr@.fonts, st, i as int) == (first, count as int),
            first matches Some(x) ==> x < mgr.fonts@.len(),
            count <= i,
            forall|j: int| 0 <= j < st.len() ==> (#[trigger] st[j]).1 < mgr.fonts@.len(),
        decreases st.len() - i,
    {
        let f = styles[i].1;
        assert(f == st[i as int].1);
        assert(mgr@.fonts[f as int] == mgr.fonts@[f as int]@);
        if mgr.fonts[f].isReg {
            if first.is_none() {
                first = Some(f);
            }
            count = count + 1;
        }
        i = i + 1;
    }
    let mut f1 = first;
    if first.is_none() || count > 1 {
        let mut k: usize = 0;
        let mut found: Option<usize> = None;
        while k < 4 && found.is_none()
            invariant
                k <= 4,
                index_view(styles@) == st,
                found is None ==> named_regular(st, 0) == named_regular(st, k as int),
                found is Some ==> named_regular(st, 0) == found,
                found matches Some(x) ==> x < mgr.fonts@.len(),
                forall|j: int| 0 <= j < st.len() ==> (#[trigger] st[j]).1 < mgr.fonts@.len(),
            decreases 4 - k + (if found is None { 1int } else { 0int }),
        {
            let nm = regular_style_name_bytes(k);
            match index_find(styles, nm.as_slice()) {
                Some(p) => {
                    proof {
                        lemma_key_pos(st, nm@);
                    }
                    found = Some(styles[p].1);
                },
                None => {
                    k = k + 1;
                },
            }
        }
        if found.is_some() {
            f1 = found;
        }
    }
    if f1.is_none() {
        assert(family_diff_ok(mgr@, fam as int, 80, 100)) by {
            assert forall|i: int| 0 <= i < mgr@.families[fam as int].styles.len() implies style_diff_ok(
                mgr@.fonts[(#[trigger] mgr@.families[fam as int].styles[i]).1 as int],
                80,
                100,
            ) by {}
        }
        XeTeXFontMgr_bestMatchFromFamily(mgr, fam, 80, 100, 0)
    } else {
        f1
    }
}

/// Looks `name` up among the known fonts (see `find_in_caches_spec`): the font, and whether it
/// was found by a name of its own.
pub fn find_font_in_caches(mgr: &XeTeXFontMgr, name: &[u8]) -> (r: Option<(usize, bool)>)
    requires
        mgr.wf(),
    ensures
        r == find_in_caches_spec(mgr@, name@),
        r matches Some(x) ==> x.0 < mgr.fonts@.len(),
{
    let ghost m = mgr@;
    match index_find(&mgr.m_nameToFont, name) {
        Some(i) => {
            proof {
                lemma_key_pos(m.m_nameToFont, name@);
            }
            assert(mgr.m_nameToFont[i as int].1 == m.m_nameToFont[i as int].1);
            return Some((mgr.m_nameToFont[i].1, true));
        },
        None => {},
    }
    proof {
        crate::text::lemma_first_index_of(name@, 45u8);
    }
    match crate::text::find_byte(name, 45u8) {
        Some(h) => {
            if 0 < h && h < name.len() - 1 {
                let fam_name = &name[0..h];
                assert(fam_name@ == name@.take(h as int));
                match index_find(&mgr.m_nameToFamily, fam_name) {
                    Some(i) => {
                        proof {
                            lemma_key_pos(m.m_nameToFamily, name@.take(h as int));
                        }
                        let k = mgr.m_nameToFamily[i].1;
                        assert(k == m.m_nameToFamily[i as int].1);
                        proof {
                            lemma_wf_family(mgr, k as int);
                        }
                        let style = &name[h + 1..name.len()];
                        assert(style@ == name@.skip(h + 1));
                        match index_find(&mgr.families[k].styles, style) {
                            Some(j) => {
                                proof {
                                    lemma_key_pos(m.families[k as int].styles, style@);
                                }
                                let f = mgr.families[k].styles[j].1;
                                assert(f == m.families[k as int].styles[j as int].1);
                                return Some((f, true));
                            },
                            None => {},
                        }
                    },
                    None => {},
                }
            }
        },
        None => {},
    }
    match index_find(&mgr.m_psNameToFont, name) {
        Some(i) => {
            proof {
                lemma_key_pos(m.m_psNameToFont, name@);
            }
            assert(mgr.m_psNameToFont[i as int].1 == m.m_psNameToFont[i as int].1);
            return Some((mgr.m_psNameToFont[i].1, true));
        },
        None => {},
    }
    match index_find(&mgr.m_nameToFamily, name) {
        Some(i) => {
            proof {
                lemma_key_pos(m.m_nameToFamily, name@);
            }
            let k = mgr.m_nameToFamily[i].1;
            assert(k == m.m_nameToFamily[i as int].1);
            match family_default_exec(mgr, k) {
                Some(f) => Some((f, false)),
                None => None,
            }
        },
        None => None,
    }
}

proof fn lemma_full_names_add_lookup(idx: Seq<(Seq<u8>, usize)>, names: Seq<Seq<u8>>, v: usize, n: int, x: Seq<u8>)
    requires
        key_pos(idx, x) is None,
        0 <= n <= names.len(),
    ensures
        ({
            let r = full_names_add(idx, names, v, n);
            &&& key_pos(r, x) matches Some(p) ==> 0 <= p < r.len() && r[p].1 == v
            &&& (exists|j: int| 0 <= j < n && names[j] == x) ==> key_pos(r, x) is Some
        }),
    decreases n,
{
    if n > 0 {
        lemma_full_names_add_lookup(idx, names, v, n - 1, x);
        let r0 = full_names_add(idx, names, v, n - 1);
        let y = names[n - 1];
        lemma_key_pos(r0, x);
        lemma_key_pos(r0, y);
        if key_pos(r0, y) is None {
            let r = r0.push((y, v));
            assert(r.drop_last() =~= r0);
            if (exists|j: int| 0 <= j < n && names[j] == x) && y != x {
                let j = choose|j: int| 0 <= j < n && names[j] == x;
                assert(j < n - 1);
            }
        } else {
            if exists|j: int| 0 <= j < n && names[j] == x {
                let j = choose|j: int| 0 <= j < n && names[j] == x;
                if j == n - 1 {
                    assert(key_pos(r0, x) is Some);
                }
            }
        }
    }
}

/// A font just added is found by each of its full names that named no font before.
pub proof fn law_added_font_found_by_full_name(m: MgrView, r: u64, names: NamesView, info: FontStyleInfo, i: int)
    requires
        view_wf(m),
        !has_ref(m.m_platformRefToFont, r),
        names.m_psName.len() > 0,
        key_pos(m.m_psNameToFont, names.m_psName) is None,
        0 <= i < names.m_fullNames.len(),
        key_pos(m.m_nameToFont, names.m_fullNames[i]) is None,
    ensures
        find_in_caches_spec(add_to_maps_spec(m, r, names, info), names.m_fullNames[i]) == Some(
            (m.fonts.len() as usize, true),
        ),
{
    let v = m.fonts.len() as usize;
    let m1 = with_new_font(m, r, names, info);
    lemma_new_font_wf(m, r, names, info);
    lemma_families_add_wf(m1, v, names.m_familyNames, names.m_styleNames, names.m_familyNames.len() as int);
    let m2 = families_add(m1, v, names.m_familyNames, names.m_styleNames, names.m_familyNames.len() as int);
    lemma_full_names_add_lookup(m2.m_nameToFont, names.m_fullNames, v, names.m_fullNames.len() as int, names.m_fullNames[i]);
}

/// Adding the same platform font twice does what adding it once does.
pub proof fn law_add_to_maps_idempotent(m: MgrView, r: u64, names: NamesView, info: FontStyleInfo)
    requires
        view_wf(m),
    ensures
        add_to_maps_spec(add_to_maps_spec(m, r, names, info), r, names, info) == add_to_maps_spec(m, r, names, info),
{
    if !(has_ref(m.m_platformRefToFont, r) || names.m_psName.len() == 0 || key_pos(m.m_psNameToFont, names.m_psName) is Some) {
        let v = m.fonts.len() as usize;
        let m1 = with_new_font(m, r, names, info);
        lemma_new_font_wf(m, r, names, info);
        lemma_families_add_wf(m1, v, names.m_familyNames, names.m_styleNames, names.m_familyNames.len() as int);
        let a = add_to_maps_spec(m, r, names, info);
        assert(a.m_platformRefToFont == m1.m_platformRefToFont);
        assert(a.m_platformRefToFont[m.m_platformRefToFont.len() as int].0 == r);
        assert(has_ref(a.m_platformRefToFont, r));
    }
}

/// The first font, among the first `n` styles, whose bold bit is `bold` and whose italic bit is
/// `ital`.
pub open spec fn first_style_with(fonts: Seq<FontView>, st: Seq<(Seq<u8>, usize)>, n: int, bold: bool, ital: bool) -> Option<usize>
    decreases n,
{
    if n <= 0 {
        None
    } else {
        match first_style_with(fonts, st, n - 1, bold, ital) {
            Some(g) => Some(g),
            None => {
                let g = fonts[st[n - 1].1 as int];
                if g.isBold == bold && g.isItalic == ital {
                    Some(st[n - 1].1)
                } else {
                    None
                }
            },
        }
    }
}

/// The font, among the first `n` styles whose italic bit is `ital`, nearest to `target` in
/// weight and width (the first of the nearest).
pub open spec fn best_waw_with(fonts: Seq<FontView>, st: Seq<(Seq<u8>, usize)>, n: int, ital: bool, target: FontView) -> Option<usize>
    decreases n,
{
    if n <= 0 {
        None
    } else {
        let prev = best_waw_with(fonts, st, n - 1, ital, target);
        let g = st[n - 1].1;
        if fonts[g as int].isItalic != ital {
            prev
        } else {
            match prev {
                None => Some(g),
                Some(b) => if waw_diff(fonts[g as int], target) < waw_diff(fonts[b as int], target) {
                    Some(g)
                } else {
                    prev
                },
            }
        }
    }
}

fn first_style_with_exec(mgr: &XeTeXFontMgr, fam: usize, bold: bool, ital: bool) -> (r: Option<usize>)
    requires
        mgr.wf(),
        fam < mgr.families@.len(),
    ensures
        r == first_style_with(mgr@.fonts, mgr@.families[fam as int].styles, mgr@.families[fam as int].styles.len() as int, bold, ital),
        r matches Some(g) ==> g < mgr.fonts@.len(),
{
    let ghost st = mgr@.families[fam as int].styles;
    proof {
        lemma_wf_family(mgr, fam as int);
    }
    let styles = &mgr.families[fam].styles;
    let mut i: usize = 0;
    while i < styles.len()
        invariant
            mgr.wf(),
            st == mgr@.families[fam as int].styles,
            index_view(styles@) == st,
            i <= st.len(),
            first_style_with(mgr@.fonts, st, i as int, bold, ital) is None,
            forall|j: int| 0 <= j < st.len() ==> (#[trigger] st[j]).1 < mgr.fonts@.len(),
        decreases st.len() - i,
    {
        let g = styles[i].1;
        assert(g == st[i as int].1);
        assert(mgr@.fonts[g as int] == mgr.fonts@[g as int]@);
        if mgr.fonts[g].isBold == bold && mgr.fonts[g].isItalic == ital {
            proof {
                lemma_first_style_with_stable(mgr@.fonts, st, i as int + 1, st.len() as int, bold, ital);
            }
            return Some(g);
        }
        i = i + 1;
    }
    None
}

proof fn lemma_first_style_with_stable(fonts: Seq<FontView>, st: Seq<(Seq<u8>, usize)>, a: int, b: int, bold: bool, ital: bool)
    requires
        0 <= a <= b,
        first_style_with(fonts, st, a, bold, ital) is Some,
    ensures
        first_style_with(fonts, st, b, bold, ital) == first_style_with(fonts, st, a, bold, ital),
    decreases b - a,
{
    if b > a {
        lemma_first_style_with_stable(fonts, st, a, b - 1, bold, ital);
    }
}

fn best_waw_with_exec(mgr: &XeTeXFontMgr, fam: usize, ital: bool, target: usize) -> (r: Option<usize>)
    requires
        mgr.wf(),
        fam < mgr.families@.len(),
        target < mgr.fonts@.len(),
    ensures
        r == best_waw_with(mgr@.fonts, mgr@.families[fam as int].styles, mgr@.families[fam as int].styles.len() as int, ital, mgr@.fonts[target as int]),
        r matches Some(g) ==> g < mgr.fonts@.len(),
{
    let ghost st = mgr@.families[fam as int].styles;
    let ghost t = mgr@.fonts[target as int];
    proof {
        lemma_wf_family(mgr, fam as int);
    }
    let styles = &mgr.families[fam].styles;
    let mut best: Option<usize> = None;
    let mut i: usize = 0;
    while i < styles.len()
        invariant
            mgr.wf(),
            target < mgr.fonts@.len(),
            t == mgr@.fonts[target as int],
            st == mgr@.families[fam as int].styles,
            index_view(styles@) == st,
            i <= st.len(),
            best == best_waw_with(mgr@.fonts, st, i as int, ital, t),
            best matches Some(b) ==> b < mgr.fonts@.len(),
            forall|j: int| 0 <= j < st.len() ==> (#[trigger] st[j]).1 < mgr.fonts@.len(),
        decreases st.len() - i,
    {
        let g = styles[i].1;
        assert(g == st[i as int].1);
        assert(mgr@.fonts[g as int] == mgr.fonts@[g as int]@);
        if mgr.fonts[g].isItalic == ital {
            match best {
                None => {
                    best = Some(g);
                },
                Some(b) => {
                    if XeTeXFontMgr_weightAndWidthDiff(mgr, g, target) < XeTeXFontMgr_weightAndWidthDiff(mgr, b, target) {
                        best = Some(g);
                    }
                },
            }
        }
        i = i + 1;
    }
    best
}

/// C's division by two of an `int`: towards zero.
pub open spec fn half_toward_zero(x: int) -> int {
    if x >= 0 {
        x / 2
    } else {
        -((-x) / 2)
    }
}

/// The face that `/I` asks for, from font `f` of family `par`: a face of the other slant
/// extreme of the family with the same weight and width; where weights cannot be trusted and
/// the bold bit differs, the first face of the same boldness and the other italic bit; failing
/// a change, by the italic bits: the face of the other italic bit nearest in weight and width
/// (or, without weights, the first of the same boldness); else `f` itself.
pub open spec fn italic_match(m: MgrView, f: usize) -> usize {
    let ff = m.fonts[f as int];
    let par = ff.parent.unwrap();
    let p = m.families[par as int];
    let st = p.styles;
    let b1 = if ff.slant < p.maxSlant {
        best_match_spec(m, par as int, ff.weight as i32, ff.width as i32, p.maxSlant as i32)
    } else {
        Some(f)
    };
    let b2 = if b1 == Some(f) && ff.slant > p.minSlant {
        best_match_spec(m, par as int, ff.weight as i32, ff.width as i32, p.minSlant as i32)
    } else {
        b1
    };
    let b3 = if p.minWeight == p.maxWeight && m.fonts[b2.unwrap() as int].isBold != ff.isBold {
        match first_style_with(m.fonts, st, st.len() as int, ff.isBold, !ff.isItalic) {
            Some(g) => Some(g),
            None => b2,
        }
    } else {
        b2
    };
    let b4 = if b3 == Some(f) {
        if p.minWeight != p.maxWeight {
            best_waw_with(m.fonts, st, st.len() as int, !ff.isItalic, ff)
        } else {
            first_style_with(m.fonts, st, st.len() as int, ff.isBold, !ff.isItalic)
        }
    } else {
        b3
    };
    match b4 {
        Some(g) => g,
        None => f,
    }
}

/// The face that `/B` asks for, from font `f` of family `par`: below the family's top weight,
/// the face nearest to half the family's weight range heavier (where slants cannot be trusted,
/// the face of the same italic bit nearest to that one in weight and width); failing a change
/// for a face without the bold bit, the first face of the same italic bit with it.
pub open spec fn bold_match(m: MgrView, f: usize) -> usize {
    let ff = m.fonts[f as int];
    let par = ff.parent.unwrap();
    let p = m.families[par as int];
    let st = p.styles;
    let b1 = if ff.weight < p.maxWeight {
        let t = best_match_spec(
            m,
            par as int,
            (ff.weight + half_toward_zero(p.maxWeight - p.minWeight) + 1) as i32,
            ff.width as i32,
            ff.slant as i32,
        );
        if p.minSlant == p.maxSlant {
            match best_waw_with(m.fonts, st, st.len() as int, ff.isItalic, m.fonts[t.unwrap() as int]) {
                Some(g) => Some(g),
                None => t,
            }
        } else {
            t
        }
    } else {
        Some(f)
    };
    let b2 = if b1 == Some(f) && !ff.isBold {
        match first_style_with(m.fonts, st, st.len() as int, true, ff.isItalic) {
            Some(g) => Some(g),
            None => b1,
        }
    } else {
        b1
    };
    b2.unwrap()
}

/// A font that has a family, with at least one style.
pub open spec fn has_styled_family(m: MgrView, f: usize) -> bool {
    &&& f < m.fonts.len()
    &&& m.fonts[f as int].parent matches Some(par)
    &&& m.families[par as int].styles.len() > 0
}

proof fn lemma_best_some(fonts: Seq<FontView>, st: Seq<(Seq<u8>, usize)>, n: int, wt: i32, wd: i32, slant: i32)
    requires
        n > 0,
    ensures
        best_style_index(fonts, st, n, wt, wd, slant) matches Some(i) && 0 <= i < n,
    decreases n,
{
    if n > 1 {
        lemma_best_some(fonts, st, n - 1, wt, wd, slant);
    } else {
        assert(best_style_index(fonts, st, 0, wt, wd, slant) is None);
    }
}

/// The face that `/I` asks for (see `italic_match`).
pub fn match_italic(mgr: &XeTeXFontMgr, f: usize) -> (r: usize)
    requires
        mgr.wf(),
        has_styled_family(mgr@, f),
    ensures
        r == italic_match(mgr@, f),
        r < mgr.fonts@.len(),
{
    let ghost m = mgr@;
    assert(m.fonts[f as int] == mgr.fonts@[f as int]@);
    let par = match mgr.fonts[f].parent {
        Some(p) => p,
        None => {
            return f;
        },
    };
    assert(par < mgr.families@.len());
    assert(m.families[par as int] == mgr.families@[par as int]@);
    proof {
        lemma_wf_family(mgr, par as int);
        lemma_best_some(m.fonts, m.families[par as int].styles, m.families[par as int].styles.len() as int, mgr.fonts@[f as int].weight as i32, mgr.fonts@[f as int].width as i32, mgr.families@[par as int].maxSlant as i32);
        lemma_best_some(m.fonts, m.families[par as int].styles, m.families[par as int].styles.len() as int, mgr.fonts@[f as int].weight as i32, mgr.fonts@[f as int].width as i32, mgr.families@[par as int].minSlant as i32);
    }
    let w = mgr.fonts[f].weight as i32;
    let wd = mgr.fonts[f].width as i32;
    let sl = mgr.fonts[f].slant;
    let fb = mgr.fonts[f].isBold;
    let fi = mgr.fonts[f].isItalic;
    let max_s = mgr.families[par].maxSlant;
    let min_s = mgr.families[par].minSlant;
    let min_w = mgr.families[par].minWeight;
    let max_w = mgr.families[par].maxWeight;
    assert(family_diff_ok(m, par as int, w, wd)) by {
        assert forall|i: int| 0 <= i < m.families[par as int].styles.len() implies style_diff_ok(
            m.fonts[(#[trigger] m.families[par as int].styles[i]).1 as int],
            w,
            wd,
        ) by {}
    }
    let b1 = if sl < max_s {
        XeTeXFontMgr_bestMatchFromFamily(mgr, par, w, wd, max_s as i32)
    } else {
        Some(f)
    };
    let b2 = if b1 == Some(f) && sl > min_s {
        XeTeXFontMgr_bestMatchFromFamily(mgr, par, w, wd, min_s as i32)
    } else {
        b1
    };
    let g2 = match b2 {
        Some(g) => g,
        None => f,
    };
    assert(m.fonts[g2 as int] == mgr.fonts@[g2 as int]@);
    let b3 = if min_w == max_w && mgr.fonts[g2].isBold != fb {
        match first_style_with_exec(mgr, par, fb, !fi) {
            Some(g) => Some(g),
            None => b2,
        }
    } else {
        b2
    };
    let b4 = if b3 == Some(f) {
        if min_w != max_w {
            best_waw_with_exec(mgr, par, !fi, f)
        } else {
            first_style_with_exec(mgr, par, fb, !fi)
        }
    } else {
        b3
    };
    match b4 {
        Some(g) => g,
        None => f,
    }
}

/// The face that `/B` asks for (see `bold_match`).
pub fn match_bold(mgr: &XeTeXFontMgr, f: usize) -> (r: usize)
    requires
        mgr.wf(),
        has_styled_family(mgr@, f),
    ensures
        r == bold_match(mgr@, f),
        r < mgr.fonts@.len(),
{
    let ghost m = mgr@;
    assert(m.fonts[f as int] == mgr.fonts@[f as int]@);
    let par = match mgr.fonts[f].parent {
        Some(p) => p,
        None => {
            return f;
        },
    };
    assert(par < mgr.families@.len());
    assert(m.families[par as int] == mgr.families@[par as int]@);
    proof {
        lemma_wf_family(mgr, par as int);
    }
    let w = mgr.fonts[f].weight as i32;
    let wd = mgr.fonts[f].width as i32;
    let sl = mgr.fonts[f].slant as i32;
    let fb = mgr.fonts[f].isBold;
    let fi = mgr.fonts[f].isItalic;
    let min_w = mgr.families[par].minWeight as i32;
    let max_w = mgr.families[par].maxWeight as i32;
    let min_s = mgr.families[par].minSlant;
    let max_s = mgr.families[par].maxSlant;
    let b1 = if w < max_w {
        let d = max_w - min_w;
        let h = if d >= 0 {
            d / 2
        } else {
            -((-d) / 2)
        };
        let wt = w + h + 1;
        assert(family_diff_ok(m, par as int, wt, wd)) by {
            assert forall|i: int| 0 <= i < m.families[par as int].styles.len() implies style_diff_ok(
                m.fonts[(#[trigger] m.families[par as int].styles[i]).1 as int],
                wt,
                wd,
            ) by {}
        }
        proof {
            lemma_best_some(m.fonts, m.families[par as int].styles, m.families[par as int].styles.len() as int, wt, wd, sl);
        }
        let t = XeTeXFontMgr_bestMatchFromFamily(mgr, par, wt, wd, sl);
        if min_s == max_s {
            let tt = match t {
                Some(x) => x,
                None => f,
            };
            match best_waw_with_exec(mgr, par, fi, tt) {
                Some(g) => Some(g),
                None => t,
            }
        } else {
            t
        }
    } else {
        Some(f)
    };
    let b2 = if b1 == Some(f) && !fb {
        match first_style_with_exec(mgr, par, true, fi) {
            Some(g) => Some(g),
            None => b1,
        }
    } else {
        b1
    };
    match b2 {
        Some(g) => g,
        None => f,
    }
}

/// What a variant string asks for: the variant string to keep (the engine codes only), the
/// rendering engine (`A`, `O`, `G`, or 0 for none), whether `B` or `I` came, and the size given
/// by `S=`, as its digits before and after the point.
#[derive(Debug, PartialEq)]
pub struct VariantRequest {
    pub variant: Vec<u8>,
    pub engine: u8,
    pub bold: bool,
    pub ital: bool,
    pub size: Option<(Vec<u8>, Vec<u8>)>,
}

pub struct VariantView {
    pub variant: Seq<u8>,
    pub engine: u8,
    pub bold: bool,
    pub ital: bool,
    pub size: Option<(Seq<u8>, Seq<u8>)>,
}

impl View for VariantRequest {
    type V = VariantView;

    open spec fn view(&self) -> VariantView {
        VariantView {
            variant: self.variant@,
            engine: self.engine,
            bold: self.bold,
            ital: self.ital,
            size: match self.size {
                Some(x) => Some((x.0@, x.1@)),
                None => None,
            },
        }
    }
}

/// `out` with a `/` after it, unless it is empty or ends with one.
pub open spec fn sep_slash(out: Seq<u8>) -> Seq<u8> {
    if out.len() > 0 && out.last() != 47 {
        out.push(47)
    } else {
        out
    }
}

/// Where a run of decimal digits from `i` ends.
pub open spec fn digit_run_end(v: Seq<u8>, i: int) -> int
    decreases v.len() - i,
{
    if 0 <= i < v.len() && crate::text::is_ascii_digit(v[i]) {
        digit_run_end(v, i + 1)
    } else {
        i
    }
}

/// Past the rest of a `/`-separated segment from `i`, and its `/`.
pub open spec fn skip_segment(v: Seq<u8>, i: int) -> int {
    let e = crate::specials::dvips::run_until(v, i, v.len() as int, 47u8);
    if e < v.len() {
        e + 1
    } else {
        e
    }
}

/// Reading a run of `B` and `I` from `i`: whether a `B` came, whether an `I` came, and where
/// the run ends.
pub open spec fn bi_run(v: Seq<u8>, i: int) -> (bool, bool, int)
    decreases v.len() - i,
{
    if 0 <= i < v.len() && (v[i] == 66 || v[i] == 73) {
        let (b, it, e) = bi_run(v, i + 1);
        (b || v[i] == 66, it || v[i] == 73, e)
    } else {
        (false, false, i)
    }
}

pub open spec fn aat_word() -> Seq<u8> {
    seq![65u8, 65u8, 84u8]
}

pub open spec fn icu_word() -> Seq<u8> {
    seq![73u8, 67u8, 85u8]
}

pub open spec fn ot_word() -> Seq<u8> {
    seq![79u8, 84u8]
}

pub open spec fn gr_word() -> Seq<u8> {
    seq![71u8, 82u8]
}

/// One segment of a variant string read at `p`: `AAT`, `ICU` (kept as `OT`), `OT`, `GR` choose
/// the engine and are kept; `S=N.N` (the `=` optional) gives the size; otherwise a run of `B`
/// and `I` asks for bold and italic. The rest of the segment is skipped.
pub open spec fn variant_step(v: Seq<u8>, p: int, st: VariantView) -> (VariantView, int) {
    let pa = crate::specials::prefix_at(v, p, aat_word());
    let pi = crate::specials::prefix_at(v, p, icu_word());
    let po = crate::specials::prefix_at(v, p, ot_word());
    let pg = crate::specials::prefix_at(v, p, gr_word());
    if pa {
        (VariantView { variant: sep_slash(st.variant) + aat_word(), engine: 65, ..st }, skip_segment(v, p + 3))
    } else if pi {
        (VariantView { variant: sep_slash(st.variant) + ot_word(), engine: 79, ..st }, skip_segment(v, p + 3))
    } else if po {
        (VariantView { variant: sep_slash(st.variant) + ot_word(), engine: 79, ..st }, skip_segment(v, p + 2))
    } else if pg {
        (VariantView { variant: sep_slash(st.variant) + gr_word(), engine: 71, ..st }, skip_segment(v, p + 2))
    } else if 0 <= p < v.len() && v[p] == 83 {
        let q = if p + 1 < v.len() && v[p + 1] == 61 { p + 2 } else { p + 1 };
        let e1 = digit_run_end(v, q);
        let (frac, e2) = if e1 < v.len() && v[e1] == 46 {
            let e = digit_run_end(v, e1 + 1);
            (v.subrange(e1 + 1, e), e)
        } else {
            (Seq::empty(), e1)
        };
        (VariantView { size: Some((v.subrange(q, e1), frac)), ..st }, skip_segment(v, e2))
    } else {
        let (b, it, e) = bi_run(v, p);
        (VariantView { bold: st.bold || b, ital: st.ital || it, ..st }, skip_segment(v, e))
    }
}

/// Reading a variant string from `p` to its end.
pub open spec fn variant_run(v: Seq<u8>, p: int, st: VariantView) -> VariantView
    decreases v.len() - p,
{
    if p < 0 || p >= v.len() {
        st
    } else {
        let (st2, q) = variant_step(v, p, st);
        if q <= p || q > v.len() {
            st2
        } else {
            variant_run(v, q, st2)
        }
    }
}

/// What a variant string asks for (see `variant_step`).
pub open spec fn parse_variant_spec(v: Seq<u8>) -> VariantView {
    variant_run(
        v,
        0,
        VariantView { variant: Seq::empty(), engine: 0, bold: false, ital: false, size: None },
    )
}

proof fn lemma_digit_run_end(v: Seq<u8>, i: int)
    requires
        0 <= i <= v.len(),
    ensures
        i <= digit_run_end(v, i) <= v.len(),
    decreases v.len() - i,
{
    if i < v.len() && crate::text::is_ascii_digit(v[i]) {
        lemma_digit_run_end(v, i + 1);
    }
}

fn digit_run(v: &[u8], i: usize) -> (r: usize)
    requires
        i <= v@.len(),
    ensures
        r == digit_run_end(v@, i as int),
        i <= r <= v@.len(),
{
    proof {
        lemma_digit_run_end(v@, i as int);
    }
    let mut e = i;
    while e < v.len() && 48 <= v[e] && v[e] <= 57
        invariant
            i <= e <= v@.len(),
            digit_run_end(v@, i as int) == digit_run_end(v@, e as int),
        decreases v@.len() - e,
    {
        e = e + 1;
    }
    e
}

fn skip_seg(v: &[u8], i: usize) -> (r: usize)
    requires
        i <= v@.len(),
    ensures
        r == skip_segment(v@, i as int),
        i <= r <= v@.len(),
        i < v@.len() ==> i < r,
{
    let mut e = i;
    proof {
        lemma_run_until_bounds(v@, i as int);
    }
    while e < v.len() && v[e] != 47
        invariant
            i <= e <= v@.len(),
            crate::specials::dvips::run_until(v@, i as int, v@.len() as int, 47u8) == crate::specials::dvips::run_until(v@, e as int, v@.len() as int, 47u8),
        decreases v@.len() - e,
    {
        e = e + 1;
    }
    if e < v.len() {
        e + 1
    } else {
        e
    }
}

proof fn lemma_run_until_bounds(v: Seq<u8>, i: int)
    requires
        0 <= i <= v.len(),
    ensures
        i <= crate::specials::dvips::run_until(v, i, v.len() as int, 47u8) <= v.len(),
    decreases v.len() - i,
{
    if i < v.len() && v[i] != 47 {
        lemma_run_until_bounds(v, i + 1);
    }
}

fn push_sep(out: &mut Vec<u8>)
    ensures
        final(out)@ == sep_slash(old(out)@),
{
    if out.len() > 0 && out[out.len() - 1] != 47 {
        out.push(47u8);
    }
}

fn bi_run_exec(v: &[u8], i: usize) -> (r: (bool, bool, usize))
    requires
        i <= v@.len(),
    ensures
        r == (bi_run(v@, i as int).0, bi_run(v@, i as int).1, bi_run(v@, i as int).2 as usize),
        i <= r.2 <= v@.len(),
        bi_run(v@, i as int).2 == r.2,
    decreases v@.len() - i,
{
    if i < v.len() && (v[i] == 66 || v[i] == 73) {
        let (b, it, e) = bi_run_exec(v, i + 1);
        (b || v[i] == 66, it || v[i] == 73, e)
    } else {
        (false, false, i)
    }
}

fn variant_step_exec(v: &[u8], p: usize, st: &mut VariantRequest) -> (q: usize)
    requires
        p < v@.len(),
    ensures
        (final(st)@, q as int) == variant_step(v@, p as int, old(st)@),
        p < q <= v@.len(),
{
    let aat: [u8; 3] = [65u8, 65u8, 84u8];
    let icu: [u8; 3] = [73u8, 67u8, 85u8];
    let ot: [u8; 2] = [79u8, 84u8];
    let gr: [u8; 2] = [71u8, 82u8];
    assert(aat@ == aat_word() && icu@ == icu_word() && ot@ == ot_word() && gr@ == gr_word());
    let n = v.len();
    if crate::specials::bytes_at(v, p, aat.as_slice()) {
        assert(p + 3 <= n);
        st.engine = 65;
        let ghost o = st.variant@;
        push_sep(&mut st.variant);
        st.variant.push(65u8);
        st.variant.push(65u8);
        st.variant.push(84u8);
        assert(st.variant@ =~= sep_slash(o) + aat_word());
        skip_seg(v, p + 3)
    } else if crate::specials::bytes_at(v, p, icu.as_slice()) {
        assert(p + 3 <= n);
        st.engine = 79;
        let ghost o = st.variant@;
        push_sep(&mut st.variant);
        st.variant.push(79u8);
        st.variant.push(84u8);
        assert(st.variant@ =~= sep_slash(o) + ot_word());
        skip_seg(v, p + 3)
    } else if crate::specials::bytes_at(v, p, ot.as_slice()) {
        assert(p + 2 <= n);
        st.engine = 79;
        let ghost o = st.variant@;
        push_sep(&mut st.variant);
        st.variant.push(79u8);
        st.variant.push(84u8);
        assert(st.variant@ =~= sep_slash(o) + ot_word());
        skip_seg(v, p + 2)
    } else if crate::specials::bytes_at(v, p, gr.as_slice()) {
        assert(p + 2 <= n);
        st.engine = 71;
        let ghost o = st.variant@;
        push_sep(&mut st.variant);
        st.variant.push(71u8);
        st.variant.push(82u8);
        assert(st.variant@ =~= sep_slash(o) + gr_word());
        skip_seg(v, p + 2)
    } else if v[p] == 83 {
        let q0 = if p + 1 < v.len() && v[p + 1] == 61 {
            p + 2
        } else {
            p + 1
        };
        let e1 = digit_run(v, q0);
        let int_digits = crate::text::slice_to_vec(&v[q0..e1]);
        let (frac, e2) = if e1 < v.len() && v[e1] == 46 {
            let e = digit_run(v, e1 + 1);
            (crate::text::slice_to_vec(&v[e1 + 1..e]), e)
        } else {
            (Vec::new(), e1)
        };
        st.size = Some((int_digits, frac));
        skip_seg(v, e2)
    } else {
        let (b, it, e) = bi_run_exec(v, p);
        st.bold = st.bold || b;
        st.ital = st.ital || it;
        skip_seg(v, e)
    }
}

/// Reads a variant string (see `parse_variant_spec`).
pub fn parse_variant(v: &[u8]) -> (r: VariantRequest)
    ensures
        r@ == parse_variant_spec(v@),
{
    let mut st = VariantRequest { variant: Vec::new(), engine: 0, bold: false, ital: false, size: None };
    assert(st@ == (VariantView { variant: Seq::empty(), engine: 0, bold: false, ital: false, size: None }));
    let mut p: usize = 0;
    while p < v.len()
        invariant
            p <= v@.len(),
            parse_variant_spec(v@) == variant_run(v@, p as int, st@),
        decreases v@.len() - p,
    {
        p = variant_step_exec(v, p, &mut st);
    }
    st
}

/// The design size of a font as a TeX fixed-point number of points: tenths of a point times
/// 2^16 / 10, in 32-bit unsigned arithmetic.
pub open spec fn design_size_fixed_spec(design: u32) -> i32 {
    (((design as int * 65536) % 0x1_0000_0000) / 10) as i32
}

/// The design size of a font as a TeX fixed-point number (see `design_size_fixed_spec`).
pub fn design_size_fixed(design: u32) -> (r: i32)
    ensures
        r == design_size_fixed_spec(design),
{
    let shifted: u32 = ((design as u64 * 65536) % 0x1_0000_0000) as u32;
    #[verifier::truncate]
    ((shifted / 10) as i32)
}

/// Whether font `f` has a family with styles (so that `B` and `I` can be matched).
fn styled_family(mgr: &XeTeXFontMgr, f: usize) -> (r: bool)
    requires
        mgr.wf(),
        f < mgr.fonts@.len(),
    ensures
        r == has_styled_family(mgr@, f),
{
    assert(mgr@.fonts[f as int] == mgr.fonts@[f as int]@);
    match mgr.fonts[f].parent {
        Some(p) => {
            assert(mgr@.families[p as int] == mgr.families@[p as int]@);
            mgr.families[p].styles.len() > 0
        },
        None => false,
    }
}

/// The font that a variant string leads to from `f`: the italic face when `I` was asked for,
/// then the bold face of that when `B` was (each only for a font whose family has styles).
pub open spec fn variant_font(m: MgrView, f: usize, req: VariantView) -> usize {
    let f1 = if req.ital && has_styled_family(m, f) { italic_match(m, f) } else { f };
    if req.bold && has_styled_family(m, f1) {
        bold_match(m, f1)
    } else {
        f1
    }
}

fn variant_font_exec(mgr: &XeTeXFontMgr, f: usize, req: &VariantRequest) -> (r: usize)
    requires
        mgr.wf(),
        f < mgr.fonts@.len(),
    ensures
        r == variant_font(mgr@, f, req@),
        r < mgr.fonts@.len(),
{
    let mut g = f;
    if req.ital && styled_family(mgr, g) {
        g = match_italic(mgr, g);
    }
    if req.bold && styled_family(mgr, g) {
        g = match_bold(mgr, g);
    }
    g
}

/// Applies a variant string to font `f` found by name: records the engine asked for and returns
/// the font chosen (see `variant_font`) with what the variant asked for.
#[allow(non_snake_case)]
pub fn XeTeXFontMgr_applyVariant(mgr: &mut XeTeXFontMgr, f: usize, variant: &[u8]) -> (r: (usize, VariantRequest))
    requires
        old(mgr).wf(),
        f < old(mgr).fonts@.len(),
    ensures
        final(mgr).wf(),
        r.1@ == parse_variant_spec(variant@),
        final(mgr)@ == (MgrView { reqEngine: r.1.engine, ..old(mgr)@ }),
        r.0 == variant_font(old(mgr)@, f, r.1@),
        r.0 < final(mgr).fonts@.len(),
{
    let req = parse_variant(variant);
    let g = variant_font_exec(mgr, f, &req);
    XeTeXFontMgr_setReqEngine(mgr, req.engine);
    (g, req)
}

/// The engine asked for by the last variant applied (0 for none).
#[allow(non_snake_case)]
pub fn XeTeXFontMgr_getReqEngine(mgr: &XeTeXFontMgr) -> (r: u8)
    ensures
        r == mgr.reqEngine,
{
    mgr.reqEngine
}

/// Records the engine asked for.
#[allow(non_snake_case)]
pub fn XeTeXFontMgr_setReqEngine(mgr: &mut XeTeXFontMgr, reqEngine: u8)
    requires
        old(mgr).wf(),
    ensures
        final(mgr).wf(),
        final(mgr)@ == (MgrView { reqEngine, ..old(mgr)@ }),
{
    mgr.reqEngine = reqEngine;
}

/// The full name of the font of platform font `r` (its PostScript name when it has no full
/// name).
#[allow(non_snake_case)]
pub fn XeTeXFontMgr_getFullName(mgr: &XeTeXFontMgr, r: u64) -> (n: Vec<u8>)
    requires
        mgr.wf(),
        has_ref(mgr.m_platformRefToFont@, r),
    ensures
        exists|i: int|
            0 <= i < mgr.m_platformRefToFont@.len() && (#[trigger] mgr.m_platformRefToFont@[i]).0 == r && ({
                let f = mgr@.fonts[mgr.m_platformRefToFont@[i].1 as int];
                n@ == match f.m_fullName {
                    Some(x) => x,
                    None => f.m_psName,
                }
            }),
{
    let mut i: usize = 0;
    while i < mgr.m_platformRefToFont.len()
        invariant
            mgr.wf(),
            has_ref(mgr.m_platformRefToFont@, r),
            i <= mgr.m_platformRefToFont@.len(),
            forall|j: int| 0 <= j < i ==> mgr.m_platformRefToFont@[j].0 != r,
        decreases mgr.m_platformRefToFont@.len() - i,
    {
        if mgr.m_platformRefToFont[i].0 == r {
            let f = mgr.m_platformRefToFont[i].1;
            assert(mgr@.fonts[f as int] == mgr.fonts@[f as int]@);
            let n = match &mgr.fonts[f].m_fullName {
                Some(x) => crate::text::slice_to_vec(x.as_slice()),
                None => crate::text::slice_to_vec(mgr.fonts[f].m_psName.as_slice()),
            };
            return n;
        }
        i = i + 1;
    }
    proof {
        let k = choose|k: int| 0 <= k < mgr.m_platformRefToFont@.len() && (#[trigger] mgr.m_platformRefToFont@[k]).0 == r;
        assert(mgr.m_platformRefToFont@[k].0 != r);
    }
    Vec::new()
}

/// A name list with `x` appended unless it holds it.
pub open spec fn append_name(l: Seq<Seq<u8>>, x: Seq<u8>) -> Seq<Seq<u8>> {
    if l.contains(x) {
        l
    } else {
        l.push(x)
    }
}

/// A name list with `x` put first (see `XeTeXFontMgr_prependToList`).
pub open spec fn prepend_name(l: Seq<Seq<u8>>, x: Seq<u8>) -> Seq<Seq<u8>> {
    seq![x] + without_first(l, x)
}

/// An entry of a font's `name` table: its platform, encoding, language and name ids, and its
/// text in UTF-8 where it could be converted.
pub struct SfntName {
    pub platform_id: u16,
    pub encoding_id: u16,
    pub language_id: u16,
    pub name_id: u16,
    pub utf8: Option<Vec<u8>>,
}

/// The lists that the names of a `name` table are gathered in: full names (id 4), families
/// (1), styles (2), typographic families (16) and typographic styles (17).
pub struct NameLists {
    pub full: Seq<Seq<u8>>,
    pub family: Seq<Seq<u8>>,
    pub style: Seq<Seq<u8>>,
    pub family16: Seq<Seq<u8>>,
    pub style17: Seq<Seq<u8>>,
}

/// One `name` entry gathered: a Macintosh Roman English entry (platform 1, encoding 0, language
/// 0) is preferred and put first; a Unicode or Windows entry (platform 0 or 3) is appended;
/// others are skipped, as are entries for other ids.
pub open spec fn sfnt_name_step(l: NameLists, pid: u16, eid: u16, lid: u16, nid: u16, utf8: Option<Seq<u8>>) -> NameLists {
    let preferred = pid == 1 && eid == 0 && lid == 0;
    let convertible = preferred || pid == 0 || pid == 3;
    if !(nid == 4 || nid == 1 || nid == 2 || nid == 16 || nid == 17) || !convertible || utf8 is None {
        l
    } else {
        let x = utf8.unwrap();
        let put = |lst: Seq<Seq<u8>>| if preferred { prepend_name(lst, x) } else { append_name(lst, x) };
        if nid == 4 {
            NameLists { full: put(l.full), ..l }
        } else if nid == 1 {
            NameLists { family: put(l.family), ..l }
        } else if nid == 2 {
            NameLists { style: put(l.style), ..l }
        } else if nid == 16 {
            NameLists { family16: put(l.family16), ..l }
        } else {
            NameLists { style17: put(l.style17), ..l }
        }
    }
}

pub open spec fn opt_seq(o: Option<Vec<u8>>) -> Option<Seq<u8>> {
    match o {
        Some(x) => Some(x@),
        None => None,
    }
}

/// The lists after gathering the first `n` entries of a `name` table.
pub open spec fn sfnt_names_fold(recs: Seq<SfntName>, n: int) -> NameLists
    decreases n,
{
    if n <= 0 {
        NameLists { full: Seq::empty(), family: Seq::empty(), style: Seq::empty(), family16: Seq::empty(), style17: Seq::empty() }
    } else {
        let r = recs[n - 1];
        sfnt_name_step(sfnt_names_fold(recs, n - 1), r.platform_id, r.encoding_id, r.language_id, r.name_id, opt_seq(r.utf8))
    }
}

fn add_name(lst: &mut Vec<Vec<u8>>, x: &[u8], preferred: bool)
    ensures
        names_view(final(lst)@) == if preferred { prepend_name(names_view(old(lst)@), x@) } else { append_name(names_view(old(lst)@), x@) },
{
    if preferred {
        XeTeXFontMgr_prependToList(lst, x);
    } else {
        XeTeXFontMgr_appendToList(lst, x);
    }
}

/// The names that an sfnt font with PostScript name `ps` and `name` table `recs` gets (see
/// `sfnt_names_fold`): the typographic family and style names, where there are any, take the
/// place of the family and style names.
pub open spec fn sfnt_names_are(r: NamesView, ps: Seq<u8>, recs: Seq<SfntName>) -> bool {
    let l = sfnt_names_fold(recs, recs.len() as int);
    &&& r.m_psName == ps
    &&& r.m_fullNames == l.full
    &&& r.m_familyNames == if l.family16.len() > 0 { l.family16 } else { l.family }
    &&& r.m_styleNames == if l.style17.len() > 0 { l.style17 } else { l.style }
    &&& r.m_subFamily.len() == 0
}

/// The names of an sfnt font from the entries of its `name` table (see `sfnt_name_step`): the
/// typographic family and style names, where there are any, take the place of the family and
/// style names.
#[allow(non_snake_case)]
pub fn XeTeXFontMgr_FC_readNames_sfnt(psName: &[u8], recs: &Vec<SfntName>) -> (r: XeTeXFontMgrNameCollection)
    ensures
        sfnt_names_are(r@, psName@, recs@),
{
    let mut full: Vec<Vec<u8>> = Vec::new();
    let mut family: Vec<Vec<u8>> = Vec::new();
    let mut style: Vec<Vec<u8>> = Vec::new();
    let mut family16: Vec<Vec<u8>> = Vec::new();
    let mut style17: Vec<Vec<u8>> = Vec::new();
    let mut i: usize = 0;
    assert(names_view(Seq::<Vec<u8>>::empty()) =~= Seq::<Seq<u8>>::empty());
    while i < recs.len()
        invariant
            i <= recs@.len(),
            ({
                let l = sfnt_names_fold(recs@, i as int);
                &&& names_view(full@) == l.full
                &&& names_view(family@) == l.family
                &&& names_view(style@) == l.style
                &&& names_view(family16@) == l.family16
                &&& names_view(style17@) == l.style17
            }),
        decreases recs@.len() - i,
    {
        let rec = &recs[i];
        let nid = rec.name_id;
        let preferred = rec.platform_id == 1 && rec.encoding_id == 0 && rec.language_id == 0;
        let convertible = preferred || rec.platform_id == 0 || rec.platform_id == 3;
        if (nid == 4 || nid == 1 || nid == 2 || nid == 16 || nid == 17) && convertible {
            match &rec.utf8 {
                Some(x) => {
                    if nid == 4 {
                        add_name(&mut full, x.as_slice(), preferred);
                    } else if nid == 1 {
                        add_name(&mut family, x.as_slice(), preferred);
                    } else if nid == 2 {
                        add_name(&mut style, x.as_slice(), preferred);
                    } else if nid == 16 {
                        add_name(&mut family16, x.as_slice(), preferred);
                    } else {
                        add_name(&mut style17, x.as_slice(), preferred);
                    }
                },
                None => {},
            }
        }
        i = i + 1;
    }
    let fam = if family16.len() > 0 {
        family16
    } else {
        family
    };
    let sty = if style17.len() > 0 {
        style17
    } else {
        style
    };
    XeTeXFontMgrNameCollection {
        m_familyNames: fam,
        m_styleNames: sty,
        m_fullNames: full,
        m_psName: crate::text::slice_to_vec(psName),
        m_subFamily: Vec::new(),
    }
}

/// The names after appending each of `l`'s first `n` names unless it is there already.
pub open spec fn append_all(acc: Seq<Seq<u8>>, l: Seq<Seq<u8>>, n: int) -> Seq<Seq<u8>>
    decreases n,
{
    if n <= 0 {
        acc
    } else {
        append_name(append_all(acc, l, n - 1), l[n - 1])
    }
}

fn append_all_exec(l: &Vec<Vec<u8>>) -> (r: Vec<Vec<u8>>)
    ensures
        names_view(r@) == append_all(Seq::empty(), names_view(l@), l@.len() as int),
{
    let mut r: Vec<Vec<u8>> = Vec::new();
    assert(names_view(r@) =~= Seq::<Seq<u8>>::empty());
    let mut i: usize = 0;
    while i < l.len()
        invariant
            i <= l@.len(),
            names_view(r@) == append_all(Seq::empty(), names_view(l@), i as int),
        decreases l@.len() - i,
    {
        XeTeXFontMgr_appendToList(&mut r, l[i].as_slice());
        i = i + 1;
    }
    r
}

/// The names that a font which is not an sfnt gets from what the font database lists: its
/// full names, families and styles (each without repeats); when it has no full name, the first
/// family name followed by a space and the first style name (if any) serves as one.
pub open spec fn pattern_names_are(
    r: NamesView,
    ps: Seq<u8>,
    fullnames: Seq<Seq<u8>>,
    families: Seq<Seq<u8>>,
    styles: Seq<Seq<u8>>,
) -> bool {
    let full = append_all(Seq::empty(), fullnames, fullnames.len() as int);
    let fam = append_all(Seq::empty(), families, families.len() as int);
    let sty = append_all(Seq::empty(), styles, styles.len() as int);
    &&& r.m_psName == ps
    &&& r.m_familyNames == fam
    &&& r.m_styleNames == sty
    &&& r.m_fullNames == if full.len() > 0 {
        full
    } else {
        seq![if sty.len() > 0 { fam[0] + seq![32u8] + sty[0] } else { fam[0] }]
    }
    &&& r.m_subFamily.len() == 0
}

/// The names of a font that is not an sfnt, from what the font database says: its full names,
/// families and styles (each without repeats); when it has no full name, the first family name
/// followed by a space and the first style name (if any) serves as one.
#[allow(non_snake_case)]
pub fn XeTeXFontMgr_FC_readNames_pattern(
    psName: &[u8],
    fullnames: &Vec<Vec<u8>>,
    families: &Vec<Vec<u8>>,
    styles: &Vec<Vec<u8>>,
) -> (r: XeTeXFontMgrNameCollection)
    requires
        fullnames@.len() == 0 ==> families@.len() > 0,
    ensures
        pattern_names_are(r@, psName@, names_view(fullnames@), names_view(families@), names_view(styles@)),
{
    let mut full = append_all_exec(fullnames);
    let fam = append_all_exec(families);
    let sty = append_all_exec(styles);
    proof {
        lemma_append_all_nonempty(names_view(fullnames@), fullnames@.len() as int);
        lemma_append_all_nonempty(names_view(families@), families@.len() as int);
    }
    assert(names_view(fam@).len() == fam@.len());
    assert(names_view(sty@).len() == sty@.len());
    if full.len() == 0 {
        assert(names_view(fam@)[0] == fam@[0]@);
        let mut name = crate::text::slice_to_vec(fam[0].as_slice());
        if sty.len() > 0 {
            name.push(32u8);
            let ghost n0 = name@;
            let mut k: usize = 0;
            while k < sty[0].len()
                invariant
                    sty@.len() > 0,
                    k <= sty@[0]@.len(),
                    name@ == n0 + sty@[0]@.subrange(0, k as int),
                decreases sty@[0]@.len() - k,
            {
                name.push(sty[0][k]);
                k = k + 1;
                assert(name@ =~= n0 + sty@[0]@.subrange(0, k as int));
            }
            assert(sty@[0]@.subrange(0, sty@[0]@.len() as int) =~= sty@[0]@);
            assert(names_view(sty@)[0] == sty@[0]@);
            assert(name@ =~= names_view(fam@)[0] + seq![32u8] + names_view(sty@)[0]);
        } else {
            assert(name@ =~= names_view(fam@)[0]);
        }
        full.push(name);
        assert(names_view(full@) =~= seq![name@]);
    }
    XeTeXFontMgrNameCollection {
        m_familyNames: fam,
        m_styleNames: sty,
        m_fullNames: full,
        m_psName: crate::text::slice_to_vec(psName),
        m_subFamily: Vec::new(),
    }
}

/// Where the names of a font come from: nothing (the font could not be opened or has no
/// PostScript name); the `name` table of an sfnt font; or what the font database lists for
/// another font. Each with the font's PostScript name.
#[allow(non_snake_case)]
pub enum FontNameSource {
    Unreadable,
    Sfnt { psName: Vec<u8>, records: Vec<SfntName> },
    Pattern { psName: Vec<u8>, fullnames: Vec<Vec<u8>>, families: Vec<Vec<u8>>, styles: Vec<Vec<u8>> },
}

/// The names of a font (see `sfnt_names_are` and `pattern_names_are`); none for a font that
/// could not be read.
#[allow(non_snake_case)]
pub fn XeTeXFontMgr_FC_readNames(source: &FontNameSource) -> (r: XeTeXFontMgrNameCollection)
    requires
        source matches FontNameSource::Pattern { fullnames, families, .. } ==> (fullnames@.len() == 0 ==> families@.len() > 0),
    ensures
        match source {
            FontNameSource::Unreadable => r@.m_psName.len() == 0 && r@.m_fullNames.len() == 0
                && r@.m_familyNames.len() == 0 && r@.m_styleNames.len() == 0 && r@.m_subFamily.len() == 0,
            FontNameSource::Sfnt { psName, records } => sfnt_names_are(r@, psName@, records@),
            FontNameSource::Pattern { psName, fullnames, families, styles } => pattern_names_are(
                r@,
                psName@,
                names_view(fullnames@),
                names_view(families@),
                names_view(styles@),
            ),
        },
{
    match source {
        FontNameSource::Unreadable => XeTeXFontMgrNameCollection::new(),
        FontNameSource::Sfnt { psName, records } => XeTeXFontMgr_FC_readNames_sfnt(psName.as_slice(), records),
        FontNameSource::Pattern { psName, fullnames, families, styles } => XeTeXFontMgr_FC_readNames_pattern(
            psName.as_slice(),
            fullnames,
            families,
            styles,
        ),
    }
}

proof fn lemma_append_all_nonempty(l: Seq<Seq<u8>>, n: int)
    requires
        0 <= n <= l.len(),
    ensures
        n > 0 ==> append_all(Seq::empty(), l, n).len() > 0,
    decreases n,
{
    if n > 0 {
        lemma_append_all_nonempty(l, n - 1);
    }
}

/// The fields of a font's OS/2 table that its style is read from.
#[allow(non_snake_case)]
#[derive(Clone, Copy, PartialEq, Eq, Structural, Debug)]
pub struct Os2Style {
    pub usWeightClass: u16,
    pub usWidthClass: u16,
    pub fsSelection: u16,
}

impl FontStyleInfo {
    /// The style of a font before its tables are read: design size 100 (ten points), nothing
    /// else known.
    pub fn new() -> (r: FontStyleInfo)
        ensures
            r == (FontStyleInfo {
                opSizeInfo: XeTeXFontMgrOpSizeRec { designSize: 100, subFamilyID: 0, nameCode: 0, minSize: 0, maxSize: 0 },
                weight: 0,
                width: 0,
                slant: 0,
                isReg: false,
                isBold: false,
                isItalic: false,
            }),
    {
        FontStyleInfo {
            opSizeInfo: XeTeXFontMgrOpSizeRec { designSize: 100, subFamilyID: 0, nameCode: 0, minSize: 0, maxSize: 0 },
            weight: 0,
            width: 0,
            slant: 0,
            isReg: false,
            isBold: false,
            isItalic: false,
        }
    }
}

/// A font's style from its tables: the `size` parameters give the design size, and the size
/// range unless all of it is zero; the OS/2 table gives weight, width and the regular (bit 6),
/// bold (bit 5) and italic (bit 0) bits of `fsSelection`; the bold (bit 0) and italic (bit 1)
/// bits of the `head` table's `macStyle` add to those; the slant comes from the `post` table.
pub open spec fn base_style_spec(
    info: FontStyleInfo,
    size: Option<XeTeXFontMgrOpSizeRec>,
    os2: Option<Os2Style>,
    mac_style: Option<u16>,
    slant: Option<i16>,
) -> FontStyleInfo {
    let i1 = match size {
        Some(z) => if z.subFamilyID == 0 && z.nameCode == 0 && z.minSize == 0 && z.maxSize == 0 {
            FontStyleInfo { opSizeInfo: XeTeXFontMgrOpSizeRec { designSize: z.designSize, ..info.opSizeInfo }, ..info }
        } else {
            FontStyleInfo { opSizeInfo: z, ..info }
        },
        None => info,
    };
    let i2 = match os2 {
        Some(o) => FontStyleInfo {
            weight: o.usWeightClass,
            width: o.usWidthClass,
            isReg: o.fsSelection & 0x40 != 0,
            isBold: o.fsSelection & 0x20 != 0,
            isItalic: o.fsSelection & 1 != 0,
            ..i1
        },
        None => i1,
    };
    let i3 = match mac_style {
        Some(ms) => FontStyleInfo { isBold: i2.isBold || ms & 1 != 0, isItalic: i2.isItalic || ms & 2 != 0, ..i2 },
        None => i2,
    };
    match slant {
        Some(sl) => FontStyleInfo { slant: sl, ..i3 },
        None => i3,
    }
}

/// Reads a font's style from what its tables hold (see `base_style_spec`); a table that is
/// missing is `None`, and `slant` is the one the `post` table's italic angle gives.
#[allow(non_snake_case)]
pub fn XeTeXFontMgr_base_getOpSizeRecAndStyleFlags(
    info: FontStyleInfo,
    size: Option<XeTeXFontMgrOpSizeRec>,
    os2: Option<Os2Style>,
    macStyle: Option<u16>,
    slant: Option<i16>,
) -> (r: FontStyleInfo)
    ensures
        r == base_style_spec(info, size, os2, macStyle, slant),
{
    let mut r = info;
    match size {
        Some(z) => {
            r.opSizeInfo.designSize = z.designSize;
            if !(z.subFamilyID == 0 && z.nameCode == 0 && z.minSize == 0 && z.maxSize == 0) {
                r.opSizeInfo.subFamilyID = z.subFamilyID;
                r.opSizeInfo.nameCode = z.nameCode;
                r.opSizeInfo.minSize = z.minSize;
                r.opSizeInfo.maxSize = z.maxSize;
            }
        },
        None => {},
    }
    match os2 {
        Some(o) => {
            r.weight = o.usWeightClass;
            r.width = o.usWidthClass;
            r.isReg = o.fsSelection & 0x40 != 0;
            r.isBold = o.fsSelection & 0x20 != 0;
            r.isItalic = o.fsSelection & 1 != 0;
        },
        None => {},
    }
    match macStyle {
        Some(ms) => {
            if ms & 1 != 0 {
                r.isBold = true;
            }
            if ms & 2 != 0 {
                r.isItalic = true;
            }
        },
        None => {},
    }
    match slant {
        Some(sl) => {
            r.slant = sl;
        },
        None => {},
    }
    r
}

/// Where the font file gave neither weight nor width, the font database's weight, width and
/// slant take their place (each as it comes, cut to 16 bits).
#[allow(non_snake_case)]
pub fn XeTeXFontMgr_FC_getOpSizeRecAndStyleFlags(
    info: FontStyleInfo,
    weight: Option<i32>,
    width: Option<i32>,
    slant: Option<i32>,
) -> (r: FontStyleInfo)
    ensures
        info.weight == 0 && info.width == 0 ==> r == (FontStyleInfo {
            weight: match weight { Some(v) => v as u16, None => info.weight },
            width: match width { Some(v) => v as u16, None => info.width },
            slant: match slant { Some(v) => v as i16, None => info.slant },
            ..info
        }),
        !(info.weight == 0 && info.width == 0) ==> r == info,
{
    let mut r = info;
    if info.weight == 0 && info.width == 0 {
        match weight {
            Some(v) => {
                r.weight = #[verifier::truncate] (v as u16);
            },
            None => {},
        }
        match width {
            Some(v) => {
                r.width = #[verifier::truncate] (v as u16);
            },
            None => {},
        }
        match slant {
            Some(v) => {
                r.slant = #[verifier::truncate] (v as i16);
            },
            None => {},
        }
    }
    r
}

/// The family part of a font name for the platform search: what precedes its first hyphen, when
/// there is one that is not the first byte.
pub open spec fn hyphen_family(name: Seq<u8>) -> Option<Seq<u8>> {
    match crate::text::first_index_of(name, 45u8) {
        Some(h) => if h != 0 { Some(name.take(h)) } else { None },
        None => None,
    }
}

/// Whether a font of the font database answers the name searched for: one of its full names is
/// the name; or one of its families is the name, or the family part of it (see
/// `hyphen_family`); or a family, a space and one of its styles make the name.
pub open spec fn pattern_matches_spec(
    name: Seq<u8>,
    fullnames: Seq<Seq<u8>>,
    families: Seq<Seq<u8>>,
    styles: Seq<Seq<u8>>,
) -> bool {
    ||| fullnames.contains(name)
    ||| exists|i: int|
        0 <= i < families.len() && (families[i] == name || hyphen_family(name) == Some(
            families[i],
        ) || exists|j: int| 0 <= j < styles.len() && #[trigger] (families[i] + seq![32u8] + styles[j]) == name)
}

fn is_family_style(fam: &[u8], sty: &[u8], name: &[u8]) -> (r: bool)
    ensures
        r == (fam@ + seq![32u8] + sty@ == name@),
{
    if fam.len() as u128 + 1 + sty.len() as u128 != name.len() as u128 {
        proof {
            if fam@ + seq![32u8] + sty@ == name@ {
                assert((fam@ + seq![32u8] + sty@).len() == fam@.len() + 1 + sty@.len());
            }
        }
        return false;
    }
    let n = fam.len();
    if !crate::text::starts_with(name, fam) || name[n] != 32 {
        proof {
            if fam@ + seq![32u8] + sty@ == name@ {
                assert(name@.subrange(0, n as int) =~= fam@);
                assert(name@[n as int] == 32u8);
            }
        }
        return false;
    }
    let rest = &name[n + 1..name.len()];
    let r = crate::text::bytes_eq(rest, sty);
    proof {
        if r {
            assert(name@ =~= fam@ + seq![32u8] + sty@);
        } else if fam@ + seq![32u8] + sty@ == name@ {
            assert(rest@ =~= sty@);
        }
    }
    r
}

/// Whether a font of the font database answers the name searched for (see
/// `pattern_matches_spec`).
#[allow(non_snake_case)]
pub fn XeTeXFontMgr_FC_patternMatches(
    name: &[u8],
    fullnames: &Vec<Vec<u8>>,
    families: &Vec<Vec<u8>>,
    styles: &Vec<Vec<u8>>,
) -> (r: bool)
    ensures
        r == pattern_matches_spec(name@, names_view(fullnames@), names_view(families@), names_view(styles@)),
{
    let ghost fv = names_view(fullnames@);
    let ghost famv = names_view(families@);
    let ghost stv = names_view(styles@);
    match find_name(fullnames, name) {
        Some(i) => {
            proof {
                lemma_first_pos(fv, name@);
            }
            return true;
        },
        None => {
            proof {
                lemma_first_pos(fv, name@);
            }
        },
    }
    proof {
        crate::text::lemma_first_index_of(name@, 45u8);
    }
    let hf: Option<&[u8]> = match crate::text::find_byte(name, 45u8) {
        Some(h) => if h != 0 {
            Some(&name[0..h])
        } else {
            None
        },
        None => None,
    };
    assert(match hf {
        Some(x) => hyphen_family(name@) == Some(x@),
        None => hyphen_family(name@) is None,
    });
    let mut i: usize = 0;
    while i < families.len()
        invariant
            i <= families@.len(),
            famv == names_view(families@),
            stv == names_view(styles@),
            match hf {
                Some(x) => hyphen_family(name@) == Some(x@),
                None => hyphen_family(name@) is None,
            },
            forall|a: int| 0 <= a < i ==> !(famv[a] == name@ || hyphen_family(name@) == Some(famv[a]) || exists|j: int|
                0 <= j < stv.len() && #[trigger] (famv[a] + seq![32u8] + stv[j]) == name@),
        decreases families@.len() - i,
    {
        let f = families[i].as_slice();
        assert(f@ == famv[i as int]);
        let mut hit = crate::text::bytes_eq(f, name);
        if !hit {
            match hf {
                Some(x) => {
                    hit = crate::text::bytes_eq(x, f);
                },
                None => {},
            }
        }
        if hit {
            assert(0 <= i < famv.len() && (famv[i as int] == name@ || hyphen_family(name@) == Some(famv[i as int])));
            return true;
        }
        let mut j: usize = 0;
        while j < styles.len()
            invariant
                j <= styles@.len(),
                stv == names_view(styles@),
                famv == names_view(families@),
                i < families@.len(),
                f@ == famv[i as int],
                forall|b: int| 0 <= b < j ==> #[trigger] (famv[i as int] + seq![32u8] + stv[b]) != name@,
            decreases styles@.len() - j,
        {
            assert(styles@[j as int]@ == stv[j as int]);
            if is_family_style(f, styles[j].as_slice(), name) {
                assert(famv[i as int] + seq![32u8] + stv[j as int] == name@);
                return true;
            }
            j = j + 1;
        }
        i = i + 1;
    }
    false
}

/// Whether a font of the font database belongs to one of the families listed: one of its family
/// names is among them.
#[allow(non_snake_case)]
pub fn XeTeXFontMgr_FC_isFamilyMember(families: &Vec<Vec<u8>>, familyNames: &Vec<Vec<u8>>) -> (r: bool)
    ensures
        r == exists|i: int| 0 <= i < families@.len() && names_view(familyNames@).contains(#[trigger] families@[i]@),
{
    let mut i: usize = 0;
    while i < families.len()
        invariant
            i <= families@.len(),
            forall|a: int| 0 <= a < i ==> !names_view(familyNames@).contains(#[trigger] families@[a]@),
        decreases families@.len() - i,
    {
        match find_name(familyNames, families[i].as_slice()) {
            Some(_) => {
                proof {
                    lemma_first_pos(names_view(familyNames@), families@[i as int]@);
                }
                return true;
            },
            None => {
                proof {
                    lemma_first_pos(names_view(familyNames@), families@[i as int]@);
                }
            },
        }
        i = i + 1;
    }
    false
}

/// Every entry of `a` stands at the same place in `b`.
pub open spec fn index_prefix<K>(a: Seq<(K, usize)>, b: Seq<(K, usize)>) -> bool {
    a.len() <= b.len() && forall|j: int| 0 <= j < a.len() ==> #[trigger] b[j] == a[j]
}

/// Every key of `a` is a key of `b`.
pub open spec fn keys_within(a: Seq<(Seq<u8>, usize)>, b: Seq<(Seq<u8>, usize)>) -> bool {
    forall|j: int| 0 <= j < a.len() ==> key_pos(b, #[trigger] a[j].0) is Some
}

/// `m2` holds all that `m` holds: the entries of its name and platform indices stay where they
/// are, no family is lost, and no family loses a style.
pub open spec fn mgr_grows(m: MgrView, m2: MgrView) -> bool {
    &&& index_prefix(m.m_nameToFont, m2.m_nameToFont)
    &&& index_prefix(m.m_psNameToFont, m2.m_psNameToFont)
    &&& index_prefix(m.m_nameToFamily, m2.m_nameToFamily)
    &&& index_prefix(m.m_platformRefToFont, m2.m_platformRefToFont)
    &&& m.families.len() <= m2.families.len()
    &&& forall|k: int| 0 <= k < m.families.len() ==> keys_within(#[trigger] m.families[k].styles, m2.families[k].styles)
}

proof fn lemma_keys_within_refl(a: Seq<(Seq<u8>, usize)>)
    ensures
        keys_within(a, a),
{
    assert forall|j: int| 0 <= j < a.len() implies key_pos(a, #[trigger] a[j].0) is Some by {
        lemma_key_pos(a, a[j].0);
    }
}

proof fn lemma_keys_within_trans(a: Seq<(Seq<u8>, usize)>, b: Seq<(Seq<u8>, usize)>, c: Seq<(Seq<u8>, usize)>)
    requires
        keys_within(a, b),
        keys_within(b, c),
    ensures
        keys_within(a, c),
{
    assert forall|j: int| 0 <= j < a.len() implies key_pos(c, #[trigger] a[j].0) is Some by {
        lemma_key_pos(b, a[j].0);
        let i = key_pos(b, a[j].0).unwrap();
        assert(key_pos(c, b[i].0) is Some);
    }
}

pub proof fn lemma_key_pos_prefix(a: Seq<(Seq<u8>, usize)>, b: Seq<(Seq<u8>, usize)>, k: Seq<u8>)
    requires
        index_prefix(a, b),
        key_pos(a, k) is Some,
    ensures
        key_pos(b, k) is Some,
{
    lemma_key_pos(a, k);
    lemma_key_pos(b, k);
    let i = key_pos(a, k).unwrap();
    assert(b[i] == a[i]);
}

pub proof fn lemma_grows_refl(m: MgrView)
    ensures
        mgr_grows(m, m),
{
    assert forall|k: int| 0 <= k < m.families.len() implies keys_within(#[trigger] m.families[k].styles, m.families[k].styles) by {
        lemma_keys_within_refl(m.families[k].styles);
    }
}

pub proof fn lemma_grows_trans(a: MgrView, b: MgrView, c: MgrView)
    requires
        mgr_grows(a, b),
        mgr_grows(b, c),
    ensures
        mgr_grows(a, c),
{
    assert forall|j: int| 0 <= j < a.m_nameToFont.len() implies #[trigger] c.m_nameToFont[j] == a.m_nameToFont[j] by {
        assert(b.m_nameToFont[j] == a.m_nameToFont[j]);
    }
    assert forall|j: int| 0 <= j < a.m_psNameToFont.len() implies #[trigger] c.m_psNameToFont[j] == a.m_psNameToFont[j] by {
        assert(b.m_psNameToFont[j] == a.m_psNameToFont[j]);
    }
    assert forall|j: int| 0 <= j < a.m_nameToFamily.len() implies #[trigger] c.m_nameToFamily[j] == a.m_nameToFamily[j] by {
        assert(b.m_nameToFamily[j] == a.m_nameToFamily[j]);
    }
    assert forall|j: int| 0 <= j < a.m_platformRefToFont.len() implies #[trigger] c.m_platformRefToFont[j]
        == a.m_platformRefToFont[j] by {
        assert(b.m_platformRefToFont[j] == a.m_platformRefToFont[j]);
    }
    assert forall|k: int| 0 <= k < a.families.len() implies keys_within(#[trigger] a.families[k].styles, c.families[k].styles) by {
        assert(keys_within(a.families[k].styles, b.families[k].styles));
        assert(keys_within(b.families[k].styles, c.families[k].styles));
        lemma_keys_within_trans(a.families[k].styles, b.families[k].styles, c.families[k].styles);
    }
}

proof fn lemma_style_add_keys(st: Seq<(Seq<u8>, usize)>, k: Seq<u8>, v: usize)
    ensures
        keys_within(st, style_add(st, k, v)),
{
    if key_pos(st, k) is Some {
        lemma_keys_within_refl(st);
    } else {
        let p = sorted_pos(st, k);
        lemma_sorted_pos(st, k);
        let r = st.insert(p, (k, v));
        assert forall|j: int| 0 <= j < st.len() implies key_pos(r, #[trigger] st[j].0) is Some by {
            lemma_key_pos(r, st[j].0);
            if j < p {
                assert(r[j] == st[j]);
            } else {
                assert(r[j + 1] == st[j]);
            }
        }
    }
}

proof fn lemma_styles_add_keys(st: Seq<(Seq<u8>, usize)>, names: Seq<Seq<u8>>, v: usize, n: int)
    ensures
        keys_within(st, styles_add(st, names, v, n)),
    decreases n,
{
    if n <= 0 {
        lemma_keys_within_refl(st);
    } else {
        lemma_styles_add_keys(st, names, v, n - 1);
        let s1 = styles_add(st, names, v, n - 1);
        lemma_style_add_keys(s1, names[n - 1], v);
        lemma_keys_within_trans(st, s1, style_add(s1, names[n - 1], v));
    }
}

proof fn lemma_family_add_grows(m: MgrView, v: usize, name: Seq<u8>, styles: Seq<Seq<u8>>)
    requires
        view_wf(m),
        v < m.fonts.len(),
    ensures
        mgr_grows(m, family_add(m, v, name, styles)),
{
    let r = family_add(m, v, name, styles);
    lemma_family_add_wf(m, v, name, styles);
    lemma_key_pos(m.m_nameToFamily, name);
    match key_pos(m.m_nameToFamily, name) {
        Some(i) => {
            let k = m.m_nameToFamily[i].1 as int;
            assert forall|q: int| 0 <= q < m.families.len() implies keys_within(#[trigger] m.families[q].styles, r.families[q].styles) by {
                if q == k {
                    let f = m.fonts[v as int];
                    lemma_styles_add_keys(m.families[k].styles, styles, v, styles.len() as int);
                    assert(r.families[k] == family_join(m.families[k], f.weight, f.width, f.slant, styles, v));
                } else {
                    lemma_keys_within_refl(m.families[q].styles);
                }
            }
        },
        None => {
            assert forall|q: int| 0 <= q < m.families.len() implies keys_within(#[trigger] m.families[q].styles, r.families[q].styles) by {
                lemma_keys_within_refl(m.families[q].styles);
            }
        },
    }
}

proof fn lemma_families_add_grows(m: MgrView, v: usize, names: Seq<Seq<u8>>, styles: Seq<Seq<u8>>, n: int)
    requires
        view_wf(m),
        v < m.fonts.len(),
    ensures
        mgr_grows(m, families_add(m, v, names, styles, n)),
    decreases n,
{
    if n <= 0 {
        lemma_grows_refl(m);
    } else {
        lemma_families_add_grows(m, v, names, styles, n - 1);
        lemma_families_add_wf(m, v, names, styles, n - 1);
        let m1 = families_add(m, v, names, styles, n - 1);
        lemma_family_add_grows(m1, v, names[n - 1], styles);
        lemma_grows_trans(m, m1, family_add(m1, v, names[n - 1], styles));
    }
}

proof fn lemma_full_names_add_prefix(idx: Seq<(Seq<u8>, usize)>, names: Seq<Seq<u8>>, v: usize, n: int)
    ensures
        index_prefix(idx, full_names_add(idx, names, v, n)),
    decreases n,
{
    if n > 0 {
        lemma_full_names_add_prefix(idx, names, v, n - 1);
        let i1 = full_names_add(idx, names, v, n - 1);
        let i2 = index_add(i1, names[n - 1], v);
        assert forall|j: int| 0 <= j < idx.len() implies #[trigger] i2[j] == idx[j] by {
            assert(i1[j] == idx[j]);
        }
    }
}

/// Adding a font to the maps keeps all that they held (see `mgr_grows`).
pub proof fn lemma_add_to_maps_grows(m: MgrView, r: u64, names: NamesView, info: FontStyleInfo)
    requires
        view_wf(m),
    ensures
        mgr_grows(m, add_to_maps_spec(m, r, names, info)),
{
    if has_ref(m.m_platformRefToFont, r) || names.m_psName.len() == 0 || key_pos(m.m_psNameToFont, names.m_psName) is Some {
        lemma_grows_refl(m);
    } else {
        let v = m.fonts.len() as usize;
        let m1 = with_new_font(m, r, names, info);
        lemma_new_font_wf(m, r, names, info);
        assert forall|k: int| 0 <= k < m.families.len() implies keys_within(#[trigger] m.families[k].styles, m1.families[k].styles) by {
            lemma_keys_within_refl(m.families[k].styles);
        }
        assert(mgr_grows(m, m1));
        let nn = names.m_familyNames.len() as int;
        lemma_families_add_grows(m1, v, names.m_familyNames, names.m_styleNames, nn);
        let m2 = families_add(m1, v, names.m_familyNames, names.m_styleNames, nn);
        lemma_grows_trans(m, m1, m2);
        lemma_full_names_add_prefix(m2.m_nameToFont, names.m_fullNames, v, names.m_fullNames.len() as int);
        let m3 = add_to_maps_spec(m, r, names, info);
        assert forall|k: int| 0 <= k < m2.families.len() implies keys_within(#[trigger] m2.families[k].styles, m3.families[k].styles) by {
            lemma_keys_within_refl(m2.families[k].styles);
        }
        assert(mgr_grows(m2, m3));
        lemma_grows_trans(m, m2, m3);
    }
}

proof fn lemma_named_regular_empty(st: Seq<(Seq<u8>, usize)>, i: int)
    requires
        st.len() == 0,
    ensures
        named_regular(st, i) is None,
    decreases 4 - i,
{
    if 0 <= i < 4 {
        lemma_named_regular_empty(st, i + 1);
    }
}

/// A family name selects a font exactly when the family has a style.
pub proof fn lemma_family_default_some(m: MgrView, fam: int)
    ensures
        family_default_font(m, fam) is Some <==> m.families[fam].styles.len() > 0,
{
    let st = m.families[fam].styles;
    if st.len() == 0 {
        lemma_named_regular_empty(st, 0);
        assert(reg_scan(m.fonts, st, 0) == (None::<usize>, 0int));
    } else {
        lemma_best_some(m.fonts, st, st.len() as int, 80, 100, 0);
    }
}

/// Whatever the maps give for a name they still give something for once they have grown (see
/// `mgr_grows`).
pub proof fn lemma_lookup_monotone(m: MgrView, m2: MgrView, name: Seq<u8>)
    requires
        view_wf(m),
        view_wf(m2),
        mgr_grows(m, m2),
        find_in_caches_spec(m, name) is Some,
    ensures
        find_in_caches_spec(m2, name) is Some,
{
    if key_pos(m.m_nameToFont, name) is Some {
        lemma_key_pos_prefix(m.m_nameToFont, m2.m_nameToFont, name);
    } else if family_style_font(m, name) is Some {
        let h = crate::text::first_index_of(name, 45u8).unwrap();
        let fam = name.take(h);
        let sty = name.skip(h + 1);
        let i = key_pos(m.m_nameToFamily, fam).unwrap();
        lemma_key_pos(m.m_nameToFamily, fam);
        lemma_key_pos(m2.m_nameToFamily, fam);
        lemma_key_pos_prefix(m.m_nameToFamily, m2.m_nameToFamily, fam);
        let i2 = key_pos(m2.m_nameToFamily, fam).unwrap();
        assert(m2.m_nameToFamily[i] == m.m_nameToFamily[i]);
        assert(i2 == i);
        let k = m.m_nameToFamily[i].1 as int;
        let st = m.families[k].styles;
        lemma_key_pos(st, sty);
        let j = key_pos(st, sty).unwrap();
        assert(keys_within(st, m2.families[k].styles));
        assert(key_pos(m2.families[k].styles, st[j].0) is Some);
        assert(family_style_font(m2, name) is Some);
    } else if key_pos(m.m_psNameToFont, name) is Some {
        lemma_key_pos_prefix(m.m_psNameToFont, m2.m_psNameToFont, name);
    } else {
        let i = key_pos(m.m_nameToFamily, name).unwrap();
        lemma_key_pos(m.m_nameToFamily, name);
        lemma_key_pos(m2.m_nameToFamily, name);
        lemma_key_pos_prefix(m.m_nameToFamily, m2.m_nameToFamily, name);
        let i2 = key_pos(m2.m_nameToFamily, name).unwrap();
        assert(m2.m_nameToFamily[i] == m.m_nameToFamily[i]);
        assert(i2 == i);
        let k = m.m_nameToFamily[i].1 as int;
        lemma_family_default_some(m, k);
        lemma_family_default_some(m2, k);
        let st = m.families[k].styles;
        assert(keys_within(st, m2.families[k].styles));
        lemma_key_pos(m2.families[k].styles, st[0].0);
        assert(key_pos(m2.families[k].styles, st[0].0) is Some);
    }
}

/// A name that finds a font still finds one after a font is added to the maps.
pub proof fn law_added_font_keeps_names_found(m: MgrView, r: u64, names: NamesView, info: FontStyleInfo, name: Seq<u8>)
    requires
        view_wf(m),
        find_in_caches_spec(m, name) is Some,
    ensures
        find_in_caches_spec(add_to_maps_spec(m, r, names, info), name) is Some,
{
    lemma_add_to_maps_wf(m, r, names, info);
    lemma_add_to_maps_grows(m, r, names, info);
    lemma_lookup_monotone(m, add_to_maps_spec(m, r, names, info), name);
}

/// A byte of an engine option or of the `/` between them.
pub open spec fn engine_byte(c: u8) -> bool {
    c == 65 || c == 84 || c == 79 || c == 71 || c == 82 || c == 47
}

/// What a variant asks for that is kept: its engine options only, and the engine it names.
pub open spec fn engine_only(st: VariantView) -> bool {
    &&& forall|k: int| 0 <= k < st.variant.len() ==> engine_byte(#[trigger] st.variant[k])
    &&& (st.engine == 0 || st.engine == 65 || st.engine == 79 || st.engine == 71)
}

proof fn lemma_step_engine_only(v: Seq<u8>, p: int, st: VariantView)
    requires
        engine_only(st),
    ensures
        engine_only(variant_step(v, p, st).0),
{
    let out = sep_slash(st.variant);
    assert forall|k: int| 0 <= k < out.len() implies engine_byte(#[trigger] out[k]) by {
        if k < st.variant.len() {
            assert(out[k] == st.variant[k]);
        }
    }
    let r = variant_step(v, p, st).0;
    assert forall|k: int| 0 <= k < r.variant.len() implies engine_byte(#[trigger] r.variant[k]) by {
        if k < out.len() && r.variant.len() > st.variant.len() {
            assert(r.variant[k] == out[k]);
        }
    }
}

proof fn lemma_run_engine_only(v: Seq<u8>, p: int, st: VariantView)
    requires
        engine_only(st),
    ensures
        engine_only(variant_run(v, p, st)),
    decreases v.len() - p,
{
    if !(p < 0 || p >= v.len()) {
        lemma_step_engine_only(v, p, st);
        let (st2, q) = variant_step(v, p, st);
        if !(q <= p || q > v.len()) {
            lemma_run_engine_only(v, q, st2);
        }
    }
}

/// What is kept of a variant string holds only its engine options (`AAT`, `OT`, `GR`) and the
/// `/` between them: the `B`, `I` and `S=` codes are taken out; and the engine asked for is
/// `A`, `O`, `G` or none.
pub proof fn law_variant_keeps_only_engine_options(v: Seq<u8>)
    ensures
        engine_only(parse_variant_spec(v)),
{
    lemma_run_engine_only(v, 0, VariantView { variant: Seq::empty(), engine: 0, bold: false, ital: false, size: None });
}

/// Every family's ranges of weight, width and slant are in order (least first).
pub open spec fn ranges_ordered(m: MgrView) -> bool {
    forall|k: int|
        0 <= k < m.families.len() ==> {
            let f = #[trigger] m.families[k];
            f.minWeight <= f.maxWeight && f.minWidth <= f.maxWidth && f.minSlant <= f.maxSlant
        }
}

/// The ranges of family `f` hold weight `w`, width `wd` and slant `sl`.
pub open spec fn in_ranges(f: FamilyView, w: u16, wd: u16, sl: i16) -> bool {
    &&& f.minWeight <= w <= f.maxWeight
    &&& f.minWidth <= wd <= f.maxWidth
    &&& f.minSlant <= sl <= f.maxSlant
}

/// No family of `m` is lost in `m2`, and none of their ranges narrows.
pub open spec fn ranges_widen(m: MgrView, m2: MgrView) -> bool {
    &&& m.families.len() <= m2.families.len()
    &&& forall|k: int|
        0 <= k < m.families.len() ==> {
            let a = #[trigger] m.families[k];
            let b = m2.families[k];
            b.minWeight <= a.minWeight && a.maxWeight <= b.maxWeight && b.minWidth <= a.minWidth
                && a.maxWidth <= b.maxWidth && b.minSlant <= a.minSlant && a.maxSlant <= b.maxSlant
        }
}

/// The family that `name` names in `m` holds the weight, width and slant given.
pub open spec fn family_holds(m: MgrView, name: Seq<u8>, w: u16, wd: u16, sl: i16) -> bool {
    key_pos(m.m_nameToFamily, name) matches Some(i) && in_ranges(m.families[m.m_nameToFamily[i].1 as int], w, wd, sl)
}

proof fn lemma_family_add_ranges(m: MgrView, v: usize, name: Seq<u8>, styles: Seq<Seq<u8>>)
    requires
        view_wf(m),
        v < m.fonts.len(),
        family_add(m, v, name, styles).families.len() <= usize::MAX,
        ranges_ordered(m),
    ensures
        ({
            let r = family_add(m, v, name, styles);
            let f = m.fonts[v as int];
            &&& r.families.len() <= m.families.len() + 1
            &&& ranges_ordered(r)
            &&& ranges_widen(m, r)
            &&& family_holds(r, name, f.weight, f.width, f.slant)
            &&& r.fonts[v as int].weight == f.weight && r.fonts[v as int].width == f.width
                && r.fonts[v as int].slant == f.slant
        }),
{
    let r = family_add(m, v, name, styles);
    lemma_key_pos(m.m_nameToFamily, name);
    lemma_key_pos(r.m_nameToFamily, name);
    match key_pos(m.m_nameToFamily, name) {
        Some(i) => {
            let k = m.m_nameToFamily[i].1 as int;
            let f = m.fonts[v as int];
            assert(r.m_nameToFamily == m.m_nameToFamily);
            assert(r.families[k] == family_join(m.families[k], f.weight, f.width, f.slant, styles, v));
            assert(in_ranges(r.families[k], f.weight, f.width, f.slant));
            assert(ranges_ordered(r)) by {
                assert forall|q: int| 0 <= q < r.families.len() implies {
                    let f = #[trigger] r.families[q];
                    f.minWeight <= f.maxWeight && f.minWidth <= f.maxWidth && f.minSlant <= f.maxSlant
                } by {
                    if q != k {
                        assert(r.families[q] == m.families[q]);
                    }
                }
            }
            assert forall|q: int| 0 <= q < m.families.len() implies {
                let a = #[trigger] m.families[q];
                let b = r.families[q];
                b.minWeight <= a.minWeight && a.maxWeight <= b.maxWeight && b.minWidth <= a.minWidth
                    && a.maxWidth <= b.maxWidth && b.minSlant <= a.minSlant && a.maxSlant <= b.maxSlant
            } by {
                if q != k {
                    assert(r.families[q] == m.families[q]);
                }
            }
        },
        None => {
            let k = m.families.len() as int;
            let f = m.fonts[v as int];
            let i = m.m_nameToFamily.len() as int;
            assert(r.m_nameToFamily[i] == (name, k as usize));
            assert(key_pos(r.m_nameToFamily, name) == Some(i));
            assert(r.families[k] == family_new(f.weight, f.width, f.slant, styles, v));
            assert(in_ranges(r.families[k], f.weight, f.width, f.slant));
            assert(ranges_ordered(r)) by {
                assert forall|q: int| 0 <= q < r.families.len() implies {
                    let f = #[trigger] r.families[q];
                    f.minWeight <= f.maxWeight && f.minWidth <= f.maxWidth && f.minSlant <= f.maxSlant
                } by {
                    if q < k {
                        assert(r.families[q] == m.families[q]);
                    }
                }
            }
            assert forall|q: int| 0 <= q < m.families.len() implies {
                let a = #[trigger] m.families[q];
                let b = r.families[q];
                b.minWeight <= a.minWeight && a.maxWeight <= b.maxWeight && b.minWidth <= a.minWidth
                    && a.maxWidth <= b.maxWidth && b.minSlant <= a.minSlant && a.maxSlant <= b.maxSlant
            } by {
                assert(r.families[q] == m.families[q]);
            }
        },
    }
}

proof fn lemma_family_holds_kept(m: MgrView, m2: MgrView, name: Seq<u8>, w: u16, wd: u16, sl: i16)
    requires
        view_wf(m),
        view_wf(m2),
        mgr_grows(m, m2),
        ranges_widen(m, m2),
        family_holds(m, name, w, wd, sl),
    ensures
        family_holds(m2, name, w, wd, sl),
{
    let i = key_pos(m.m_nameToFamily, name).unwrap();
    lemma_key_pos(m.m_nameToFamily, name);
    lemma_key_pos(m2.m_nameToFamily, name);
    lemma_key_pos_prefix(m.m_nameToFamily, m2.m_nameToFamily, name);
    assert(m2.m_nameToFamily[i] == m.m_nameToFamily[i]);
    let k = m.m_nameToFamily[i].1 as int;
    assert(k < m.families.len());
    let a = m.families[k];
}

proof fn lemma_families_add_ranges(m: MgrView, v: usize, names: Seq<Seq<u8>>, styles: Seq<Seq<u8>>, n: int)
    requires
        view_wf(m),
        v < m.fonts.len(),
        families_add(m, v, names, styles, n).families.len() <= usize::MAX,
        ranges_ordered(m),
        n <= names.len(),
    ensures
        ({
            let r = families_add(m, v, names, styles, n);
            let f = m.fonts[v as int];
            &&& m.families.len() <= r.families.len()
            &&& ranges_ordered(r)
            &&& ranges_widen(m, r)
            &&& forall|j: int| 0 <= j < n ==> family_holds(r, #[trigger] names[j], f.weight, f.width, f.slant)
            &&& r.fonts[v as int].weight == f.weight && r.fonts[v as int].width == f.width
                && r.fonts[v as int].slant == f.slant
        }),
    decreases n,
{
    if n > 0 {
        let m1 = families_add(m, v, names, styles, n - 1);
        let r = family_add(m1, v, names[n - 1], styles);
        lemma_families_add_wf(m, v, names, styles, n - 1);
        lemma_key_pos(m1.m_nameToFamily, names[n - 1]);
        assert(m1.families.len() <= r.families.len());
        lemma_families_add_ranges(m, v, names, styles, n - 1);
        let f = m.fonts[v as int];
        lemma_family_add_ranges(m1, v, names[n - 1], styles);
        lemma_family_add_wf(m1, v, names[n - 1], styles);
        lemma_family_add_grows(m1, v, names[n - 1], styles);
        assert forall|j: int| 0 <= j < n implies family_holds(r, #[trigger] names[j], f.weight, f.width, f.slant) by {
            if j < n - 1 {
                lemma_family_holds_kept(m1, r, names[j], f.weight, f.width, f.slant);
            }
        }
        assert forall|q: int| 0 <= q < m.families.len() implies {
            let a = #[trigger] m.families[q];
            let b = r.families[q];
            b.minWeight <= a.minWeight && a.maxWeight <= b.maxWeight && b.minWidth <= a.minWidth
                && a.maxWidth <= b.maxWidth && b.minSlant <= a.minSlant && a.maxSlant <= b.maxSlant
        } by {
            let x = m1.families[q];
        }
    } else {
        assert forall|q: int| 0 <= q < m.families.len() implies {
            let a = #[trigger] m.families[q];
            let b = m.families[q];
            b.minWeight <= a.minWeight && a.maxWeight <= b.maxWeight && b.minWidth <= a.minWidth
                && a.maxWidth <= b.maxWidth && b.minSlant <= a.minSlant && a.maxSlant <= b.maxSlant
        } by {}
    }
}

/// Adding a font keeps every family's ranges of weight, width and slant in order, and when the
/// font is recorded, each family it joins holds its weight, width and slant. (It holds of every
/// manager the result of which has its fonts and families counted by `usize`, as every manager
/// in memory has: `XeTeXFontMgr_addToMaps` states it with no such condition.)
pub proof fn law_add_to_maps_keeps_ranges_ordered(m: MgrView, r: u64, names: NamesView, info: FontStyleInfo)
    requires
        view_wf(m),
        add_to_maps_spec(m, r, names, info).fonts.len() <= usize::MAX,
        add_to_maps_spec(m, r, names, info).families.len() <= usize::MAX,
        ranges_ordered(m),
    ensures
        ranges_ordered(add_to_maps_spec(m, r, names, info)),
        !(has_ref(m.m_platformRefToFont, r) || names.m_psName.len() == 0 || key_pos(m.m_psNameToFont, names.m_psName) is Some)
            ==> forall|j: int| 0 <= j < names.m_familyNames.len() ==> family_holds(
            add_to_maps_spec(m, r, names, info),
            #[trigger] names.m_familyNames[j],
            info.weight,
            info.width,
            info.slant,
        ),
{
    if !(has_ref(m.m_platformRefToFont, r) || names.m_psName.len() == 0 || key_pos(m.m_psNameToFont, names.m_psName) is Some) {
        let v = m.fonts.len() as usize;
        let m1 = with_new_font(m, r, names, info);
        lemma_new_font_wf(m, r, names, info);
        lemma_families_add_wf(m1, v, names.m_familyNames, names.m_styleNames, names.m_familyNames.len() as int);
        assert(add_to_maps_spec(m, r, names, info).fonts.len() == m.fonts.len() + 1);
        assert(v as int == m.fonts.len());
        assert(ranges_ordered(m1));
        assert(m1.fonts[v as int] == new_font_view(r, names, info));
        lemma_families_add_ranges(m1, v, names.m_familyNames, names.m_styleNames, names.m_familyNames.len() as int);
        let m2 = families_add(m1, v, names.m_familyNames, names.m_styleNames, names.m_familyNames.len() as int);
        let m3 = add_to_maps_spec(m, r, names, info);
        assert(m3.families == m2.families && m3.m_nameToFamily == m2.m_nameToFamily);
        assert forall|j: int| 0 <= j < names.m_familyNames.len() implies family_holds(
            m3,
            #[trigger] names.m_familyNames[j],
            info.weight,
            info.width,
            info.slant,
        ) by {
            assert(family_holds(m2, names.m_familyNames[j], info.weight, info.width, info.slant));
        }
    }
}

/// The engine options of a variant string are `AAT`, `ICU`, `OT` and `GR`.
pub proof fn law_engine_words()
    ensures
        aat_word() == seq![65u8, 65u8, 84u8],
        icu_word() == seq![73u8, 67u8, 85u8],
        ot_word() == seq![79u8, 84u8],
        gr_word() == seq![71u8, 82u8],
{
    assert(aat_word() =~= seq![65u8, 65u8, 84u8]);
    assert(icu_word() =~= seq![73u8, 67u8, 85u8]);
    assert(ot_word() =~= seq![79u8, 84u8]);
    assert(gr_word() =~= seq![71u8, 82u8]);
}

} // verus!
