use vstd::prelude::*;

verus! {

/// The constants of an OpenType `MATH` table that TeX's font parameters are read from.
#[derive(PartialEq, Eq, Structural, Clone, Copy, Debug)]
pub enum MathConstant {
    AccentBaseHeight,
    FractionNumeratorDisplayStyleShiftUp,
    FractionNumeratorShiftUp,
    StackTopShiftUp,
    FractionDenominatorDisplayStyleShiftDown,
    FractionDenominatorShiftDown,
    SuperscriptShiftUp,
    SuperscriptShiftUpCramped,
    SubscriptShiftDown,
    SuperscriptBaselineDropMax,
    SubscriptBaselineDropMin,
    DelimitedSubFormulaMinHeight,
    AxisHeight,
    FractionRuleThickness,
    UpperLimitGapMin,
    LowerLimitGapMin,
    UpperLimitBaselineRiseMin,
    LowerLimitBaselineDropMin,
    StackGapMin,
}

/// The `MATH` constant that parameter `n` of a math symbol font (family 2) stands for: 5 the
/// accent base height (x-height), 8 to 12 the fraction numerator and denominator shifts, 13 to
/// 15 the superscript shifts, 16 and 17 the subscript shift, 18 and 19 the baseline drops, 20
/// the minimum height of a delimited formula, 22 the axis height.
pub open spec fn sym_constant(n: int) -> Option<MathConstant> {
    if n == 5 {
        Some(MathConstant::AccentBaseHeight)
    } else if n == 8 {
        Some(MathConstant::FractionNumeratorDisplayStyleShiftUp)
    } else if n == 9 {
        Some(MathConstant::FractionNumeratorShiftUp)
    } else if n == 10 {
        Some(MathConstant::StackTopShiftUp)
    } else if n == 11 {
        Some(MathConstant::FractionDenominatorDisplayStyleShiftDown)
    } else if n == 12 {
        Some(MathConstant::FractionDenominatorShiftDown)
    } else if n == 13 || n == 14 {
        Some(MathConstant::SuperscriptShiftUp)
    } else if n == 15 {
        Some(MathConstant::SuperscriptShiftUpCramped)
    } else if n == 16 || n == 17 {
        Some(MathConstant::SubscriptShiftDown)
    } else if n == 18 {
        Some(MathConstant::SuperscriptBaselineDropMax)
    } else if n == 19 {
        Some(MathConstant::SubscriptBaselineDropMin)
    } else if n == 20 {
        Some(MathConstant::DelimitedSubFormulaMinHeight)
    } else if n == 22 {
        Some(MathConstant::AxisHeight)
    } else {
        None
    }
}

/// The `MATH` constant that parameter `n` of a math extension font (family 3) stands for: 5
/// the accent base height, 8 the rule thickness, 9 to 12 the limit gaps and shifts, 13 the
/// stack gap.
pub open spec fn ext_constant(n: int) -> Option<MathConstant> {
    if n == 5 {
        Some(MathConstant::AccentBaseHeight)
    } else if n == 8 {
        Some(MathConstant::FractionRuleThickness)
    } else if n == 9 {
        Some(MathConstant::UpperLimitGapMin)
    } else if n == 10 {
        Some(MathConstant::LowerLimitGapMin)
    } else if n == 11 {
        Some(MathConstant::UpperLimitBaselineRiseMin)
    } else if n == 12 {
        Some(MathConstant::LowerLimitBaselineDropMin)
    } else if n == 13 {
        Some(MathConstant::StackGapMin)
    } else {
        None
    }
}

/// The symbol-font parameters that come from the `MATH` table, by TeX's names: 5 (x-height)
/// is the accent base height; 8, 9, 10 (num1, num2, num3) the display fraction numerator
/// shift, the fraction numerator shift and the stack top shift; 11, 12 (denom1, denom2) the
/// display and text fraction denominator shifts; 13, 14 (sup1, sup2) the superscript shift and
/// 15 (sup3) its cramped form; 16, 17 (sub1, sub2) the subscript shift; 18 (sup_drop) the
/// superscript baseline drop; 19 (sub_drop) the subscript baseline drop; 20 (delim1) the least
/// height of a delimited formula; 22 (axis_height) the axis height. No other parameter has one.
pub proof fn law_math_symbol_parameters(n: int)
    ensures
        n == 5 ==> sym_constant(n) == Some(MathConstant::AccentBaseHeight),
        n == 8 ==> sym_constant(n) == Some(MathConstant::FractionNumeratorDisplayStyleShiftUp),
        n == 9 ==> sym_constant(n) == Some(MathConstant::FractionNumeratorShiftUp),
        n == 10 ==> sym_constant(n) == Some(MathConstant::StackTopShiftUp),
        n == 11 ==> sym_constant(n) == Some(MathConstant::FractionDenominatorDisplayStyleShiftDown),
        n == 12 ==> sym_constant(n) == Some(MathConstant::FractionDenominatorShiftDown),
        n == 13 || n == 14 ==> sym_constant(n) == Some(MathConstant::SuperscriptShiftUp),
        n == 15 ==> sym_constant(n) == Some(MathConstant::SuperscriptShiftUpCramped),
        n == 16 || n == 17 ==> sym_constant(n) == Some(MathConstant::SubscriptShiftDown),
        n == 18 ==> sym_constant(n) == Some(MathConstant::SuperscriptBaselineDropMax),
        n == 19 ==> sym_constant(n) == Some(MathConstant::SubscriptBaselineDropMin),
        n == 20 ==> sym_constant(n) == Some(MathConstant::DelimitedSubFormulaMinHeight),
        n == 22 ==> sym_constant(n) == Some(MathConstant::AxisHeight),
        !(n == 5 || 8 <= n <= 20 || n == 22) ==> sym_constant(n) is None,
{
}

/// The extension-font parameters that come from the `MATH` table, by TeX's names: 5 is the
/// accent base height; 8 (default_rule_thickness) the fraction rule thickness; 9, 10
/// (big_op_spacing1, big_op_spacing2) the least gaps above and below limits; 11, 12
/// (big_op_spacing3, big_op_spacing4) the least baseline rise and drop of limits; 13
/// (big_op_spacing5) the least stack gap. No other parameter has one.
pub proof fn law_math_extension_parameters(n: int)
    ensures
        n == 5 ==> ext_constant(n) == Some(MathConstant::AccentBaseHeight),
        n == 8 ==> ext_constant(n) == Some(MathConstant::FractionRuleThickness),
        n == 9 ==> ext_constant(n) == Some(MathConstant::UpperLimitGapMin),
        n == 10 ==> ext_constant(n) == Some(MathConstant::LowerLimitGapMin),
        n == 11 ==> ext_constant(n) == Some(MathConstant::UpperLimitBaselineRiseMin),
        n == 12 ==> ext_constant(n) == Some(MathConstant::LowerLimitBaselineDropMin),
        n == 13 ==> ext_constant(n) == Some(MathConstant::StackGapMin),
        !(n == 5 || 8 <= n <= 13) ==> ext_constant(n) is None,
{
}

/// The `MATH` constant of parameter `n` of a math symbol font, if there is one.
#[allow(non_snake_case)]
pub fn TeX_sym_to_OT_map(n: i32) -> (r: Option<MathConstant>)
    ensures
        r == sym_constant(n as int),
{
    match n {
        5 => Some(MathConstant::AccentBaseHeight),
        8 => Some(MathConstant::FractionNumeratorDisplayStyleShiftUp),
        9 => Some(MathConstant::FractionNumeratorShiftUp),
        10 => Some(MathConstant::StackTopShiftUp),
        11 => Some(MathConstant::FractionDenominatorDisplayStyleShiftDown),
        12 => Some(MathConstant::FractionDenominatorShiftDown),
        13 | 14 => Some(MathConstant::SuperscriptShiftUp),
        15 => Some(MathConstant::SuperscriptShiftUpCramped),
        16 | 17 => Some(MathConstant::SubscriptShiftDown),
        18 => Some(MathConstant::SuperscriptBaselineDropMax),
        19 => Some(MathConstant::SubscriptBaselineDropMin),
        20 => Some(MathConstant::DelimitedSubFormulaMinHeight),
        22 => Some(MathConstant::AxisHeight),
        _ => None,
    }
}

/// The `MATH` constant of parameter `n` of a math extension font, if there is one.
#[allow(non_snake_case)]
pub fn TeX_ext_to_OT_map(n: i32) -> (r: Option<MathConstant>)
    ensures
        r == ext_constant(n as int),
{
    match n {
        5 => Some(MathConstant::AccentBaseHeight),
        8 => Some(MathConstant::FractionRuleThickness),
        9 => Some(MathConstant::UpperLimitGapMin),
        10 => Some(MathConstant::LowerLimitGapMin),
        11 => Some(MathConstant::UpperLimitBaselineRiseMin),
        12 => Some(MathConstant::LowerLimitBaselineDropMin),
        13 => Some(MathConstant::StackGapMin),
        _ => None,
    }
}

/// `x` cut to the range of `i32`.
pub open spec fn clamp_i32(x: int) -> i32 {
    if x > i32::MAX {
        i32::MAX
    } else if x < i32::MIN {
        i32::MIN
    } else {
        x as i32
    }
}

/// One and a half times `size`, rounded toward zero and cut to the range of `i32`.
pub open spec fn one_and_a_half(size: i32) -> i32 {
    let t = 3 * size;
    clamp_i32(if t >= 0 { t / 2 } else { -((-t) / 2) })
}

/// Parameter `n` of a math symbol font of size `font_size`, `value` being the scaled value of
/// the constant it stands for (for parameter 21, that of parameter 20): 6 is the size (the
/// quad), 21 is one and a half times the size but at most `value`; another parameter with a
/// constant is `value`, one without is 0.
pub open spec fn mathsy_param_spec(font_size: i32, n: i32, value: i32) -> i32 {
    if n == 6 {
        font_size
    } else if n == 21 {
        let h = one_and_a_half(font_size);
        if h < value {
            h
        } else {
            value
        }
    } else if sym_constant(n as int) is Some {
        value
    } else {
        0
    }
}

/// Parameter `n` of a math symbol font (see `mathsy_param_spec`). There is no parameter with
/// a negative number.
pub fn get_native_mathsy_param(font_size: i32, n: i32, value: i32) -> (r: i32)
    requires
        n >= 0,
    ensures
        r == mathsy_param_spec(font_size, n, value),
{
    if n == 6 {
        font_size
    } else if n == 21 {
        let t: i64 = 3 * (font_size as i64);
        let q: i64 = if t >= 0 {
            t / 2
        } else {
            -((-t) / 2)
        };
        let h: i32 = if q > i32::MAX as i64 {
            i32::MAX
        } else if q < i32::MIN as i64 {
            i32::MIN
        } else {
            q as i32
        };
        if h < value {
            h
        } else {
            value
        }
    } else if TeX_sym_to_OT_map(n).is_some() {
        value
    } else {
        0
    }
}

/// Parameter `n` of a math extension font of size `font_size`, `value` being the scaled value
/// of the constant it stands for: 6 is the size, another parameter with a constant is `value`,
/// one without is 0. There is no parameter with a negative number.
pub fn get_native_mathex_param(font_size: i32, n: i32, value: i32) -> (r: i32)
    requires
        n >= 0,
    ensures
        r == (if n == 6 {
            font_size
        } else if ext_constant(n as int) is Some {
            value
        } else {
            0
        }),
{
    if n == 6 {
        font_size
    } else if TeX_ext_to_OT_map(n).is_some() {
        value
    } else {
        0
    }
}

/// Whether a `MATH` constant (by its number in the table) is a percentage, which is not scaled
/// to the font size: the two script scale-downs (0 and 1) and the raise of a radical's degree
/// (55).
pub fn ot_math_constant_is_percentage(constant: u32) -> (r: bool)
    ensures
        r == (constant == 0 || constant == 1 || constant == 55),
{
    constant == 0 || constant == 1 || constant == 55
}

/// The kern between a nucleus and its script from the `MATH` kerns at the two heights tried:
/// the smaller of the two sums.
pub fn ot_math_kern_min(kern_top: i32, skern_top: i32, kern_bot: i32, skern_bot: i32) -> (r: i32)
    requires
        i32::MIN <= kern_top + skern_top <= i32::MAX,
        i32::MIN <= kern_bot + skern_bot <= i32::MAX,
    ensures
        r == (if kern_bot + skern_bot < kern_top + skern_top {
            kern_bot + skern_bot
        } else {
            kern_top + skern_top
        }),
{
    let top = kern_top + skern_top;
    let bot = kern_bot + skern_bot;
    if bot < top {
        bot
    } else {
        top
    }
}

/// A part of a glyph assembly of the `MATH` table: the glyph, the lengths of its connectors,
/// its full advance (in font units) and its flags (bit 0: an extender).
#[allow(non_snake_case)]
#[derive(PartialEq, Eq, Structural, Clone, Copy, Debug)]
pub struct GlyphPart {
    pub glyph: u32,
    pub start_connector_length: i32,
    pub end_connector_length: i32,
    pub full_advance: i32,
    pub flags: u32,
}

/// How a glyph is built from parts, in order.
pub struct GlyphAssembly {
    pub parts: Vec<GlyphPart>,
}

/// The number of parts of an assembly.
pub fn ot_part_count(a: &GlyphAssembly) -> (r: usize)
    ensures
        r == a.parts@.len(),
{
    a.parts.len()
}

/// The glyph of part `i`.
pub fn ot_part_glyph(a: &GlyphAssembly, i: usize) -> (r: u32)
    requires
        i < a.parts@.len(),
    ensures
        r == a.parts@[i as int].glyph,
{
    a.parts[i].glyph
}

/// Whether part `i` is an extender, which may be repeated.
pub fn ot_part_is_extender(a: &GlyphAssembly, i: usize) -> (r: bool)
    requires
        i < a.parts@.len(),
    ensures
        r == (a.parts@[i as int].flags & 1 != 0),
{
    a.parts[i].flags & 1 != 0
}

} // verus!
