use tectonic::ot_math::{
    get_native_mathex_param, get_native_mathsy_param, ot_math_constant_is_percentage,
    ot_math_kern_min, ot_part_count, ot_part_glyph, ot_part_is_extender, GlyphAssembly, GlyphPart,
    MathConstant, TeX_ext_to_OT_map, TeX_sym_to_OT_map,
};

#[test]
fn symbol_font_parameters_map_to_constants() {
    assert_eq!(TeX_sym_to_OT_map(5), Some(MathConstant::AccentBaseHeight));
    assert_eq!(TeX_sym_to_OT_map(13), Some(MathConstant::SuperscriptShiftUp));
    assert_eq!(TeX_sym_to_OT_map(14), Some(MathConstant::SuperscriptShiftUp));
    assert_eq!(TeX_sym_to_OT_map(22), Some(MathConstant::AxisHeight));
    assert_eq!(TeX_sym_to_OT_map(6), None);
    assert_eq!(TeX_sym_to_OT_map(21), None);
    assert_eq!(TeX_sym_to_OT_map(23), None);
    assert_eq!(TeX_sym_to_OT_map(0), None);
}

#[test]
fn extension_font_parameters_map_to_constants() {
    assert_eq!(TeX_ext_to_OT_map(8), Some(MathConstant::FractionRuleThickness));
    assert_eq!(TeX_ext_to_OT_map(13), Some(MathConstant::StackGapMin));
    assert_eq!(TeX_ext_to_OT_map(14), None);
    assert_eq!(TeX_ext_to_OT_map(7), None);
}

#[test]
fn symbol_font_parameter_values() {
    let size = 10 * 65536;
    assert_eq!(get_native_mathsy_param(size, 6, 999), size);
    // 1.5 em, clamped to the delimiter height given.
    assert_eq!(get_native_mathsy_param(size, 21, 2_000_000), 983040);
    assert_eq!(get_native_mathsy_param(size, 21, 500_000), 500_000);
    assert_eq!(get_native_mathsy_param(-3, 21, 0), -4);
    assert_eq!(get_native_mathsy_param(size, 22, 1234), 1234);
    assert_eq!(get_native_mathsy_param(size, 7, 1234), 0);
    assert_eq!(get_native_mathsy_param(i32::MAX, 21, i32::MAX), i32::MAX);
}

#[test]
fn extension_font_parameter_values() {
    assert_eq!(get_native_mathex_param(42, 6, 7), 42);
    assert_eq!(get_native_mathex_param(42, 8, 7), 7);
    assert_eq!(get_native_mathex_param(42, 1, 7), 0);
}

#[test]
fn percentages_are_not_scaled() {
    assert!(ot_math_constant_is_percentage(0));
    assert!(ot_math_constant_is_percentage(1));
    assert!(ot_math_constant_is_percentage(55));
    assert!(!ot_math_constant_is_percentage(2));
}

#[test]
fn kern_is_the_smaller_sum() {
    assert_eq!(ot_math_kern_min(10, 5, 3, 4), 7);
    assert_eq!(ot_math_kern_min(1, 1, 3, 4), 2);
    assert_eq!(ot_math_kern_min(-5, 0, -5, 0), -5);
}

#[test]
fn assembly_parts() {
    let part = |glyph, flags| GlyphPart {
        glyph,
        start_connector_length: 0,
        end_connector_length: 10,
        full_advance: 100,
        flags,
    };
    let a = GlyphAssembly { parts: vec![part(7, 0), part(8, 1), part(9, 0)] };
    assert_eq!(ot_part_count(&a), 3);
    assert_eq!(ot_part_glyph(&a, 1), 8);
    assert!(ot_part_is_extender(&a, 1));
    assert!(!ot_part_is_extender(&a, 2));
}
