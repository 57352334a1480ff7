use tectonic::specials::spc_arg;
use tectonic::specials::util::{
    pdf_color_namedcolor, spc_read_color_color, spc_read_color_pdf,
    spc_read_dimtrns_dvips, spc_read_dimtrns_pdfm, spc_util_read_blahblah,
    spc_util_read_colorspec, spc_util_read_dimtrns, spc_util_read_length, spc_util_read_numbers,
    spc_util_read_pdfcolor, ColorError, ColorSpace, ColorSpec, Colordef, DimItem, DimNote,
    DimTrnsRead, DvipsDimError, LengthRead, LengthUnit, NamedColor,
};

fn arg(s: &str) -> spc_arg {
    spc_arg::new(s.as_bytes().to_vec())
}

fn nums(v: &[&str]) -> Vec<Vec<u8>> {
    v.iter().map(|x| x.as_bytes().to_vec()).collect()
}

#[test]
fn reading_numbers() {
    let mut a = arg("  1 2.5 -3 x");
    assert_eq!(spc_util_read_numbers(4, &mut a), nums(&["1", "2.5", "-3"]));
    assert_eq!(a.curptr, 11);
    let mut a = arg("  1 2.5 -3 x");
    assert_eq!(spc_util_read_numbers(2, &mut a), nums(&["1", "2.5"]));
    assert_eq!(a.curptr, 8);
    let mut a = arg("1e3 .5");
    assert_eq!(spc_util_read_numbers(2, &mut a), nums(&["1e3", ".5"]));
    let mut a = arg("abc");
    assert!(spc_util_read_numbers(3, &mut a).is_empty());
}

#[test]
fn reading_lengths() {
    let mut a = arg("12pt rest");
    assert_eq!(
        spc_util_read_length(&mut a),
        Some(LengthRead { number: b"12".to_vec(), is_true: false, unit: LengthUnit::Known { index: 0 } })
    );
    let mut a = arg("1 true in");
    assert_eq!(
        spc_util_read_length(&mut a),
        Some(LengthRead { number: b"1".to_vec(), is_true: true, unit: LengthUnit::Known { index: 1 } })
    );
    let mut a = arg("3truecm");
    assert_eq!(
        spc_util_read_length(&mut a),
        Some(LengthRead { number: b"3".to_vec(), is_true: true, unit: LengthUnit::Known { index: 2 } })
    );
    let mut a = arg("5 furlongs");
    assert_eq!(
        spc_util_read_length(&mut a),
        Some(LengthRead {
            number: b"5".to_vec(),
            is_true: false,
            unit: LengthUnit::Unknown { name: b"furlongs".to_vec() }
        })
    );
    let mut a = arg("2 true");
    assert_eq!(
        spc_util_read_length(&mut a),
        Some(LengthRead { number: b"2".to_vec(), is_true: true, unit: LengthUnit::MissingAfterTrue })
    );
    let mut a = arg("7");
    assert_eq!(
        spc_util_read_length(&mut a),
        Some(LengthRead { number: b"7".to_vec(), is_true: false, unit: LengthUnit::Unitless })
    );
    let mut a = arg("x");
    assert_eq!(spc_util_read_length(&mut a), None);
}

#[test]
fn named_colors() {
    assert_eq!(pdf_color_namedcolor(b"White"), Some(NamedColor::Gray(100)));
    assert_eq!(pdf_color_namedcolor(b"Red"), Some(NamedColor::Cmyk(0, 100, 100, 0)));
    assert_eq!(pdf_color_namedcolor(b"GreenYellow"), Some(NamedColor::Cmyk(15, 0, 69, 0)));
    assert_eq!(pdf_color_namedcolor(b"white"), None);
    let d = Colordef::new("Mine", NamedColor::Gray(42));
    assert_eq!(d.key, "Mine");
    assert_eq!(d.color, NamedColor::Gray(42));
}

#[test]
fn colors_in_color_syntax() {
    assert_eq!(
        spc_read_color_color(&mut arg("rgb 1 0 0")),
        Ok(ColorSpec::Values { space: ColorSpace::Rgb, values: nums(&["1", "0", "0"]) })
    );
    assert_eq!(
        spc_read_color_color(&mut arg("cmyk 0 0 0 1")),
        Ok(ColorSpec::Values { space: ColorSpace::Cmyk, values: nums(&["0", "0", "0", "1"]) })
    );
    assert_eq!(
        spc_read_color_color(&mut arg("gray 0.5")),
        Ok(ColorSpec::Values { space: ColorSpace::Gray, values: nums(&["0.5"]) })
    );
    assert_eq!(
        spc_read_color_color(&mut arg("spot PANTONE 0.5")),
        Ok(ColorSpec::Spot { name: b"PANTONE".to_vec(), value: b"0.5".to_vec() })
    );
    assert_eq!(
        spc_read_color_color(&mut arg("hsb 0.5 1 1")),
        Ok(ColorSpec::Values { space: ColorSpace::Hsb, values: nums(&["0.5", "1", "1"]) })
    );
    assert_eq!(
        spc_read_color_color(&mut arg("Red")),
        Ok(ColorSpec::Named { color: NamedColor::Cmyk(0, 100, 100, 0) })
    );
    assert_eq!(
        spc_read_color_color(&mut arg("Nope")),
        Err(ColorError::UnknownName { name: b"Nope".to_vec() })
    );
    assert_eq!(
        spc_read_color_color(&mut arg("rgb 1 0")),
        Err(ColorError::BadValues { space: ColorSpace::Rgb })
    );
    assert_eq!(spc_read_color_color(&mut arg("spot")), Err(ColorError::NoSpotName));
    assert_eq!(spc_read_color_color(&mut arg("spot X")), Err(ColorError::BadSpotValue));
    assert_eq!(spc_read_color_color(&mut arg("123")), Err(ColorError::NoColor));
    assert_eq!(spc_util_read_colorspec(&mut arg("   "), true), Err(ColorError::Empty));
}

#[test]
fn colors_in_pdf_syntax() {
    assert_eq!(
        spc_read_color_pdf(&mut arg("0.5")),
        Ok(ColorSpec::Values { space: ColorSpace::Gray, values: nums(&["0.5"]) })
    );
    let mut a = arg("[1 0 0] rest");
    assert_eq!(
        spc_read_color_pdf(&mut a),
        Ok(ColorSpec::Values { space: ColorSpace::Rgb, values: nums(&["1", "0", "0"]) })
    );
    assert_eq!(a.curptr, 7);
    assert_eq!(spc_read_color_pdf(&mut arg("[1 0 0")), Err(ColorError::Unbalanced));
    assert_eq!(spc_read_color_pdf(&mut arg("1 0")), Err(ColorError::NoColor));
    assert_eq!(
        spc_read_color_pdf(&mut arg("[Blue]")),
        Ok(ColorSpec::Named { color: NamedColor::Cmyk(100, 100, 0, 0) })
    );
    assert_eq!(
        spc_util_read_colorspec(&mut arg("  0 0 0 1"), false),
        Ok(ColorSpec::Values { space: ColorSpace::Cmyk, values: nums(&["0", "0", "0", "1"]) })
    );
    let def = ColorSpec::Named { color: NamedColor::Gray(0) };
    assert_eq!(
        spc_util_read_pdfcolor(&mut arg("Nope"), Some(def)),
        Ok(ColorSpec::Named { color: NamedColor::Gray(0) })
    );
    assert_eq!(
        spc_util_read_pdfcolor(&mut arg("Nope"), None),
        Err(ColorError::UnknownName { name: b"Nope".to_vec() })
    );
    assert_eq!(spc_util_read_pdfcolor(&mut arg(""), None), Err(ColorError::Empty));
}

#[test]
fn pdfm_dimensions() {
    let d = spc_read_dimtrns_pdfm(&mut arg("width 10pt height 5pt"), 0);
    assert_eq!(d.items.len(), 2);
    assert!(matches!(&d.items[0], DimItem::Width(Some(l)) if l.number == b"10".to_vec()));
    assert!(matches!(&d.items[1], DimItem::Height(Some(_))));
    assert_eq!(d.flags, 6);
    assert!(!d.error);
    assert_eq!(d.note, None);

    let d = spc_read_dimtrns_pdfm(&mut arg("scale 2 xscale 3"), 0);
    assert_eq!(d.note, Some(DimNote::ScaleWithAxisScales));
    assert!(d.error);

    let d = spc_read_dimtrns_pdfm(&mut arg("width 1pt xscale 2"), 0);
    assert_eq!(d.note, Some(DimNote::IgnoreXScale));
    assert!(!d.error);

    let d = spc_read_dimtrns_pdfm(&mut arg("height 1pt yscale 2"), 0);
    assert_eq!(d.note, Some(DimNote::IgnoreYScale));

    let d = spc_read_dimtrns_pdfm(&mut arg("matrix 1 0 0 1 0 0 rotate 90"), 0);
    assert_eq!(d.note, Some(DimNote::MatrixOverridesScales));
    assert!(matches!(&d.items[0], DimItem::Matrix(v) if v.len() == 6));

    let d = spc_read_dimtrns_pdfm(&mut arg("bbox 0 0 10 10 clip 0"), 0);
    assert_eq!(d.flags, 1);
    let d = spc_read_dimtrns_pdfm(&mut arg("bbox 0 0 10 10"), 0);
    assert_eq!(d.flags, 9);
    let d = spc_read_dimtrns_pdfm(&mut arg("clip 0 bbox 0 0 10 10 clip 0.50"), 0);
    assert_eq!(d.flags, 9);
    let d = spc_read_dimtrns_pdfm(&mut arg("bbox 0 0 10 10 clip -0.00e5"), 0);
    assert_eq!(d.flags, 1);
    let d = spc_read_dimtrns_pdfm(&mut arg("clip 1"), 0);
    assert_eq!(d.flags, 0);

    let d = spc_read_dimtrns_pdfm(&mut arg("foo 1"), 0);
    assert!(d.error);
    assert_eq!(d.bad_key, Some(b"foo".to_vec()));

    let d = spc_read_dimtrns_pdfm(&mut arg("hide"), 16 | 2);
    assert_eq!(d.flags, 16 | 2);

    let d = spc_read_dimtrns_pdfm(&mut arg("page 2"), 0);
    assert_eq!(d.bad_key, Some(b"page".to_vec()));

    let d = spc_read_dimtrns_pdfm(&mut arg("bbox 0 0 10"), 0);
    assert!(d.error);
    assert_eq!(d.bad_key, Some(b"bbox".to_vec()));

    let d = spc_read_dimtrns_pdfm(&mut arg("width x"), 0);
    assert!(d.error);
    assert!(matches!(&d.items[0], DimItem::Width(None)));
}

#[test]
fn image_specifications() {
    let d = spc_util_read_blahblah(&mut arg("page 2 pagebox CropBox"), 0);
    assert!(!d.error);
    assert!(matches!(&d.items[0], DimItem::Page(p) if p == b"2"));
    assert!(matches!(&d.items[1], DimItem::PageBox(Some(1))));
    let d = spc_util_read_blahblah(&mut arg("pagebox weird"), 0);
    assert!(matches!(&d.items[0], DimItem::PageBox(None)));
    let d = spc_util_read_blahblah(&mut arg("pagebox"), 0);
    assert!(matches!(&d.items[0], DimItem::PageBox(Some(0))));
    let d = spc_util_read_blahblah(&mut arg("page x"), 0);
    assert!(d.error);
}

#[test]
fn image_specifications_final_flags() {
    let d = spc_util_read_blahblah(&mut arg("pagebox CropBox page 2"), 0);
    assert!(!d.error);
    assert_eq!(d.flags, 0);
    let d = spc_util_read_blahblah(&mut arg("scale 2 xscale 3"), 0);
    assert!(d.error);
    assert_eq!(d.flags & 8, 0);
    let d = spc_util_read_blahblah(&mut arg("width 10pt xscale 2"), 0);
    assert!(!d.error);
    assert_eq!(d.note, Some(DimNote::IgnoreXScale));
    assert_eq!(d.flags, 2);
}

#[test]
fn dvips_dimensions() {
    let d = spc_read_dimtrns_dvips(&mut arg("hoffset=1 voffset='2' hsize=100 clip"), 0);
    assert_eq!(
        d.items,
        vec![(0u8, b"1".to_vec()), (1u8, b"2".to_vec()), (2u8, b"100".to_vec())]
    );
    assert_eq!(d.flags, 8 | 2);
    assert_eq!(d.error, None);
    let d = spc_read_dimtrns_dvips(&mut arg("llx=1 rhi=50"), 0);
    assert_eq!(d.flags, 1 | 4);
    let d = spc_read_dimtrns_dvips(&mut arg("foo=1"), 0);
    assert_eq!(d.error, Some(DvipsDimError::UnknownKey { key: b"foo".to_vec() }));
    let d = spc_read_dimtrns_dvips(&mut arg("hsize='1"), 0);
    assert_eq!(d.error, Some(DvipsDimError::Syntax));
    let d = spc_read_dimtrns_dvips(&mut arg("hsize="), 0);
    assert_eq!(d.error, Some(DvipsDimError::MissingValue { key: b"hsize".to_vec() }));
    match spc_util_read_dimtrns(&mut arg("angle 30"), 0, 1) {
        DimTrnsRead::Dvips(d) => assert_eq!(d.items, vec![(6u8, b"30".to_vec())]),
        _ => panic!("dvips syntax expected"),
    }
    match spc_util_read_dimtrns(&mut arg("rotate 30"), 0, 0) {
        DimTrnsRead::Pdfm(d) => assert!(matches!(&d.items[0], DimItem::Rotate(r) if r == b"30")),
        _ => panic!("pdf syntax expected"),
    }
}
