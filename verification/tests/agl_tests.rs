use tectonic::agl::{
    agl_chop_suffix, agl_guess_name, agl_name_convert_unicode, agl_name_is_unicode,
    agl_normalized_name, agl_suffix_to_otltag, is_smallcap, skip_capital, skip_modifier,
    var_list_entry, xtol,
};
use tectonic::agl_list::{
    agl_get_unicodes, agl_sput_UTF16BE, parse_agl_line, utf16be_encode_char, AglLine, AglMap,
};

fn lines(ls: &[&str]) -> Vec<Vec<u8>> {
    ls.iter().map(|l| l.as_bytes().to_vec()).collect()
}

#[test]
fn skip_capital_takes_ligatures_and_letters() {
    assert_eq!(skip_capital(b"AEacute"), (&b"acute"[..], 2));
    assert_eq!(skip_capital(b"OEsmall"), (&b"small"[..], 2));
    assert_eq!(skip_capital(b"Ethsmall"), (&b"small"[..], 3));
    assert_eq!(skip_capital(b"Thorn"), (&b""[..], 5));
    assert_eq!(skip_capital(b"Babc"), (&b"abc"[..], 1));
    assert_eq!(skip_capital(b"abc"), (&b"abc"[..], 0));
    assert_eq!(skip_capital(b""), (&b""[..], 0));
}

#[test]
fn skip_modifier_takes_the_first_listed_name() {
    assert_eq!(skip_modifier(b"acutefoo"), (&b"foo"[..], 5));
    // "exclam" comes before "exclamdown" in the list.
    assert_eq!(skip_modifier(b"exclamdown"), (&b"down"[..], 6));
    assert_eq!(skip_modifier(b"xyz"), (&b"xyz"[..], 0));
}

#[test]
fn smallcap_names() {
    assert!(is_smallcap(b"Asmall"));
    assert!(is_smallcap(b"AEsmall"));
    assert!(is_smallcap(b"Aacutesmall"));
    assert!(is_smallcap(b"acutesmall"));
    assert!(is_smallcap(b"Adieresisacutesmall"));
    assert!(!is_smallcap(b"Aacute"));
    assert!(!is_smallcap(b"small"));
    assert!(!is_smallcap(b"Xyzsmall"));
    assert!(!is_smallcap(b""));
}

#[test]
fn suffix_to_feature_tag() {
    assert_eq!(agl_suffix_to_otltag(b"sc"), Some(b"smcp".to_vec()));
    assert_eq!(agl_suffix_to_otltag(b"small"), Some(b"smcp".to_vec()));
    assert_eq!(agl_suffix_to_otltag(b"smcp"), Some(b"smcp".to_vec()));
    assert_eq!(agl_suffix_to_otltag(b"swash"), Some(b"swsh".to_vec()));
    assert_eq!(agl_suffix_to_otltag(b"oldstyle"), Some(b"onum".to_vec()));
    assert_eq!(agl_suffix_to_otltag(b"display"), Some(Vec::new()));
    assert_eq!(agl_suffix_to_otltag(b"foo"), None);
}

#[test]
fn variant_table_entries() {
    let e = var_list_entry(0);
    assert_eq!(e.key, b"small".to_vec());
    assert_eq!(e.otl_tag, b"smcp".to_vec());
    assert_eq!(e.suffixes, vec![b"sc".to_vec()]);
    let e = var_list_entry(12);
    assert_eq!(e.key, b"Bigg".to_vec());
    assert!(e.otl_tag.is_empty());
    assert!(e.suffixes.is_empty());
}

#[test]
fn guess_name_by_key() {
    assert_eq!(agl_guess_name(b"Asmall"), Some(0));
    assert_eq!(agl_guess_name(b"Aswash"), Some(1));
    assert_eq!(agl_guess_name(b"onesuperior"), Some(2));
    assert_eq!(agl_guess_name(b"swash"), None);
    assert_eq!(agl_guess_name(b"A"), None);
}

#[test]
fn chop_suffix_cases() {
    assert_eq!(agl_chop_suffix(b"A.sc"), (Some(b"A".to_vec()), Some(b"sc".to_vec())));
    assert_eq!(agl_chop_suffix(b".notdef"), (None, Some(b"notdef".to_vec())));
    assert_eq!(agl_chop_suffix(b"A."), (Some(b"A".to_vec()), None));
    assert_eq!(agl_chop_suffix(b"A"), (Some(b"A".to_vec()), None));
}

#[test]
fn normalized_names() {
    let n = agl_normalized_name(b"A.sc").unwrap();
    assert_eq!(n.name, b"A".to_vec());
    assert_eq!(n.suffix, Some(b"sc".to_vec()));
    let n = agl_normalized_name(b"Asmall").unwrap();
    assert_eq!(n.name, b"a".to_vec());
    assert_eq!(n.suffix, Some(b"sc".to_vec()));
    let n = agl_normalized_name(b"Aswash").unwrap();
    assert_eq!(n.name, b"A".to_vec());
    assert_eq!(n.suffix, Some(b"swash".to_vec()));
    let n = agl_normalized_name(b"zero").unwrap();
    assert_eq!(n.name, b"zero".to_vec());
    assert_eq!(n.suffix, None);
    assert!(agl_normalized_name(b"").is_none());
}

#[test]
fn unicode_glyph_names() {
    assert!(agl_name_is_unicode(b"uni0041"));
    assert!(agl_name_is_unicode(b"uni00410042"));
    assert!(agl_name_is_unicode(b"uni0041.sc"));
    assert!(!agl_name_is_unicode(b"union"));
    assert!(agl_name_is_unicode(b"u1F600"));
    assert!(agl_name_is_unicode(b"u0041"));
    assert!(!agl_name_is_unicode(b"uni004"));
    assert!(!agl_name_is_unicode(b"A"));
    assert!(!agl_name_is_unicode(b""));
}

#[test]
fn hex_values() {
    assert_eq!(xtol(b"41"), 0x41);
    assert_eq!(xtol(b"1F600"), 0x1F600);
    assert_eq!(xtol(b""), 0);
    assert_eq!(xtol(b"1f"), -1);
}

#[test]
fn convert_unicode_names() {
    assert_eq!(agl_name_convert_unicode(b"uni0041"), 0x41);
    assert_eq!(agl_name_convert_unicode(b"uni0041.sc"), 0x41);
    assert_eq!(agl_name_convert_unicode(b"u1F600"), 0x1F600);
    assert_eq!(agl_name_convert_unicode(b"uni00410042"), -1);
    assert_eq!(agl_name_convert_unicode(b"uniD800"), -1);
    assert_eq!(agl_name_convert_unicode(b"A"), -1);
}

#[test]
fn glyph_list_lines() {
    match parse_agl_line(b"A;0041") {
        AglLine::Entry { name, unicodes } => {
            assert_eq!(name, b"A".to_vec());
            assert_eq!(unicodes, vec![0x41]);
        }
        _ => panic!("entry expected"),
    }
    match parse_agl_line(b"  dotlessj ; 0237 0301 % comment") {
        AglLine::Entry { name, unicodes } => {
            assert_eq!(name, b"dotlessj".to_vec());
            assert_eq!(unicodes, vec![0x237, 0x301]);
        }
        _ => panic!("entry expected"),
    }
    assert!(matches!(parse_agl_line(b"# header"), AglLine::Skip));
    assert!(matches!(parse_agl_line(b""), AglLine::Skip));
    assert!(matches!(parse_agl_line(b"A0041"), AglLine::Skip));
    assert!(matches!(parse_agl_line(b";0041"), AglLine::Skip));
    assert!(matches!(parse_agl_line(b"A(;0041"), AglLine::Invalid));
    assert!(matches!(parse_agl_line(b"A;"), AglLine::NoMapping));
}

#[test]
fn load_and_look_up() {
    let mut m = AglMap::new();
    let n = m.agl_load_lines(&lines(&["A;0041", "# c", "B ; 0042 0043", "C;", "A;0061"]), 1);
    assert_eq!(n, 3);
    let a = m.agl_lookup_list(b"A").unwrap();
    assert_eq!(a.unicodes, vec![0x41]);
    assert_eq!(a.name, b"A".to_vec());
    assert_eq!(a.is_predef, 1);
    let b = m.agl_lookup_list(b"B").unwrap();
    assert_eq!(b.unicodes, vec![0x42, 0x43]);
    assert!(m.agl_lookup_list(b"C").is_none());
    assert!(m.agl_lookup_list(b"Z").is_none());
}

#[test]
fn lookup_after_insert_law() {
    let mut m = AglMap::new();
    m.agl_load_lines(&lines(&["x;0078"]), 0);
    assert_eq!(m.agl_lookup_list(b"x").unwrap().unicodes, vec![0x78]);
    m.agl_load_lines(&lines(&["y;0079"]), 0);
    // Other keys keep their entries.
    assert_eq!(m.agl_lookup_list(b"x").unwrap().unicodes, vec![0x78]);
    assert_eq!(m.agl_lookup_list(b"y").unwrap().unicodes, vec![0x79]);
}

#[test]
fn unicodes_of_glyph_names() {
    let mut m = AglMap::new();
    m.agl_load_lines(&lines(&["A;0041", "B;0042", "f_i;FB01"]), 0);
    assert_eq!(agl_get_unicodes(&m, b"uni0041", 16), Some(vec![0x41]));
    assert_eq!(agl_get_unicodes(&m, b"uni00410042", 16), Some(vec![0x41, 0x42]));
    assert_eq!(agl_get_unicodes(&m, b"A", 16), Some(vec![0x41]));
    assert_eq!(agl_get_unicodes(&m, b"A_B", 16), Some(vec![0x41, 0x42]));
    assert_eq!(agl_get_unicodes(&m, b"A_B.sc", 16), Some(vec![0x41, 0x42]));
    assert_eq!(agl_get_unicodes(&m, b"A_B", 1), None);
    assert_eq!(agl_get_unicodes(&m, b"Q", 16), None);
    assert_eq!(agl_get_unicodes(&m, b"_A", 16), None);
}

#[test]
fn utf16be_encoding() {
    let mut d = Vec::new();
    assert_eq!(utf16be_encode_char(0x41, &mut d, 10), 2);
    assert_eq!(d, vec![0x00, 0x41]);
    let mut d = Vec::new();
    assert_eq!(utf16be_encode_char(0x1F600, &mut d, 10), 4);
    assert_eq!(d, vec![0xD8, 0x3D, 0xDE, 0x00]);
    let mut d = Vec::new();
    assert_eq!(utf16be_encode_char(0x1F600, &mut d, 3), 0);
    assert!(d.is_empty());
}

#[test]
fn sput_utf16be() {
    let mut m = AglMap::new();
    m.agl_load_lines(&lines(&["A;0041"]), 0);
    let mut d = Vec::new();
    let mut fails = 0;
    let n = agl_sput_UTF16BE(&m, b"A_uni0042", &mut d, 64, &mut fails);
    assert_eq!(n, 4);
    assert_eq!(d, vec![0x00, 0x41, 0x00, 0x42]);
    assert_eq!(fails, 0);
    let mut d = Vec::new();
    let mut fails = 0;
    let n = agl_sput_UTF16BE(&m, b"Q_A", &mut d, 64, &mut fails);
    assert_eq!(n, 2);
    assert_eq!(d, vec![0x00, 0x41]);
    assert_eq!(fails, 1);
}
