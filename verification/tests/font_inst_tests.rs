use tectonic::font_inst::{afm_name, tolower, xbasename};

#[test]
fn lowercase_ascii_only() {
    assert_eq!(tolower(b'P' as i32), b'p' as i32);
    assert_eq!(tolower(b'p' as i32), b'p' as i32);
    assert_eq!(tolower(b'@' as i32), b'@' as i32);
    assert_eq!(tolower(200), 200);
    assert_eq!(tolower(-1), -1);
}

#[test]
fn basename_after_last_slash() {
    assert_eq!(xbasename(b"/usr/share/fonts/a.pfb"), b"a.pfb");
    assert_eq!(xbasename(b"a.pfb"), b"a.pfb");
    assert_eq!(xbasename(b"dir/"), b"");
}

#[test]
fn metrics_file_name() {
    assert_eq!(afm_name(b"/fonts/type1/cmr10.pfb"), b"cmr10.afm".to_vec());
    assert_eq!(afm_name(b"CMR10.PFA"), b"CMR10.afm".to_vec());
    assert_eq!(afm_name(b"x.y/font.otf"), b"font.otf".to_vec());
    assert_eq!(afm_name(b"font.pfbx"), b"font.pfbx".to_vec());
    assert_eq!(afm_name(b"a.b/noext"), b"noext".to_vec());
    assert_eq!(afm_name(b".pfb"), b".afm".to_vec());
}
