use dicom_thumbs::naming::{name_output, to_hex};

#[test]
fn hex_renders_each_byte_as_two_lowercase_digits() {
    assert_eq!(to_hex(&[0x00, 0xab, 0xff, 0x10, 0x09]), "00abff1009");
    assert_eq!(to_hex(&[]), "");
}

#[test]
fn source_extension_becomes_png() {
    assert_eq!(
        name_output("/x/y/scan.dcm"),
        "64d4291a18c9f3c90d02cc0ca4a00d60bfa6ed3d28ddbad5b13d43877ac7fd1d_scan.png"
    );
}

#[test]
fn name_without_extension_gets_png_appended() {
    assert_eq!(
        name_output("/x/y/noext"),
        "19750d51970aac0acc2dc0800ed67ea816e9535f094c2a21578d3e78eb26ff4b_noext.png"
    );
}

#[test]
fn same_base_name_in_two_directories_gives_two_names() {
    let a = name_output("/a/scan1.dcm");
    let b = name_output("/b/scan1.dcm");
    assert_eq!(
        a,
        "d1e5102794fde56d604dcf24688d4db26beb8c62f90f1c2c19a57c909311be81_scan1.png"
    );
    assert_eq!(
        b,
        "a946d4fddd0d0862fd062678cbf30127ce9e680a1fb6d2534561b76a280dee5b_scan1.png"
    );
    assert_ne!(a, b);
}

#[test]
fn naming_is_stable_across_calls() {
    assert_eq!(name_output("/data/p1/img.dcm"), name_output("/data/p1/img.dcm"));
}

#[test]
fn path_without_final_component_uses_placeholder() {
    let empty = name_output("");
    assert_eq!(
        empty,
        "e3b0c44298fc1c149afbf4c8996fb92427ae41e4649b934ca495991b7852b855_unknown.png"
    );
    assert!(name_output("/").ends_with("_unknown.png"));
    assert!(name_output("a/..").ends_with("_unknown.png"));
    assert!(name_output(".").ends_with("_unknown.png"));
    assert!(name_output("/.").ends_with("_unknown.png"));
}

#[test]
fn trailing_dot_components_are_ignored() {
    assert!(name_output("a/.").ends_with("_a.png"));
    assert!(name_output("dir/scan.dcm/./").ends_with("_scan.png"));
    assert!(name_output("a/./b.dcm").ends_with("_b.png"));
}

#[test]
fn trailing_slashes_are_ignored() {
    let n = name_output("dir/scan.dcm//");
    assert!(n.ends_with("_scan.png"));
    assert_eq!(n.len(), 64 + 1 + "scan.png".len());
}

#[test]
fn only_a_final_dcm_extension_is_replaced() {
    assert!(name_output("/p/a.dcm.bak").ends_with("_a.dcm.bak.png"));
    assert!(name_output("/p/x.dcm.dcm").ends_with("_x.dcm.png"));
    assert!(name_output("/p/.dcm").ends_with("_.png"));
    assert!(name_output("/p/scan.DCM").ends_with("_scan.DCM.png"));
}

#[test]
fn non_ascii_names_are_kept() {
    let n = name_output("/p/bild_ä.dcm");
    assert!(n.ends_with("_bild_ä.png"));
    assert!(n.chars().take(64).all(|c| c.is_ascii_hexdigit() && !c.is_ascii_uppercase()));
}
