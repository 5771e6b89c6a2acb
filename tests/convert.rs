use dicom_pixeldata::image::GenericImageView;
use dicom_thumbs::convert::{make_thumbnail, ConversionError, Stage, THUMBNAIL_SIDE};

/// One element in explicit VR little endian.
fn element(out: &mut Vec<u8>, group: u16, elem: u16, vr: &[u8; 2], value: &[u8]) {
    let mut v = value.to_vec();
    if v.len() % 2 == 1 {
        v.push(if vr == b"UI" || vr == b"OB" { 0 } else { b' ' });
    }
    out.extend_from_slice(&group.to_le_bytes());
    out.extend_from_slice(&elem.to_le_bytes());
    out.extend_from_slice(vr);
    if vr == b"OB" || vr == b"OW" {
        out.extend_from_slice(&[0, 0]);
        out.extend_from_slice(&(v.len() as u32).to_le_bytes());
    } else {
        out.extend_from_slice(&(v.len() as u16).to_le_bytes());
    }
    out.extend_from_slice(&v);
}

/// A DICOM file holding one 8-bit monochrome frame.
fn dicom_bytes(rows: u16, cols: u16, seed: u8, with_pixels: bool) -> Vec<u8> {
    let sop_class = b"1.2.840.10008.5.1.4.1.1.7";
    let sop_instance = b"1.2.3.4.5";
    let mut meta = Vec::new();
    element(&mut meta, 0x0002, 0x0001, b"OB", &[0, 1]);
    element(&mut meta, 0x0002, 0x0002, b"UI", sop_class);
    element(&mut meta, 0x0002, 0x0003, b"UI", sop_instance);
    element(&mut meta, 0x0002, 0x0010, b"UI", b"1.2.840.10008.1.2.1");
    element(&mut meta, 0x0002, 0x0012, b"UI", b"1.2.3.4");
    let mut out = vec![0u8; 128];
    out.extend_from_slice(b"DICM");
    element(&mut out, 0x0002, 0x0000, b"UL", &(meta.len() as u32).to_le_bytes());
    out.extend_from_slice(&meta);
    element(&mut out, 0x0008, 0x0016, b"UI", sop_class);
    element(&mut out, 0x0008, 0x0018, b"UI", sop_instance);
    element(&mut out, 0x0028, 0x0002, b"US", &1u16.to_le_bytes());
    element(&mut out, 0x0028, 0x0004, b"CS", b"MONOCHROME2");
    element(&mut out, 0x0028, 0x0010, b"US", &rows.to_le_bytes());
    element(&mut out, 0x0028, 0x0011, b"US", &cols.to_le_bytes());
    element(&mut out, 0x0028, 0x0100, b"US", &8u16.to_le_bytes());
    element(&mut out, 0x0028, 0x0101, b"US", &8u16.to_le_bytes());
    element(&mut out, 0x0028, 0x0102, b"US", &7u16.to_le_bytes());
    element(&mut out, 0x0028, 0x0103, b"US", &0u16.to_le_bytes());
    if with_pixels {
        let n = rows as usize * cols as usize;
        let pixels: Vec<u8> = (0..n).map(|i| (i as u8).wrapping_add(seed)).collect();
        element(&mut out, 0x7fe0, 0x0010, b"OB", &pixels);
    }
    out
}

#[test]
fn garbage_fails_at_open() {
    let r = make_thumbnail(b"definitely not a DICOM file");
    assert!(matches!(r, Err(ConversionError::Open(_))));
    assert_eq!(r.err().map(|e| e.stage()), Some(Stage::Open));
}

#[test]
fn empty_input_fails_at_open() {
    assert!(matches!(make_thumbnail(&[]), Err(ConversionError::Open(_))));
}

#[test]
fn missing_pixel_data_fails_at_decode() {
    let r = make_thumbnail(&dicom_bytes(4, 4, 0, false));
    assert!(matches!(r, Err(ConversionError::Decode(_))));
    assert_eq!(r.err().map(|e| e.stage()), Some(Stage::Decode));
}

#[test]
fn square_frame_becomes_full_box_png() {
    let t = make_thumbnail(&dicom_bytes(512, 512, 0, true)).ok().expect("thumbnail");
    assert_eq!((t.source_width, t.source_height), (512, 512));
    assert_eq!((t.width, t.height), (THUMBNAIL_SIDE, THUMBNAIL_SIDE));
    assert_eq!(&t.png[..8], b"\x89PNG\r\n\x1a\n");
    let img = dicom_pixeldata::image::load_from_memory(&t.png).expect("decodable png");
    assert_eq!(img.dimensions(), (150, 150));
}

#[test]
fn wide_frame_keeps_aspect_ratio() {
    let t = make_thumbnail(&dicom_bytes(100, 300, 3, true)).ok().expect("thumbnail");
    assert_eq!((t.source_width, t.source_height), (300, 100));
    assert_eq!((t.width, t.height), (150, 50));
}

#[test]
fn small_frame_is_fitted_to_the_box() {
    let t = make_thumbnail(&dicom_bytes(20, 10, 9, true)).ok().expect("thumbnail");
    assert_eq!((t.width, t.height), (75, 150));
}

#[test]
fn two_sources_with_different_pixels_give_two_thumbnails() {
    let a = make_thumbnail(&dicom_bytes(512, 512, 0, true)).ok().expect("first");
    let b = make_thumbnail(&dicom_bytes(512, 512, 77, true)).ok().expect("second");
    assert_eq!((a.width, a.height), (150, 150));
    assert_eq!((b.width, b.height), (150, 150));
    assert_ne!(a.png, b.png);
}
