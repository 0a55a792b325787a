use moonbeam::writeback::{label_byte, last_writeback, pixel_formats, pixel_formats_blob, FourCc};

fn blob(codes: &[u32]) -> Vec<u8> {
    codes.iter().flat_map(|c| c.to_le_bytes()).collect()
}

#[test]
fn vkms_writeback_formats() {
    let codes = [0x34325241, 0x34325258, 0x34324241, 0x38345258, 0x38345241, 0x36314752];
    let formats = pixel_formats(&blob(&codes));
    let labels: Vec<String> =
        formats.iter().map(|f| String::from_utf8(f.label.clone()).unwrap()).collect();
    assert_eq!(formats.iter().map(|f| f.code).collect::<Vec<_>>(), codes.to_vec());
    assert_eq!(labels, vec!["AR24", "XR24", "AB24", "XR48", "AR48", "RG16"]);
}

#[test]
fn non_printable_bytes_become_dots() {
    assert_eq!(
        pixel_formats(&[0x41, 0x00, 0x20, 0x7f]),
        vec![FourCc { code: 0x7f200041, label: b"A...".to_vec() }]
    );
    assert_eq!(label_byte(b'~'), b'~');
    assert_eq!(label_byte(b'!'), b'!');
    assert_eq!(label_byte(b' '), b'.');
}

#[test]
fn trailing_partial_group_is_dropped() {
    assert_eq!(pixel_formats(&[1, 2, 3]), vec![]);
    assert_eq!(pixel_formats(&[0x52, 0x47, 0x31, 0x36, 9, 9]).len(), 1);
}

#[test]
fn last_writeback_connector_wins() {
    assert_eq!(last_writeback(&[true, false]), Some(0));
    assert_eq!(last_writeback(&[true, false, true, false]), Some(2));
    assert_eq!(last_writeback(&[false, false]), None);
    assert_eq!(last_writeback(&[]), None);
}

#[test]
fn pixel_formats_property_is_found_by_name() {
    let props = vec![
        ("DPMS".to_string(), 0u64),
        ("WRITEBACK_FB_ID".to_string(), 7),
        ("WRITEBACK_PIXEL_FORMATS".to_string(), 42),
        ("CRTC_ID".to_string(), 3),
    ];
    assert_eq!(pixel_formats_blob(&props), Some(42));
    assert_eq!(pixel_formats_blob(&props[..2]), None);
    let twice = vec![
        ("WRITEBACK_PIXEL_FORMATS".to_string(), 1u64),
        ("WRITEBACK_PIXEL_FORMATS".to_string(), 2),
    ];
    assert_eq!(pixel_formats_blob(&twice), Some(2));
}
