use nuklear_backend_wgpu::upload::{upload_layout, UploadLayout};

#[test]
fn matching_image_gives_pitches() {
    assert_eq!(upload_layout(2 * 3 * 4, 2, 3), Some(UploadLayout { bytes_per_row: 8, rows_per_image: 12 }));
    assert_eq!(upload_layout(0, 0, 5), Some(UploadLayout { bytes_per_row: 0, rows_per_image: 20 }));
}

#[test]
fn mismatched_image_is_refused() {
    assert_eq!(upload_layout(23, 2, 3), None);
    assert_eq!(upload_layout(25, 2, 3), None);
}

#[test]
fn oversized_pitch_is_refused() {
    assert_eq!(upload_layout(0, 0x4000_0000, 0), None);
    assert_eq!(upload_layout(0, 0, 0x4000_0000), None);
    assert_eq!(upload_layout(0, 0x3FFF_FFFF, 0), Some(UploadLayout { bytes_per_row: 0xFFFF_FFFC, rows_per_image: 0 }));
}
