use hazel::pixels::{rgba_tightly_packed, DrmPlane, VAAPIDecoderParams, RGBA_BYTES};

#[test]
fn tight_rows_are_copied_as_is() {
    let data: Vec<u8> = (0..16).collect();
    assert_eq!(rgba_tightly_packed(&data, 2, 2, 8), data);
}

#[test]
fn padding_between_rows_is_dropped() {
    let data: Vec<u8> = (0..30).collect();
    let packed = rgba_tightly_packed(&data, 1, 3, 10);
    assert_eq!(packed, vec![0, 1, 2, 3, 10, 11, 12, 13, 20, 21, 22, 23]);
}

#[test]
fn last_row_needs_no_padding() {
    let data: Vec<u8> = (0..14).collect();
    let packed = rgba_tightly_packed(&data, 1, 2, 10);
    assert_eq!(packed, vec![0, 1, 2, 3, 10, 11, 12, 13]);
}

#[test]
fn empty_image() {
    assert!(rgba_tightly_packed(&[], 0, 5, 0).is_empty());
    assert!(rgba_tightly_packed(&[], 3, 0, 12).is_empty());
}

#[test]
fn plain_frame_descriptions() {
    assert_eq!(RGBA_BYTES, 4);
    let p = DrmPlane { offset: 0, stride: 7680 };
    assert_eq!(p, DrmPlane { offset: 0, stride: 7680 });
    let d = VAAPIDecoderParams { width: 1920, height: 1080 };
    assert_eq!(d.width * d.height, 2_073_600);
}
