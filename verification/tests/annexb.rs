use hazel::annex::{annex_b_nals, find_start_code, NalType, MAX_NALS};

#[test]
fn start_code_three_bytes() {
    assert_eq!(find_start_code(&[0, 0, 1, 5]), Some((0, 3)));
    assert_eq!(find_start_code(&[1, 0, 0, 1]), Some((1, 3)));
}

#[test]
fn start_code_four_bytes() {
    assert_eq!(find_start_code(&[9, 0, 0, 0, 1]), Some((1, 4)));
    assert_eq!(find_start_code(&[0, 0, 0, 0, 1]), Some((1, 4)));
}

#[test]
fn start_code_absent() {
    assert_eq!(find_start_code(&[]), None);
    assert_eq!(find_start_code(&[0, 1, 0, 0]), None);
    assert_eq!(find_start_code(&[0, 0, 2, 1]), None);
}

#[test]
fn start_code_run_broken_by_other_byte() {
    assert_eq!(find_start_code(&[0, 0, 2, 0, 0, 1]), Some((3, 3)));
}

#[test]
fn splits_access_unit() {
    let buf = [0, 0, 0, 1, 0x67, 1, 2, 0, 0, 1, 0x68, 3, 0, 0, 1, 0x65, 4, 5];
    let nals = annex_b_nals(&buf);
    assert_eq!(nals.len(), 3);
    assert_eq!(nals[0].data, &[0x67, 1, 2]);
    assert_eq!(nals[0].type_, NalType::Sps);
    assert_eq!(nals[1].data, &[0x68, 3]);
    assert_eq!(nals[1].type_, NalType::Pps);
    assert_eq!(nals[2].data, &[0x65, 4, 5]);
    assert_eq!(nals[2].type_, NalType::Idr);
}

#[test]
fn other_nal_type_and_leading_garbage() {
    let nals = annex_b_nals(&[7, 7, 0, 0, 1, 0x41, 9]);
    assert_eq!(nals.len(), 1);
    assert_eq!(nals[0].data, &[0x41, 9]);
    assert_eq!(nals[0].type_, NalType::Other);
}

#[test]
fn no_start_code_gives_no_nal() {
    assert_eq!(annex_b_nals(&[1, 2, 3]).len(), 0);
    assert_eq!(annex_b_nals(&[]).len(), 0);
}

#[test]
fn empty_nal_stops_splitting() {
    assert_eq!(annex_b_nals(&[0, 0, 1, 0, 0, 1, 0x65]).len(), 0);
    let nals = annex_b_nals(&[0, 0, 1, 0x65, 0, 0, 1]);
    assert_eq!(nals.len(), 1);
    assert_eq!(nals[0].data, &[0x65]);
}

#[test]
fn full_access_unit() {
    let mut buf = Vec::new();
    for i in 0..MAX_NALS {
        buf.extend_from_slice(&[0, 0, 1, 0x41, i as u8 + 2]);
    }
    let nals = annex_b_nals(&buf);
    assert_eq!(nals.len(), MAX_NALS);
    for (i, nal) in nals.iter().enumerate() {
        assert_eq!(nal.data, &[0x41, i as u8 + 2]);
    }
}
