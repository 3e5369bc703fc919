use hvqm2::adpcm::{ADPCMFormat, ADPCMstate};

#[test]
fn format_codes_map_to_modes() {
    assert_eq!(ADPCMFormat::new(0), Ok(ADPCMFormat::Reset));
    assert_eq!(ADPCMFormat::new(1), Ok(ADPCMFormat::Continue));
    assert_eq!(ADPCMFormat::new(2), Err(()));
    assert_eq!(ADPCMFormat::new(u32::MAX), Err(()));
}

#[test]
fn new_state_starts_at_zero() {
    let st = ADPCMstate::new();
    assert_eq!(st.previous(), 0);
    assert_eq!(st.step_index(), 0);
}

#[test]
fn reset_record_decodes_table_arithmetic() {
    let mut st = ADPCMstate::new();
    let out = st.adpcm_decode(&[0x12, 0x34, 0x0F], ADPCMFormat::Reset, 3, false);
    assert_eq!(out, vec![0x1200, 4740, 2936]);
    assert_eq!(st.previous(), 2936);
    assert_eq!(st.step_index(), 59);
}

#[test]
fn reset_only_sample_keeps_header_values() {
    let mut st = ADPCMstate::with_state(-5, 3);
    let out = st.adpcm_decode(&[0x12, 0xB4], ADPCMFormat::Reset, 1, false);
    assert_eq!(out, vec![0x1280]);
    assert_eq!(st.previous(), 0x1280);
    assert_eq!(st.step_index(), 0x34);
}

#[test]
fn reset_sample_is_signed() {
    let mut st = ADPCMstate::new();
    let out = st.adpcm_decode(&[0x80, 0xC5, 0x21], ADPCMFormat::Reset, 2, false);
    assert_eq!(out, vec![-32640, -29292]);
    assert_eq!(st.step_index(), 68);
}

#[test]
fn stereo_duplicates_every_sample() {
    let mut st = ADPCMstate::new();
    let out = st.adpcm_decode(&[0x12, 0x34, 0x0F], ADPCMFormat::Reset, 3, true);
    assert_eq!(out, vec![0x1200, 0x1200, 4740, 4740, 2936, 2936]);
}

#[test]
fn reset_ignores_prior_state() {
    let input = [0x80, 0xC5, 0x21];
    let mut a = ADPCMstate::new();
    let mut b = ADPCMstate::with_state(-700, 70);
    let oa = a.adpcm_decode(&input, ADPCMFormat::Reset, 2, false);
    let ob = b.adpcm_decode(&input, ADPCMFormat::Reset, 2, false);
    assert_eq!(oa, ob);
    assert_eq!(a.previous(), b.previous());
    assert_eq!(a.step_index(), b.step_index());
}

#[test]
fn positive_overflow_saturates() {
    let mut st = ADPCMstate::with_state(32000, 88);
    let out = st.adpcm_decode(&[0x77], ADPCMFormat::Continue, 2, false);
    assert_eq!(out, vec![32767, 32767]);
    assert_eq!(st.step_index(), 88);
}

#[test]
fn negative_overflow_saturates() {
    let mut st = ADPCMstate::with_state(-32000, 88);
    let out = st.adpcm_decode(&[0xFF], ADPCMFormat::Continue, 2, false);
    assert_eq!(out, vec![-32768, -32768]);
}

#[test]
fn step_index_clamps_at_zero() {
    let mut st = ADPCMstate::new();
    let out = st.adpcm_decode(&[0x00, 0x00], ADPCMFormat::Continue, 4, false);
    assert_eq!(out, vec![0, 0, 0, 0]);
    assert_eq!(st.step_index(), 0);
}

#[test]
fn step_index_clamps_at_top() {
    let mut st = ADPCMstate::with_state(0, 80);
    let out = st.adpcm_decode(&[0x77, 0x77], ADPCMFormat::Continue, 4, false);
    assert_eq!(out, vec![28666, 32767, 32767, 32767]);
    assert_eq!(st.step_index(), 88);
}

#[test]
fn continue_records_equal_one_joined_record() {
    let a = [0x12, 0x9A];
    let b = [0x3C, 0x7F];
    let mut split = ADPCMstate::with_state(100, 10);
    let mut out = split.adpcm_decode(&a, ADPCMFormat::Continue, 4, false);
    out.extend(split.adpcm_decode(&b, ADPCMFormat::Continue, 4, false));
    let mut joined = ADPCMstate::with_state(100, 10);
    let whole = joined.adpcm_decode(&[0x12, 0x9A, 0x3C, 0x7F], ADPCMFormat::Continue, 8, false);
    assert_eq!(out, whole);
    assert_eq!(out, vec![106, 116, 110, 102, 112, 99, 124, 68]);
    assert_eq!(split.previous(), joined.previous());
    assert_eq!(split.step_index(), joined.step_index());
    assert_eq!(split.step_index(), 23);
}

#[test]
fn continue_with_no_samples_changes_nothing() {
    let mut st = ADPCMstate::with_state(1234, 40);
    let out = st.adpcm_decode(&[], ADPCMFormat::Continue, 0, false);
    assert!(out.is_empty());
    assert_eq!(st.previous(), 1234);
    assert_eq!(st.step_index(), 40);
}
