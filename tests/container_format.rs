use hvqm2::adpcm::ADPCMFormat;
use hvqm2::container::{walk, RecordInfo, WalkError};
use hvqm2::hvqm::{
    read_u16, read_u32, DataFormat, HVQM2AudioHeader, HVQM2Frame, HVQM2Header, HVQM2KeyFrame,
    HVQM2PredictFrame, HVQM2Record, RecordType,
};

const SIGNATURE: [u8; 16] = [0x48, 0x56, 0x51, 0x4D, 0x32, 0x20, 0x31, 0x2E, 0x30, 0, 0, 0, 0, 0, 0, 0];

fn file_header() -> Vec<u8> {
    let mut buf = vec![0u8; 0x3C];
    buf[..16].copy_from_slice(&SIGNATURE);
    buf[0x2D] = 1;
    buf[0x2E] = 16;
    buf
}

fn record(r_type: u16, format: u16, payload: &[u8]) -> Vec<u8> {
    let mut r = Vec::new();
    r.extend_from_slice(&r_type.to_be_bytes());
    r.extend_from_slice(&format.to_be_bytes());
    r.extend_from_slice(&(payload.len() as u32).to_be_bytes());
    r.extend_from_slice(payload);
    r
}

#[test]
fn big_endian_reads() {
    let b = [0x12, 0x34, 0x56, 0x78, 0x9A];
    assert_eq!(read_u16(&b, 0), 0x1234);
    assert_eq!(read_u16(&b, 3), 0x789A);
    assert_eq!(read_u32(&b, 1), 0x3456789A);
}

#[test]
fn header_fields_parse() {
    let mut buf = file_header();
    buf[0x10..0x14].copy_from_slice(&[0, 1, 0, 0]);
    buf[0x14..0x16].copy_from_slice(&[0x01, 0x40]);
    buf[0x16..0x18].copy_from_slice(&[0x00, 0xF0]);
    buf[0x18] = 2;
    buf[0x19] = 1;
    buf[0x1C..0x20].copy_from_slice(&[0, 0, 0, 30]);
    buf[0x20..0x24].copy_from_slice(&[0, 0, 0x82, 0x35]);
    buf[0x34..0x38].copy_from_slice(&[0, 0, 0x56, 0x22]);
    buf[0x38..0x3C].copy_from_slice(&[0, 0, 0x10, 0x00]);
    let h = HVQM2Header::new(&buf);
    assert_eq!(h.file_version, SIGNATURE);
    assert_eq!(h.file_size, 0x10000);
    assert_eq!(h.width, 320);
    assert_eq!(h.height, 240);
    assert_eq!(h.h_sampling_rate, 2);
    assert_eq!(h.v_sampling_rate, 1);
    assert_eq!(h.total_frames, 30);
    assert_eq!(h.usec_per_frame, 33333);
    assert_eq!(h.channels, 1);
    assert_eq!(h.sample_bits, 16);
    assert_eq!(h.samples_per_sec, 22050);
    assert_eq!(h.max_audio_record_size, 4096);
    assert!(h.valid_header());
}

#[test]
fn signature_byte_flips_invalidate_header() {
    for i in 0..16 {
        let mut buf = file_header();
        buf[i] ^= 0x01;
        assert!(!HVQM2Header::new(&buf).valid_header(), "byte {}", i);
    }
}

#[test]
fn header_text_of_signature() {
    let h = HVQM2Header::new(&file_header());
    assert_eq!(h.header_str(), Some("HVQM2 1.0\0\0\0\0\0\0\0"));
    let mut buf = file_header();
    buf[3] = 0xFF;
    assert_eq!(HVQM2Header::new(&buf).header_str(), None);
}

#[test]
fn record_type_and_format_codes() {
    assert_eq!(RecordType::from_u16(0), Ok(RecordType::Audio));
    assert_eq!(RecordType::from_u16(1), Ok(RecordType::Video));
    assert_eq!(RecordType::from_u16(2), Err(()));
    assert_eq!(DataFormat::from_u16(0, RecordType::Audio), Ok(DataFormat::AudioKeyframe));
    assert_eq!(DataFormat::from_u16(1, RecordType::Audio), Ok(DataFormat::AudioPredict));
    assert_eq!(DataFormat::from_u16(2, RecordType::Audio), Err(()));
    assert_eq!(DataFormat::from_u16(0, RecordType::Video), Ok(DataFormat::VideoKeyframe));
    assert_eq!(DataFormat::from_u16(1, RecordType::Video), Ok(DataFormat::VideoPredict));
    assert_eq!(DataFormat::from_u16(2, RecordType::Video), Ok(DataFormat::VideoHold));
    assert_eq!(DataFormat::from_u16(3, RecordType::Video), Err(()));
}

#[test]
fn audio_formats_map_to_decoder_modes() {
    assert_eq!(DataFormat::AudioKeyframe.toADPCMFormat(), Ok(ADPCMFormat::Reset));
    assert_eq!(DataFormat::AudioPredict.toADPCMFormat(), Ok(ADPCMFormat::Continue));
    assert_eq!(DataFormat::VideoKeyframe.toADPCMFormat(), Err(()));
    assert_eq!(DataFormat::VideoPredict.toADPCMFormat(), Err(()));
    assert_eq!(DataFormat::VideoHold.toADPCMFormat(), Err(()));
}

#[test]
fn record_header_parses() {
    let r = HVQM2Record::new(&[0, 1, 0, 2, 0, 0, 1, 4, 0xAA]);
    assert_eq!(r.r_type, 1);
    assert_eq!(r.format, 2);
    assert_eq!(r.size, 260);
    assert_eq!(r.record_type(), Ok(RecordType::Video));
    assert_eq!(r.data_format(), Ok(DataFormat::VideoHold));
    let bad_type = HVQM2Record::new(&[0, 7, 0, 0, 0, 0, 0, 0]);
    assert_eq!(bad_type.record_type(), Err(()));
    assert_eq!(bad_type.data_format(), Err(()));
    let bad_format = HVQM2Record::new(&[0, 0, 0, 2, 0, 0, 0, 0]);
    assert_eq!(bad_format.data_format(), Err(()));
}

#[test]
fn sub_headers_parse() {
    let bytes: Vec<u8> = (0u8..0x40).collect();
    assert_eq!(HVQM2AudioHeader::new(&bytes).samples, 0x00010203);
    let f = HVQM2Frame::new(&bytes);
    assert_eq!(f.basisnum_offset, [0x00010203, 0x04050607]);
    assert_eq!(f.basnumrn_offset, [0x08090A0B, 0x0C0D0E0F]);
    assert_eq!(f.scale_offset, [0x10111213, 0x14151617, 0x18191A1B]);
    assert_eq!(f.fixvl_offset, [0x1C1D1E1F, 0x20212223, 0x24252627]);
    assert_eq!(f.dcval_offset, [0x28292A2B, 0x2C2D2E2F, 0x30313233]);
    let k = HVQM2KeyFrame::new(&bytes);
    assert_eq!(k.dcrun_offset, [0x00010203, 0x04050607, 0x08090A0B]);
    assert_eq!(k.nest_start_x, 0x0C0D);
    assert_eq!(k.nest_start_y, 0x0E0F);
    let p = HVQM2PredictFrame::new(&bytes[4..]);
    assert_eq!(p.movevector_offset, 0x04050607);
    assert_eq!(p.macroblock_offset, 0x08090A0B);
}

#[test]
fn end_to_end_single_audio_record() {
    let mut buf = file_header();
    buf.extend(record(0, 0, &[0, 0, 0, 3, 0x12, 0x34, 0x0F]));
    let w = walk(&buf).unwrap();
    assert_eq!(w.audio, vec![0x1200, 4740, 2936]);
    assert_eq!(w.audio_records, 1);
    assert_eq!(w.video_records, 0);
    assert_eq!(w.compressed_audio_size, 7);
    assert_eq!(w.error, None);
    let h = HVQM2Record { r_type: 0, format: 0, size: 7 };
    assert_eq!(w.records, vec![RecordInfo { offset: 0x3C, header: h, format: DataFormat::AudioKeyframe }]);
}

#[test]
fn walk_carries_state_and_counts_video() {
    let mut buf = file_header();
    buf.extend(record(0, 0, &[0, 0, 0, 3, 0x12, 0x34, 0x0F]));
    buf.extend(record(1, 2, &[]));
    buf.extend(record(1, 0, &[0u8; 0x44]));
    buf.extend(record(1, 1, &[0u8; 0x3C]));
    buf.extend(record(0, 1, &[0, 0, 0, 3, 0x3C, 0x7F]));
    let w = walk(&buf).unwrap();
    assert_eq!(w.audio, vec![0x1200, 4740, 2936, 4743, 2631, 6891]);
    assert_eq!(w.audio_records, 2);
    assert_eq!(w.video_records, 3);
    assert_eq!(w.compressed_audio_size, 13);
    assert_eq!(w.error, None);
    let formats: Vec<DataFormat> = w.records.iter().map(|r| r.format).collect();
    assert_eq!(
        formats,
        vec![
            DataFormat::AudioKeyframe,
            DataFormat::VideoHold,
            DataFormat::VideoKeyframe,
            DataFormat::VideoPredict,
            DataFormat::AudioPredict
        ]
    );
    assert_eq!(w.records[1].offset, 0x3C + 15);
}

#[test]
fn header_only_file_has_no_records() {
    let w = walk(&file_header()).unwrap();
    assert!(w.records.is_empty());
    assert!(w.audio.is_empty());
    assert_eq!(w.error, None);
}

#[test]
fn short_file_is_rejected() {
    assert_eq!(walk(&vec![0x48u8; 10]).err(), Some(WalkError::ShortHeader));
}

#[test]
fn foreign_file_is_rejected() {
    let mut buf = file_header();
    buf[8] = b'1';
    assert_eq!(walk(&buf).err(), Some(WalkError::MalformedHeader));
}

#[test]
fn oversized_record_is_out_of_bounds() {
    let mut buf = file_header();
    buf.extend(record(1, 2, &[]));
    let mut bad = record(0, 1, &[0, 0, 0, 2, 0x11]);
    bad[7] = 40;
    buf.extend(bad);
    let w = walk(&buf).unwrap();
    assert_eq!(w.error, Some(WalkError::OutOfBounds { record: 1, offset: 0x44 }));
    assert_eq!(w.video_records, 1);
    assert_eq!(w.records.len(), 1);
}

#[test]
fn truncated_record_header_is_out_of_bounds() {
    let mut buf = file_header();
    buf.extend([0, 0, 0]);
    let w = walk(&buf).unwrap();
    assert_eq!(w.error, Some(WalkError::OutOfBounds { record: 0, offset: 0x3C }));
}

#[test]
fn audio_payload_too_small_is_out_of_bounds() {
    let mut buf = file_header();
    buf.extend(record(0, 1, &[0, 0, 0, 5, 0x11, 0x22]));
    let w = walk(&buf).unwrap();
    assert_eq!(w.error, Some(WalkError::OutOfBounds { record: 0, offset: 0x3C }));
    assert!(w.audio.is_empty());
}

#[test]
fn short_video_sub_header_is_out_of_bounds() {
    let mut buf = file_header();
    buf.extend(record(1, 1, &[0u8; 0x3B]));
    let w = walk(&buf).unwrap();
    assert_eq!(w.error, Some(WalkError::OutOfBounds { record: 0, offset: 0x3C }));
}

#[test]
fn unknown_codes_stop_the_walk() {
    let mut buf = file_header();
    buf.extend(record(2, 0, &[]));
    assert_eq!(walk(&buf).unwrap().error, Some(WalkError::UnknownType { record: 0, offset: 0x3C }));
    let mut buf = file_header();
    buf.extend(record(0, 2, &[]));
    assert_eq!(walk(&buf).unwrap().error, Some(WalkError::UnknownFormat { record: 0, offset: 0x3C }));
}

#[test]
fn bad_reset_records_stop_the_walk() {
    let mut buf = file_header();
    buf.extend(record(0, 0, &[0, 0, 0, 0, 0x12, 0x34]));
    assert_eq!(walk(&buf).unwrap().error, Some(WalkError::BadReset { record: 0, offset: 0x3C }));
    let mut buf = file_header();
    buf.extend(record(0, 0, &[0, 0, 0, 1, 0x12, 0x59]));
    assert_eq!(walk(&buf).unwrap().error, Some(WalkError::BadReset { record: 0, offset: 0x3C }));
}
