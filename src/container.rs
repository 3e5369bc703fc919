use vstd::prelude::*;
use vstd::slice::slice_subrange;
use crate::adpcm::{ADPCMFormat, ADPCMstate, DecoderState, decoded, input_needed, state_after};
use crate::hvqm::{
    DataFormat, HVQM2AudioHeader, read_u32, HVQM2Header, HVQM2Record, RecordType, adpcm_format_of, be_u16,
    be_u32, data_format_of, record_type_of, signature, FRAME_HEADER_SIZE, HEADER_SIZE,
    KEYFRAME_HEADER_SIZE, PREDICT_HEADER_SIZE, RECORD_HEADER_SIZE,
};

verus! {

/// Why walking a file stopped before its end. `record` counts records from
/// 0 and `offset` is where that record's header starts.
#[derive(Copy, Clone, PartialEq, Eq, Debug, Structural)]
pub enum WalkError {
    /// The file is shorter than its header.
    ShortHeader,
    /// The header's tag is not the signature.
    MalformedHeader,
    /// A record header, sub-header or payload reaches past the end of the
    /// file, or an audio payload is too small for its declared samples.
    OutOfBounds { record: usize, offset: usize },
    /// A record's type code names no record type.
    UnknownType { record: usize, offset: usize },
    /// A record's format code names no format of its type.
    UnknownFormat { record: usize, offset: usize },
    /// A `Reset` audio record declares no samples, or its header bytes give
    /// a step index past the step-size table.
    BadReset { record: usize, offset: usize },
}

/// Where a record stands in the file and what its header says.
#[derive(Copy, Clone, PartialEq, Eq, Debug, Structural)]
pub struct RecordInfo {
    /// Offset of the record header.
    pub offset: usize,
    pub header: HVQM2Record,
    pub format: DataFormat,
}

/// What walking the records of a file produced.
pub struct Walk {
    /// Every record read in full, in file order.
    pub records: Vec<RecordInfo>,
    /// The samples of all audio records, in file order.
    pub audio: Vec<i16>,
    pub audio_records: usize,
    pub video_records: usize,
    /// Sum of the payload sizes of the audio records.
    pub compressed_audio_size: usize,
    /// Why the walk stopped early, if it did.
    pub error: Option<WalkError>,
}

/// The walk's progress as mathematical values.
pub struct WalkModel {
    pub records: Seq<RecordInfo>,
    pub audio: Seq<i16>,
    pub audio_records: int,
    pub video_records: int,
    pub compressed: int,
    pub state: DecoderState,
}

/// Progress before the first record: nothing read, the decoder at its start.
pub open spec fn initial_model() -> WalkModel {
    WalkModel {
        records: Seq::empty(),
        audio: Seq::empty(),
        audio_records: 0,
        video_records: 0,
        compressed: 0,
        state: DecoderState { sample: 0, index: 0 },
    }
}

/// The record header at `off`.
pub open spec fn header_at(buf: Seq<u8>, off: int) -> HVQM2Record {
    HVQM2Record {
        r_type: be_u16(buf, off) as u16,
        format: be_u16(buf, off + 2) as u16,
        size: be_u32(buf, off + 4) as u32,
    }
}

/// The data format of the record at `off`, if both its codes are known.
pub open spec fn format_at(buf: Seq<u8>, off: int) -> Option<DataFormat> {
    match record_type_of(be_u16(buf, off)) {
        Some(t) => data_format_of(be_u16(buf, off + 2), t),
        None => None,
    }
}

/// What stops the walk at the record at `off`, if anything.
pub open spec fn record_error(buf: Seq<u8>, off: int, index: int) -> Option<WalkError> {
    let record = index as usize;
    let offset = off as usize;
    if off + 8 > buf.len() {
        Some(WalkError::OutOfBounds { record, offset })
    } else if record_type_of(be_u16(buf, off)) is None {
        Some(WalkError::UnknownType { record, offset })
    } else if format_at(buf, off) is None {
        Some(WalkError::UnknownFormat { record, offset })
    } else {
        let size = be_u32(buf, off + 4);
        let p = off + 8;
        let f = format_at(buf, off)->Some_0;
        if p + size > buf.len() {
            Some(WalkError::OutOfBounds { record, offset })
        } else {
            match f {
                DataFormat::AudioKeyframe | DataFormat::AudioPredict => {
                    if size < 4 {
                        Some(WalkError::OutOfBounds { record, offset })
                    } else {
                        let samples = be_u32(buf, p);
                        let mode = adpcm_format_of(f)->Some_0;
                        if mode == ADPCMFormat::Reset && samples == 0 {
                            Some(WalkError::BadReset { record, offset })
                        } else if size < 4 + input_needed(mode, samples) {
                            Some(WalkError::OutOfBounds { record, offset })
                        } else if mode == ADPCMFormat::Reset && buf[p + 5] % 128 > 88 {
                            Some(WalkError::BadReset { record, offset })
                        } else {
                            None
                        }
                    }
                },
                DataFormat::VideoKeyframe => if size < 0x34 + 0x10 {
                    Some(WalkError::OutOfBounds { record, offset })
                } else {
                    None
                },
                DataFormat::VideoPredict => if size < 0x34 + 0x8 {
                    Some(WalkError::OutOfBounds { record, offset })
                } else {
                    None
                },
                DataFormat::VideoHold => None,
            }
        }
    }
}

/// Progress after reading the well-formed record at `off`.
pub open spec fn absorb(buf: Seq<u8>, off: int, acc: WalkModel) -> WalkModel {
    let h = header_at(buf, off);
    let f = format_at(buf, off)->Some_0;
    let size = be_u32(buf, off + 4);
    let p = off + 8;
    let records = acc.records.push(RecordInfo { offset: off as usize, header: h, format: f });
    match adpcm_format_of(f) {
        Some(mode) => {
            let samples = be_u32(buf, p);
            let input = buf.subrange(p + 4, p + size);
            WalkModel {
                records,
                audio: acc.audio + decoded(acc.state, input, mode, samples),
                audio_records: acc.audio_records + 1,
                video_records: acc.video_records,
                compressed: acc.compressed + size,
                state: state_after(acc.state, input, mode, samples),
            }
        },
        None => WalkModel { records, video_records: acc.video_records + 1, ..acc },
    }
}

/// Walks the records from `off` on, each found from the previous one's
/// declared size, until the end of the buffer or the first bad record.
pub open spec fn walk_from(buf: Seq<u8>, off: int, index: int, acc: WalkModel) -> (WalkModel, Option<WalkError>)
    decreases buf.len() - off,
{
    if off < 0 || off >= buf.len() {
        (acc, None)
    } else {
        match record_error(buf, off, index) {
            Some(e) => (acc, Some(e)),
            None => walk_from(buf, off + 8 + be_u32(buf, off + 4), index + 1, absorb(buf, off, acc)),
        }
    }
}

/// Whether a walk's output is the given progress and stopping reason.
pub open spec fn walk_matches(w: Walk, m: (WalkModel, Option<WalkError>)) -> bool {
    &&& w.records@ == m.0.records
    &&& w.audio@ == m.0.audio
    &&& w.audio_records as int == m.0.audio_records
    &&& w.video_records as int == m.0.video_records
    &&& w.compressed_audio_size as int == m.0.compressed
    &&& w.error == m.1
}

/// Reads the record header at `off` and checks that the whole record fits
/// the buffer and can be read; on success returns its header and format.
pub fn check_record(buf: &[u8], off: usize, index: usize) -> (r: Result<(HVQM2Record, DataFormat), WalkError>)
    requires
        off < buf@.len(),
    ensures
        r is Err <==> record_error(buf@, off as int, index as int) is Some,
        r is Err ==> r->Err_0 == record_error(buf@, off as int, index as int)->Some_0,
        r is Ok ==> r->Ok_0.0 == header_at(buf@, off as int) && r->Ok_0.1 == format_at(buf@, off as int)->Some_0,
{
    let ghost s = buf@;
    let ghost o = off as int;
    if buf.len() - off < RECORD_HEADER_SIZE {
        return Err(WalkError::OutOfBounds { record: index, offset: off });
    }
    let rec = HVQM2Record::new(slice_subrange(buf, off, off + RECORD_HEADER_SIZE));
    assert(be_u16(s.subrange(o, o + 8), 0) == be_u16(s, o));
    assert(be_u16(s.subrange(o, o + 8), 2) == be_u16(s, o + 2));
    assert(be_u32(s.subrange(o, o + 8), 4) == be_u32(s, o + 4));
    let t = match rec.record_type() {
        Ok(t) => t,
        Err(_) => {
            return Err(WalkError::UnknownType { record: index, offset: off });
        },
    };
    let f = match DataFormat::from_u16(rec.format, t) {
        Ok(f) => f,
        Err(_) => {
            return Err(WalkError::UnknownFormat { record: index, offset: off });
        },
    };
    let size = rec.size as usize;
    let p = off + RECORD_HEADER_SIZE;
    if size > buf.len() - p {
        return Err(WalkError::OutOfBounds { record: index, offset: off });
    }
    match f {
        DataFormat::AudioKeyframe | DataFormat::AudioPredict => {
            if size < 4 {
                return Err(WalkError::OutOfBounds { record: index, offset: off });
            }
            let samples = HVQM2AudioHeader::new(slice_subrange(buf, p, p + 4)).samples;
            assert(be_u32(s.subrange(p as int, p as int + 4), 0) == be_u32(s, p as int));
            let reset = f == DataFormat::AudioKeyframe;
            if reset && samples == 0 {
                return Err(WalkError::BadReset { record: index, offset: off });
            }
            let codes: u64 = if reset { samples as u64 - 1 } else { samples as u64 };
            let header_bytes: u64 = if reset { 2 } else { 0 };
            if (size as u64) < 4 + header_bytes + (codes + 1) / 2 {
                return Err(WalkError::OutOfBounds { record: index, offset: off });
            }
            if reset && buf[p + 5] % 128 > 88 {
                return Err(WalkError::BadReset { record: index, offset: off });
            }
        },
        DataFormat::VideoKeyframe => {
            if size < FRAME_HEADER_SIZE + KEYFRAME_HEADER_SIZE {
                return Err(WalkError::OutOfBounds { record: index, offset: off });
            }
        },
        DataFormat::VideoPredict => {
            if size < FRAME_HEADER_SIZE + PREDICT_HEADER_SIZE {
                return Err(WalkError::OutOfBounds { record: index, offset: off });
            }
        },
        DataFormat::VideoHold => {},
    }
    Ok((rec, f))
}

/// Reads a whole file: checks the container header, then walks the records
/// front to back, each found from the previous one's declared size, decoding
/// every audio record with one decoder state carried across the file. The
/// walk ends cleanly at the end of the buffer, or stops at the first bad
/// record and keeps what the records before it produced.
pub fn walk(buf: &Vec<u8>) -> (r: Result<Walk, WalkError>)
    ensures
        buf@.len() < HEADER_SIZE ==> r == Err::<Walk, WalkError>(WalkError::ShortHeader),
        buf@.len() >= HEADER_SIZE && buf@.subrange(0, 0x10) != signature() ==> r == Err::<Walk, WalkError>(
            WalkError::MalformedHeader,
        ),
        buf@.len() >= HEADER_SIZE && buf@.subrange(0, 0x10) == signature() ==> r is Ok && walk_matches(
            r->Ok_0,
            walk_from(buf@, HEADER_SIZE as int, 0, initial_model()),
        ),
{
    if buf.len() < HEADER_SIZE {
        return Err(WalkError::ShortHeader);
    }
    let header = HVQM2Header::new(buf);
    if !header.valid_header() {
        return Err(WalkError::MalformedHeader);
    }
    let b = buf.as_slice();
    let mut state = ADPCMstate::new();
    let mut records: Vec<RecordInfo> = Vec::new();
    let mut audio: Vec<i16> = Vec::new();
    let mut audio_records: usize = 0;
    let mut video_records: usize = 0;
    let mut compressed: usize = 0;
    let mut off: usize = HEADER_SIZE;
    let mut index: usize = 0;
    while off < b.len()
        invariant
            b@ == buf@,
            buf@.len() >= HEADER_SIZE,
            buf@.subrange(0, 0x10) == signature(),
            HEADER_SIZE <= off,
            state.wf(),
            audio_records + video_records == index,
            index * 8 <= off,
            compressed <= off,
            walk_from(
                buf@,
                off as int,
                index as int,
                (WalkModel {
                    records: records@,
                    audio: audio@,
                    audio_records: audio_records as int,
                    video_records: video_records as int,
                    compressed: compressed as int,
                    state: state@,
                }),
            ) == walk_from(buf@, HEADER_SIZE as int, 0, initial_model()),
        decreases b.len() - off,
    {
        let ghost acc = WalkModel {
            records: records@,
            audio: audio@,
            audio_records: audio_records as int,
            video_records: video_records as int,
            compressed: compressed as int,
            state: state@,
        };
        match check_record(b, off, index) {
            Err(e) => {
                return Ok(Walk { records, audio, audio_records, video_records, compressed_audio_size: compressed, error: Some(e) });
            },
            Ok((rec, f)) => {
                let size = rec.size as usize;
                let p = off + RECORD_HEADER_SIZE;
                records.push(RecordInfo { offset: off, header: rec, format: f });
                match f.toADPCMFormat() {
                    Ok(mode) => {
                        let samples = read_u32(b, p);
                        let input = slice_subrange(b, p + 4, p + size);
                        let mut out = state.adpcm_decode(input, mode, samples, false);
                        audio.append(&mut out);
                        audio_records = audio_records + 1;
                        compressed = compressed + size;
                    },
                    Err(_) => {
                        video_records = video_records + 1;
                    },
                }
                proof {
                    assert(absorb(buf@, off as int, acc) == (WalkModel {
                        records: records@,
                        audio: audio@,
                        audio_records: audio_records as int,
                        video_records: video_records as int,
                        compressed: compressed as int,
                        state: state@,
                    }));
                }
                off = p + size;
                index = index + 1;
            },
        }
    }
    Ok(Walk { records, audio, audio_records, video_records, compressed_audio_size: compressed, error: None })
}

/// A record whose declared size runs past the end of the buffer stops the
/// walk there with `OutOfBounds` for that record: the walk never ends
/// cleanly on a truncated record.
pub proof fn lemma_desync_detected(buf: Seq<u8>, off: int, index: int, acc: WalkModel)
    requires
        0 <= off,
        off + 8 <= buf.len(),
        off + 8 + be_u32(buf, off + 4) > buf.len(),
    ensures
        walk_from(buf, off, index, acc).1 is Some,
        format_at(buf, off) is Some ==> walk_from(buf, off, index, acc) == (
        acc,
        Some(WalkError::OutOfBounds { record: index as usize, offset: off as usize }),
        ),
{
}

} // verus!
