use vstd::prelude::*;
use vstd::string::StringSliceAdditionalSpecFns;
use vstd::utf8::valid_utf8;
use crate::adpcm::ADPCMFormat;

verus! {

/// Size of the container header at the start of a file.
pub const HEADER_SIZE: usize = 0x3C;

/// Size of the header in front of every record.
pub const RECORD_HEADER_SIZE: usize = 8;

/// Big-endian 16-bit value at `off`.
pub open spec fn be_u16(b: Seq<u8>, off: int) -> int {
    b[off] as int * 0x100 + b[off + 1] as int
}

/// Big-endian 32-bit value at `off`.
pub open spec fn be_u32(b: Seq<u8>, off: int) -> int {
    b[off] as int * 0x1000000 + b[off + 1] as int * 0x10000 + b[off + 2] as int * 0x100 + b[off + 3] as int
}

/// Reads a big-endian `u16` at `off`.
pub fn read_u16(buf: &[u8], off: usize) -> (r: u16)
    requires
        off + 2 <= buf@.len(),
    ensures
        r as int == be_u16(buf@, off as int),
{
    buf[off] as u16 * 0x100 + buf[off + 1] as u16
}

/// Reads a big-endian `u32` at `off`.
pub fn read_u32(buf: &[u8], off: usize) -> (r: u32)
    requires
        off + 4 <= buf@.len(),
    ensures
        r as int == be_u32(buf@, off as int),
{
    buf[off] as u32 * 0x1000000 + buf[off + 1] as u32 * 0x10000 + buf[off + 2] as u32 * 0x100
        + buf[off + 3] as u32
}

/// The tag a valid file starts with: "HVQM2 1.0" padded with seven zero bytes.
pub open spec fn signature() -> Seq<u8> {
    seq![0x48u8, 0x56, 0x51, 0x4D, 0x32, 0x20, 0x31, 0x2E, 0x30, 0, 0, 0, 0, 0, 0, 0]
}

/// The container header, read once at offset 0.
pub struct HVQM2Header {
    pub file_version: [u8; 16],
    /// File size in bytes.
    pub file_size: u32,
    /// Image width in pixels.
    pub width: u16,
    /// Image height in pixels.
    pub height: u16,
    /// Horizontal sampling step of the chroma components.
    pub h_sampling_rate: u8,
    /// Vertical sampling step of the chroma components.
    pub v_sampling_rate: u8,
    pub y_shiftnum: u8,
    pub video_quantize_shift: u8,
    /// Number of video records.
    pub total_frames: u32,
    /// Interval between video frames in microseconds.
    pub usec_per_frame: u32,
    /// Largest video record payload in bytes.
    pub max_frame_size: u32,
    pub max_sp_packets: u32,
    pub audio_format: u8,
    pub channels: u8,
    /// Bits per audio sample and channel.
    pub sample_bits: u8,
    pub audio_quantize_step: u8,
    /// Number of audio records.
    pub total_audio_records: u32,
    /// Audio sample rate in Hz.
    pub samples_per_sec: u32,
    /// Largest audio record payload in bytes.
    pub max_audio_record_size: u32,
}

impl HVQM2Header {
    /// Whether the header's tag is the signature.
    pub open spec fn is_valid(&self) -> bool {
        self.file_version@ == signature()
    }

    /// Parses the container header from the first 0x3C bytes of `buf`.
    pub fn new(buf: &Vec<u8>) -> (r: HVQM2Header)
        requires
            buf@.len() >= HEADER_SIZE,
        ensures
            r.file_version@ == buf@.subrange(0, 0x10),
            r.file_size as int == be_u32(buf@, 0x10),
            r.width as int == be_u16(buf@, 0x14),
            r.height as int == be_u16(buf@, 0x16),
            r.h_sampling_rate == buf@[0x18],
            r.v_sampling_rate == buf@[0x19],
            r.y_shiftnum == buf@[0x1A],
            r.video_quantize_shift == buf@[0x1B],
            r.total_frames as int == be_u32(buf@, 0x1C),
            r.usec_per_frame as int == be_u32(buf@, 0x20),
            r.max_frame_size as int == be_u32(buf@, 0x24),
            r.max_sp_packets as int == be_u32(buf@, 0x28),
            r.audio_format == buf@[0x2C],
            r.channels == buf@[0x2D],
            r.sample_bits == buf@[0x2E],
            r.audio_quantize_step == buf@[0x2F],
            r.total_audio_records as int == be_u32(buf@, 0x30),
            r.samples_per_sec as int == be_u32(buf@, 0x34),
            r.max_audio_record_size as int == be_u32(buf@, 0x38),
    {
        let b = buf.as_slice();
        let mut file_version: [u8; 16] = [0u8; 16];
        let mut i: usize = 0;
        while i < 16
            invariant
                i <= 16,
                b@ == buf@,
                b@.len() >= HEADER_SIZE,
                forall|j: int| 0 <= j < i ==> file_version@[j] == b@[j],
            decreases 16 - i,
        {
            file_version[i] = b[i];
            i = i + 1;
        }
        assert(file_version@ =~= buf@.subrange(0, 0x10));
        HVQM2Header {
            file_version,
            file_size: read_u32(b, 0x10),
            width: read_u16(b, 0x14),
            height: read_u16(b, 0x16),
            h_sampling_rate: b[0x18],
            v_sampling_rate: b[0x19],
            y_shiftnum: b[0x1A],
            video_quantize_shift: b[0x1B],
            total_frames: read_u32(b, 0x1C),
            usec_per_frame: read_u32(b, 0x20),
            max_frame_size: read_u32(b, 0x24),
            max_sp_packets: read_u32(b, 0x28),
            audio_format: b[0x2C],
            channels: b[0x2D],
            sample_bits: b[0x2E],
            audio_quantize_step: b[0x2F],
            total_audio_records: read_u32(b, 0x30),
            samples_per_sec: read_u32(b, 0x34),
            max_audio_record_size: read_u32(b, 0x38),
        }
    }

    /// Whether the tag is the signature; a file whose tag is not cannot be read.
    pub fn valid_header(&self) -> (r: bool)
        ensures
            r == self.is_valid(),
    {
        let valid: [u8; 16] = [0x48, 0x56, 0x51, 0x4D, 0x32, 0x20, 0x31, 0x2E, 0x30, 0, 0, 0, 0, 0, 0, 0];
        assert(valid@ =~= signature());
        let mut i: usize = 0;
        while i < 16
            invariant
                i <= 16,
                valid@ == signature(),
                forall|j: int| 0 <= j < i ==> self.file_version@[j] == valid@[j],
            decreases 16 - i,
        {
            if self.file_version[i] != valid[i] {
                return false;
            }
            i = i + 1;
        }
        assert(self.file_version@ =~= signature());
        true
    }

    /// The tag as text, when it is valid UTF-8.
    pub fn header_str(&self) -> (r: Option<&str>)
        ensures
            r is Some <==> valid_utf8(self.file_version@),
            r is Some ==> r->Some_0.spec_bytes() == self.file_version@,
    {
        utf8_str(self.file_version.as_slice())
    }
}

/// Relies on std::str::from_utf8: it succeeds exactly on valid UTF-8, and
/// the text then holds the same bytes.
#[verifier::external_body]
fn utf8_str(b: &[u8]) -> (r: Option<&str>)
    ensures
        r is Some <==> valid_utf8(b@),
        r is Some ==> r->Some_0.spec_bytes() == b@,
{
    std::str::from_utf8(b).ok()
}

/// A file whose first 16 bytes are the signature parses to a valid header,
/// and changing any one of those bytes makes the parsed header invalid.
pub proof fn lemma_signature_flip(buf: Seq<u8>, i: int, v: u8)
    requires
        buf.len() >= HEADER_SIZE,
        buf.subrange(0, 0x10) == signature(),
        0 <= i < 0x10,
        v != buf[i],
    ensures
        forall|h: HVQM2Header| #[trigger] h.file_version@ == buf.subrange(0, 0x10) ==> h.is_valid(),
        forall|h: HVQM2Header| #[trigger] h.file_version@ == buf.update(i, v).subrange(0, 0x10) ==> !h.is_valid(),
{
    assert(buf.update(i, v).subrange(0, 0x10)[i] == v);
    assert(signature()[i] == buf.subrange(0, 0x10)[i]);
}

/// The two kinds of record.
#[derive(Copy, Clone, PartialEq, Eq, Debug, Structural)]
pub enum RecordType {
    Audio,
    Video,
}

impl RecordType {
    /// Maps a record-type code: 0 is `Audio`, 1 is `Video`, anything else fails.
    pub fn from_u16(t: u16) -> (r: Result<RecordType, ()>)
        ensures
            t == 0 ==> r == Ok::<RecordType, ()>(RecordType::Audio),
            t == 1 ==> r == Ok::<RecordType, ()>(RecordType::Video),
            t > 1 ==> r is Err,
    {
        match t {
            0 => Ok(RecordType::Audio),
            1 => Ok(RecordType::Video),
            _ => Err(()),
        }
    }
}

/// The data format of a record, by record type.
#[derive(Copy, Clone, PartialEq, Eq, Debug, Structural)]
pub enum DataFormat {
    AudioKeyframe,
    AudioPredict,
    VideoKeyframe,
    VideoPredict,
    VideoHold,
}

/// The record type for a type code, if it names one.
pub open spec fn record_type_of(t: int) -> Option<RecordType> {
    if t == 0 {
        Some(RecordType::Audio)
    } else if t == 1 {
        Some(RecordType::Video)
    } else {
        None
    }
}

/// The data format for a format code within a record type, if it names one.
pub open spec fn data_format_of(format: int, record_type: RecordType) -> Option<DataFormat> {
    match record_type {
        RecordType::Audio => if format == 0 {
            Some(DataFormat::AudioKeyframe)
        } else if format == 1 {
            Some(DataFormat::AudioPredict)
        } else {
            None
        },
        RecordType::Video => if format == 0 {
            Some(DataFormat::VideoKeyframe)
        } else if format == 1 {
            Some(DataFormat::VideoPredict)
        } else if format == 2 {
            Some(DataFormat::VideoHold)
        } else {
            None
        },
    }
}

/// The decoder mode an audio format stands for.
pub open spec fn adpcm_format_of(f: DataFormat) -> Option<ADPCMFormat> {
    match f {
        DataFormat::AudioKeyframe => Some(ADPCMFormat::Reset),
        DataFormat::AudioPredict => Some(ADPCMFormat::Continue),
        _ => None,
    }
}

impl DataFormat {
    /// Maps a format code within `record_type`: audio has 0 keyframe and 1
    /// predict; video has 0 keyframe, 1 predict and 2 hold.
    pub fn from_u16(format: u16, record_type: RecordType) -> (r: Result<DataFormat, ()>)
        ensures
            r is Ok <==> data_format_of(format as int, record_type) is Some,
            r is Ok ==> r->Ok_0 == data_format_of(format as int, record_type)->Some_0,
    {
        match record_type {
            RecordType::Audio => match format {
                0 => Ok(DataFormat::AudioKeyframe),
                1 => Ok(DataFormat::AudioPredict),
                _ => Err(()),
            },
            RecordType::Video => match format {
                0 => Ok(DataFormat::VideoKeyframe),
                1 => Ok(DataFormat::VideoPredict),
                2 => Ok(DataFormat::VideoHold),
                _ => Err(()),
            },
        }
    }

    /// The decoder mode of an audio format: keyframe resets, predict
    /// continues; a video format has none.
    #[allow(non_snake_case)]
    pub fn toADPCMFormat(&self) -> (r: Result<ADPCMFormat, ()>)
        ensures
            r is Ok <==> adpcm_format_of(*self) is Some,
            r is Ok ==> r->Ok_0 == adpcm_format_of(*self)->Some_0,
    {
        match self {
            DataFormat::AudioKeyframe => Ok(ADPCMFormat::Reset),
            DataFormat::AudioPredict => Ok(ADPCMFormat::Continue),
            _ => Err(()),
        }
    }
}

/// The header in front of every record.
#[derive(Copy, Clone, PartialEq, Eq, Debug, Structural)]
pub struct HVQM2Record {
    /// Record type code.
    pub r_type: u16,
    /// Data format code.
    pub format: u16,
    /// Payload size in bytes, not counting this header.
    pub size: u32,
}

impl HVQM2Record {
    /// Parses a record header from the first 8 bytes of `buf`.
    pub fn new(buf: &[u8]) -> (r: HVQM2Record)
        requires
            buf@.len() >= RECORD_HEADER_SIZE,
        ensures
            r.r_type as int == be_u16(buf@, 0),
            r.format as int == be_u16(buf@, 2),
            r.size as int == be_u32(buf@, 4),
    {
        HVQM2Record { r_type: read_u16(buf, 0), format: read_u16(buf, 2), size: read_u32(buf, 4) }
    }

    /// The record type its code names.
    pub fn record_type(&self) -> (r: Result<RecordType, ()>)
        ensures
            r is Ok <==> record_type_of(self.r_type as int) is Some,
            r is Ok ==> r->Ok_0 == record_type_of(self.r_type as int)->Some_0,
    {
        RecordType::from_u16(self.r_type)
    }

    /// The data format its codes name; fails when either code is unknown.
    pub fn data_format(&self) -> (r: Result<DataFormat, ()>)
        ensures
            r is Ok <==> (record_type_of(self.r_type as int) is Some && data_format_of(
                self.format as int,
                record_type_of(self.r_type as int)->Some_0,
            ) is Some),
            r is Ok ==> r->Ok_0 == data_format_of(self.format as int, record_type_of(self.r_type as int)->Some_0)->Some_0,
    {
        match self.record_type() {
            Err(value) => Err(value),
            Ok(rec_type) => DataFormat::from_u16(self.format, rec_type),
        }
    }
}

/// The sub-header of an audio record.
pub struct HVQM2AudioHeader {
    /// Number of samples per channel.
    pub samples: u32,
}

impl HVQM2AudioHeader {
    /// Parses the sample count from the first 4 bytes of `buf`.
    pub fn new(buf: &[u8]) -> (r: HVQM2AudioHeader)
        requires
            buf@.len() >= 4,
        ensures
            r.samples as int == be_u32(buf@, 0),
    {
        HVQM2AudioHeader { samples: read_u32(buf, 0) }
    }
}

/// Size of the video frame sub-header.
pub const FRAME_HEADER_SIZE: usize = 0x34;

/// Size of the keyframe sub-header.
pub const KEYFRAME_HEADER_SIZE: usize = 0x10;

/// Size of the predict-frame sub-header.
pub const PREDICT_HEADER_SIZE: usize = 0x8;

/// The sub-header of a keyframe or predict video record: where each
/// sub-stream starts inside the payload.
pub struct HVQM2Frame {
    /// Basis number blocks (0: luma, 1: chroma).
    pub basisnum_offset: [u32; 2],
    /// Basis number runs (0: luma, 1: chroma).
    pub basnumrn_offset: [u32; 2],
    /// Basis coefficients (0: Y, 1: U, 2: V).
    pub scale_offset: [u32; 3],
    /// Fixed-length codes (0: Y, 1: U, 2: V).
    pub fixvl_offset: [u32; 3],
    /// Block DC values (0: Y, 1: U, 2: V).
    pub dcval_offset: [u32; 3],
}

impl HVQM2Frame {
    /// Parses the frame sub-header from the first 0x34 bytes of `buf`.
    pub fn new(buf: &[u8]) -> (r: HVQM2Frame)
        requires
            buf@.len() >= FRAME_HEADER_SIZE,
        ensures
            r.basisnum_offset@ == seq![be_u32(buf@, 0x00) as u32, be_u32(buf@, 0x04) as u32],
            r.basnumrn_offset@ == seq![be_u32(buf@, 0x08) as u32, be_u32(buf@, 0x0C) as u32],
            r.scale_offset@ == seq![be_u32(buf@, 0x10) as u32, be_u32(buf@, 0x14) as u32, be_u32(buf@, 0x18) as u32],
            r.fixvl_offset@ == seq![be_u32(buf@, 0x1C) as u32, be_u32(buf@, 0x20) as u32, be_u32(buf@, 0x24) as u32],
            r.dcval_offset@ == seq![be_u32(buf@, 0x28) as u32, be_u32(buf@, 0x2C) as u32, be_u32(buf@, 0x30) as u32],
    {
        let basisnum_offset: [u32; 2] = [read_u32(buf, 0x00), read_u32(buf, 0x04)];
        let basnumrn_offset: [u32; 2] = [read_u32(buf, 0x08), read_u32(buf, 0x0C)];
        let scale_offset: [u32; 3] = [read_u32(buf, 0x10), read_u32(buf, 0x14), read_u32(buf, 0x18)];
        let fixvl_offset: [u32; 3] = [read_u32(buf, 0x1C), read_u32(buf, 0x20), read_u32(buf, 0x24)];
        let dcval_offset: [u32; 3] = [read_u32(buf, 0x28), read_u32(buf, 0x2C), read_u32(buf, 0x30)];
        assert(basisnum_offset@ =~= seq![be_u32(buf@, 0x00) as u32, be_u32(buf@, 0x04) as u32]);
        assert(basnumrn_offset@ =~= seq![be_u32(buf@, 0x08) as u32, be_u32(buf@, 0x0C) as u32]);
        assert(scale_offset@ =~= seq![be_u32(buf@, 0x10) as u32, be_u32(buf@, 0x14) as u32, be_u32(buf@, 0x18) as u32]);
        assert(fixvl_offset@ =~= seq![be_u32(buf@, 0x1C) as u32, be_u32(buf@, 0x20) as u32, be_u32(buf@, 0x24) as u32]);
        assert(dcval_offset@ =~= seq![be_u32(buf@, 0x28) as u32, be_u32(buf@, 0x2C) as u32, be_u32(buf@, 0x30) as u32]);
        HVQM2Frame { basisnum_offset, basnumrn_offset, scale_offset, fixvl_offset, dcval_offset }
    }
}

/// The sub-header of a keyframe, after the frame sub-header.
pub struct HVQM2KeyFrame {
    /// DC value runs (0: Y, 1: U, 2: V).
    pub dcrun_offset: [u32; 3],
    /// Start x coordinate of the base.
    pub nest_start_x: u16,
    /// Start y coordinate of the base.
    pub nest_start_y: u16,
}

impl HVQM2KeyFrame {
    /// Parses the keyframe sub-header from the first 0x10 bytes of `buf`.
    pub fn new(buf: &[u8]) -> (r: HVQM2KeyFrame)
        requires
            buf@.len() >= KEYFRAME_HEADER_SIZE,
        ensures
            r.dcrun_offset@ == seq![be_u32(buf@, 0x00) as u32, be_u32(buf@, 0x04) as u32, be_u32(buf@, 0x08) as u32],
            r.nest_start_x as int == be_u16(buf@, 0x0C),
            r.nest_start_y as int == be_u16(buf@, 0x0E),
    {
        let dcrun_offset: [u32; 3] = [read_u32(buf, 0x00), read_u32(buf, 0x04), read_u32(buf, 0x08)];
        assert(dcrun_offset@ =~= seq![be_u32(buf@, 0x00) as u32, be_u32(buf@, 0x04) as u32, be_u32(buf@, 0x08) as u32]);
        HVQM2KeyFrame { dcrun_offset, nest_start_x: read_u16(buf, 0x0C), nest_start_y: read_u16(buf, 0x0E) }
    }
}

/// The sub-header of a predict frame, after the frame sub-header.
pub struct HVQM2PredictFrame {
    /// Motion vectors.
    pub movevector_offset: u32,
    /// Macroblock state flags.
    pub macroblock_offset: u32,
}

impl HVQM2PredictFrame {
    /// Parses the predict-frame sub-header from the first 8 bytes of `buf`.
    pub fn new(buf: &[u8]) -> (r: HVQM2PredictFrame)
        requires
            buf@.len() >= PREDICT_HEADER_SIZE,
        ensures
            r.movevector_offset as int == be_u32(buf@, 0x00),
            r.macroblock_offset as int == be_u32(buf@, 0x04),
    {
        HVQM2PredictFrame { movevector_offset: read_u32(buf, 0x00), macroblock_offset: read_u32(buf, 0x04) }
    }
}

} // verus!
