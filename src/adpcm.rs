use vstd::prelude::*;

verus! {

/// How an audio record starts: `Reset` seeds the decoder from two header
/// bytes, `Continue` resumes from the carried-over state.
#[derive(Copy, Clone, PartialEq, Eq, Debug, Structural)]
pub enum ADPCMFormat {
    Reset,
    Continue,
}

impl ADPCMFormat {
    /// Maps a format code: 0 is `Reset`, 1 is `Continue`, anything else fails.
    pub fn new(format: u32) -> (r: Result<ADPCMFormat, ()>)
        ensures
            format == 0 ==> r == Ok::<ADPCMFormat, ()>(ADPCMFormat::Reset),
            format == 1 ==> r == Ok::<ADPCMFormat, ()>(ADPCMFormat::Continue),
            format > 1 ==> r is Err,
    {
        match format {
            0 => Ok(ADPCMFormat::Reset),
            1 => Ok(ADPCMFormat::Continue),
            _ => Err(()),
        }
    }
}

/// Largest valid index into the quantizer step-size table.
pub const MAX_STEP_INDEX: u8 = 88;

/// The quantizer step size at index `i` of the table.
pub open spec fn step_size(i: int) -> int {
    step_table_entry(i as u8)
}

/// The quantizer step-size table: 89 sizes growing from 7 to 32767.
pub open spec fn step_table_entry(i: u8) -> int {
    match i {
        0 => 0x0007,
        1 => 0x0008,
        2 => 0x0009,
        3 => 0x000A,
        4 => 0x000B,
        5 => 0x000C,
        6 => 0x000D,
        7 => 0x000E,
        8 => 0x0010,
        9 => 0x0011,
        10 => 0x0013,
        11 => 0x0015,
        12 => 0x0017,
        13 => 0x0019,
        14 => 0x001C,
        15 => 0x001F,
        16 => 0x0022,
        17 => 0x0025,
        18 => 0x0029,
        19 => 0x002D,
        20 => 0x0032,
        21 => 0x0037,
        22 => 0x003C,
        23 => 0x0042,
        24 => 0x0049,
        25 => 0x0050,
        26 => 0x0058,
        27 => 0x0061,
        28 => 0x006B,
        29 => 0x0076,
        30 => 0x0082,
        31 => 0x008F,
        32 => 0x009D,
        33 => 0x00AD,
        34 => 0x00BE,
        35 => 0x00D1,
        36 => 0x00E6,
        37 => 0x00FD,
        38 => 0x0117,
        39 => 0x0133,
        40 => 0x0151,
        41 => 0x0173,
        42 => 0x0198,
        43 => 0x01C1,
        44 => 0x01EE,
        45 => 0x0220,
        46 => 0x0256,
        47 => 0x0292,
        48 => 0x02D4,
        49 => 0x031C,
        50 => 0x036C,
        51 => 0x03C3,
        52 => 0x0424,
        53 => 0x048E,
        54 => 0x0502,
        55 => 0x0583,
        56 => 0x0610,
        57 => 0x06AB,
        58 => 0x0756,
        59 => 0x0812,
        60 => 0x08E0,
        61 => 0x09C3,
        62 => 0x0ABD,
        63 => 0x0BD0,
        64 => 0x0CFF,
        65 => 0x0E4C,
        66 => 0x0FBA,
        67 => 0x114C,
        68 => 0x1307,
        69 => 0x14EE,
        70 => 0x1706,
        71 => 0x1954,
        72 => 0x1BDC,
        73 => 0x1EA5,
        74 => 0x21B6,
        75 => 0x2515,
        76 => 0x28CA,
        77 => 0x2CDF,
        78 => 0x315B,
        79 => 0x364B,
        80 => 0x3BB9,
        81 => 0x41B2,
        82 => 0x4844,
        83 => 0x4F7E,
        84 => 0x5771,
        85 => 0x602F,
        86 => 0x69CE,
        87 => 0x7462,
        _ => 0x7FFF,
    }
}

/// The index-delta table, indexed by a 4-bit code: -1, -1, -1, -1, 2, 4, 6, 8,
/// then the same again for the codes with the sign bit set.
pub open spec fn index_delta(code: int) -> int {
    let c = code % 8;
    if c < 4 {
        -1
    } else if c == 4 {
        2
    } else if c == 5 {
        4
    } else if c == 6 {
        6
    } else {
        8
    }
}

pub open spec fn clamp(v: int, lo: int, hi: int) -> int {
    if v < lo {
        lo
    } else if v > hi {
        hi
    } else {
        v
    }
}

/// Unsigned size of the difference that `code` encodes at quantizer step `step`.
pub open spec fn magnitude(step: int, code: int) -> int {
    step / 8 + (if code % 2 == 1 { step / 4 } else { 0 }) + (if (code / 2) % 2 == 1 {
        step / 2
    } else {
        0
    }) + (if (code / 4) % 2 == 1 { step } else { 0 })
}

/// Signed difference that `code` encodes: bit 3 is the sign.
pub open spec fn difference(step: int, code: int) -> int {
    if code >= 8 {
        -magnitude(step, code)
    } else {
        magnitude(step, code)
    }
}

/// The decoder's quantizer state as mathematical integers.
pub struct DecoderState {
    pub sample: int,
    pub index: int,
}

impl DecoderState {
    pub open spec fn in_range(self) -> bool {
        -32768 <= self.sample <= 32767 && 0 <= self.index <= 88
    }
}

/// The state after decoding one 4-bit code.
pub open spec fn next_state(st: DecoderState, code: int) -> DecoderState {
    DecoderState {
        sample: clamp(st.sample + difference(step_size(st.index), code), -32768, 32767),
        index: clamp(st.index + index_delta(code), 0, 88),
    }
}

/// The state after decoding a whole sequence of codes, in order.
pub open spec fn run(st: DecoderState, codes: Seq<int>) -> DecoderState
    decreases codes.len(),
{
    if codes.len() == 0 {
        st
    } else {
        next_state(run(st, codes.drop_last()), codes.last())
    }
}

/// The samples emitted while decoding `codes`: one per code, the sample after it.
pub open spec fn outputs(st: DecoderState, codes: Seq<int>) -> Seq<i16>
    decreases codes.len(),
{
    if codes.len() == 0 {
        Seq::empty()
    } else {
        outputs(st, codes.drop_last()).push(run(st, codes).sample as i16)
    }
}

/// The `k`-th 4-bit code of a packed stream: high nibble first, then low.
pub open spec fn nibble(bytes: Seq<u8>, k: int) -> int {
    if k % 2 == 0 {
        bytes[k / 2] as int / 16
    } else {
        bytes[k / 2] as int % 16
    }
}

/// The first `n` codes of a packed stream.
pub open spec fn codes_of(bytes: Seq<u8>, n: int) -> Seq<int> {
    Seq::new(n as nat, |k: int| nibble(bytes, k))
}

/// Number of bytes that hold `n` packed codes.
pub open spec fn packed_len(n: int) -> int {
    (n + 1) / 2
}

/// The initial sample a `Reset` record encodes in its two header bytes:
/// `(b0 << 8) | (b1 & 0x80)` read as a signed 16-bit value.
pub open spec fn reset_sample(b0: u8, b1: u8) -> int {
    let u = b0 as int * 256 + (if b1 >= 128 { 128int } else { 0int });
    if u >= 32768 {
        u - 65536
    } else {
        u
    }
}

/// The state a `Reset` record starts from: the low 7 bits of `b1` are the step index.
pub open spec fn reset_state(b0: u8, b1: u8) -> DecoderState {
    DecoderState { sample: reset_sample(b0, b1), index: b1 as int % 128 }
}

/// Bytes of the stream taken by a record's own header.
pub open spec fn header_len(format: ADPCMFormat) -> int {
    match format {
        ADPCMFormat::Reset => 2,
        ADPCMFormat::Continue => 0,
    }
}

/// Number of samples that come from codes (a `Reset` record's first sample
/// comes from its header).
pub open spec fn code_count(format: ADPCMFormat, samples: int) -> int {
    match format {
        ADPCMFormat::Reset => samples - 1,
        ADPCMFormat::Continue => samples,
    }
}

/// Bytes of input that a record of `samples` samples reads.
pub open spec fn input_needed(format: ADPCMFormat, samples: int) -> int {
    header_len(format) + packed_len(code_count(format, samples))
}

/// The state the code sequence of a record is decoded from.
pub open spec fn start_state(st: DecoderState, input: Seq<u8>, format: ADPCMFormat) -> DecoderState {
    match format {
        ADPCMFormat::Reset => reset_state(input[0], input[1]),
        ADPCMFormat::Continue => st,
    }
}

/// The codes of a record.
pub open spec fn record_codes(input: Seq<u8>, format: ADPCMFormat, samples: int) -> Seq<int> {
    codes_of(input.skip(header_len(format)), code_count(format, samples))
}

/// One sample per channel slot: the samples a record decodes to, in order.
pub open spec fn decoded(st: DecoderState, input: Seq<u8>, format: ADPCMFormat, samples: int) -> Seq<i16> {
    let s0 = start_state(st, input, format);
    let tail = outputs(s0, record_codes(input, format, samples));
    match format {
        ADPCMFormat::Reset => seq![s0.sample as i16] + tail,
        ADPCMFormat::Continue => tail,
    }
}

/// The state left behind after decoding a record.
pub open spec fn state_after(st: DecoderState, input: Seq<u8>, format: ADPCMFormat, samples: int) -> DecoderState {
    run(start_state(st, input, format), record_codes(input, format, samples))
}

/// Each sample written twice when `twice` holds (mono fanned out to two channels).
pub open spec fn widen(s: Seq<i16>, twice: bool) -> Seq<i16>
    decreases s.len(),
{
    if !twice || s.len() == 0 {
        s
    } else {
        widen(s.drop_last(), twice) + seq![s.last(), s.last()]
    }
}

/// Every entry of the step-size table lies in [7, 32767].
pub proof fn lemma_step_size_range()
    ensures
        forall|i: int| 0 <= i <= 88 ==> 7 <= #[trigger] step_size(i) <= 32767,
{
}

/// Looks up the quantizer step size at `i`.
fn step_size_at(i: u8) -> (r: u32)
    requires
        i <= MAX_STEP_INDEX,
    ensures
        r as int == step_size(i as int),
{
    match i {
        0 => 0x0007,
        1 => 0x0008,
        2 => 0x0009,
        3 => 0x000A,
        4 => 0x000B,
        5 => 0x000C,
        6 => 0x000D,
        7 => 0x000E,
        8 => 0x0010,
        9 => 0x0011,
        10 => 0x0013,
        11 => 0x0015,
        12 => 0x0017,
        13 => 0x0019,
        14 => 0x001C,
        15 => 0x001F,
        16 => 0x0022,
        17 => 0x0025,
        18 => 0x0029,
        19 => 0x002D,
        20 => 0x0032,
        21 => 0x0037,
        22 => 0x003C,
        23 => 0x0042,
        24 => 0x0049,
        25 => 0x0050,
        26 => 0x0058,
        27 => 0x0061,
        28 => 0x006B,
        29 => 0x0076,
        30 => 0x0082,
        31 => 0x008F,
        32 => 0x009D,
        33 => 0x00AD,
        34 => 0x00BE,
        35 => 0x00D1,
        36 => 0x00E6,
        37 => 0x00FD,
        38 => 0x0117,
        39 => 0x0133,
        40 => 0x0151,
        41 => 0x0173,
        42 => 0x0198,
        43 => 0x01C1,
        44 => 0x01EE,
        45 => 0x0220,
        46 => 0x0256,
        47 => 0x0292,
        48 => 0x02D4,
        49 => 0x031C,
        50 => 0x036C,
        51 => 0x03C3,
        52 => 0x0424,
        53 => 0x048E,
        54 => 0x0502,
        55 => 0x0583,
        56 => 0x0610,
        57 => 0x06AB,
        58 => 0x0756,
        59 => 0x0812,
        60 => 0x08E0,
        61 => 0x09C3,
        62 => 0x0ABD,
        63 => 0x0BD0,
        64 => 0x0CFF,
        65 => 0x0E4C,
        66 => 0x0FBA,
        67 => 0x114C,
        68 => 0x1307,
        69 => 0x14EE,
        70 => 0x1706,
        71 => 0x1954,
        72 => 0x1BDC,
        73 => 0x1EA5,
        74 => 0x21B6,
        75 => 0x2515,
        76 => 0x28CA,
        77 => 0x2CDF,
        78 => 0x315B,
        79 => 0x364B,
        80 => 0x3BB9,
        81 => 0x41B2,
        82 => 0x4844,
        83 => 0x4F7E,
        84 => 0x5771,
        85 => 0x602F,
        86 => 0x69CE,
        87 => 0x7462,
        _ => 0x7FFF,
    }
}

/// Looks up the index adjustment for a 4-bit code.
fn index_delta_at(code: u8) -> (r: i32)
    ensures
        r as int == index_delta(code as int),
{
    let c = code % 8;
    if c < 4 {
        -1
    } else if c == 4 {
        2
    } else if c == 5 {
        4
    } else if c == 6 {
        6
    } else {
        8
    }
}

/// ADPCM decoder state carried from one audio record to the next.
pub struct ADPCMstate {
    previous: i16,
    step_index: u8,
}

impl View for ADPCMstate {
    type V = DecoderState;

    closed spec fn view(&self) -> DecoderState {
        DecoderState { sample: self.previous as int, index: self.step_index as int }
    }
}

impl ADPCMstate {
    /// The step index stays inside the step-size table.
    pub open spec fn wf(&self) -> bool {
        self@.in_range()
    }

    /// A decoder at sample 0 and step index 0.
    pub fn new() -> (r: ADPCMstate)
        ensures
            r@ == (DecoderState { sample: 0, index: 0 }),
            r.wf(),
    {
        ADPCMstate { previous: 0, step_index: 0 }
    }

    /// A decoder that starts from a given sample and step index.
    pub fn with_state(previous: i16, step_index: u8) -> (r: ADPCMstate)
        requires
            step_index <= MAX_STEP_INDEX,
        ensures
            r@ == (DecoderState { sample: previous as int, index: step_index as int }),
            r.wf(),
    {
        ADPCMstate { previous, step_index }
    }

    /// The last reconstructed sample.
    pub fn previous(&self) -> (r: i16)
        ensures
            r as int == self@.sample,
    {
        self.previous
    }

    /// The current index into the step-size table.
    pub fn step_index(&self) -> (r: u8)
        ensures
            r as int == self@.index,
    {
        self.step_index
    }

    /// Decodes one record of `samples` samples from `instream`.
    ///
    /// A `Reset` record first reads two header bytes that give the initial
    /// sample and step index; then each remaining sample comes from one 4-bit
    /// code, high nibble first. With `ex_stereo` every sample is written twice.
    /// The state left behind is where the next `Continue` record resumes.
    pub fn adpcm_decode(&mut self, instream: &[u8], format: ADPCMFormat, samples: u32, ex_stereo: bool) -> (out: Vec<i16>)
        requires
            old(self).wf(),
            format == ADPCMFormat::Reset ==> samples >= 1 && instream@.len() >= 2 && instream@[1] % 128 <= 88,
            instream@.len() >= input_needed(format, samples as int),
        ensures
            final(self).wf(),
            final(self)@ == state_after(old(self)@, instream@, format, samples as int),
            out@ == widen(decoded(old(self)@, instream@, format, samples as int), ex_stereo),
    {
        let ghost st0 = self@;
        let mut out: Vec<i16> = Vec::new();
        let mut in_offset: usize = 0;
        let mut n: u32 = samples;
        if format == ADPCMFormat::Reset {
            let b0 = instream[0];
            let b1 = instream[1];
            let high: i32 = if b0 >= 128 { (b0 as i32 - 256) * 256 } else { b0 as i32 * 256 };
            let low: i32 = if b1 >= 128 { 128 } else { 0 };
            self.previous = (high + low) as i16;
            self.step_index = b1 % 128;
            out.push(self.previous);
            if ex_stereo {
                out.push(self.previous);
            }
            in_offset = 2;
            n = samples - 1;
        }
        let ghost s0 = self@;
        let ghost h = header_len(format);
        let ghost codes = record_codes(instream@, format, samples as int);
        let ghost head: Seq<i16> = match format {
            ADPCMFormat::Reset => seq![s0.sample as i16],
            ADPCMFormat::Continue => Seq::empty(),
        };
        assert(s0 == start_state(st0, instream@, format));
        proof {
            assert(codes.take(0) =~= Seq::<int>::empty());
            assert(head + outputs(s0, codes.take(0)) =~= head);
            lemma_widen_push(Seq::empty(), s0.sample as i16, ex_stereo);
            assert(Seq::<i16>::empty().push(s0.sample as i16) =~= seq![s0.sample as i16]);
            if ex_stereo {
                assert(out@ =~= widen(head, true));
            } else {
                assert(out@ =~= head);
            }
        }
        let mut cur: i32 = self.previous as i32;
        let mut idx: u8 = self.step_index;
        let mut hi_nibble = true;
        let mut k: u32 = 0;
        while k < n
            invariant
                k <= n,
                n as int == code_count(format, samples as int),
                h == header_len(format),
                in_offset as int == h + k as int / 2,
                hi_nibble == (k % 2 == 0),
                codes == codes_of(instream@.skip(h), n as int),
                instream@.len() >= h + packed_len(n as int),
                s0.in_range(),
                (DecoderState { sample: cur as int, index: idx as int }) == run(s0, codes.take(k as int)),
                out@ == widen(head + outputs(s0, codes.take(k as int)), ex_stereo),
            decreases n - k,
        {
            proof {
                if k > 0 {
                    lemma_run_in_range(s0, codes.take(k as int));
                }
            }
            let b = instream[in_offset];
            let code: u8 = if hi_nibble {
                b / 16
            } else {
                in_offset = in_offset + 1;
                b % 16
            };
            assert(code as int == codes[k as int]);
            let (c2, i2) = decode_code(cur, idx, code);
            cur = c2;
            idx = i2;
            let ghost prev_out = head + outputs(s0, codes.take(k as int));
            out.push(cur as i16);
            if ex_stereo {
                out.push(cur as i16);
            }
            proof {
                let t = codes.take(k as int + 1);
                assert(t.drop_last() =~= codes.take(k as int));
                assert(t.last() == codes[k as int]);
                let np = head + outputs(s0, t);
                assert(np =~= prev_out.push(cur as i16));
                lemma_widen_push(prev_out, cur as i16, ex_stereo);
            }
            k = k + 1;
            hi_nibble = !hi_nibble;
        }
        proof {
            assert(codes.take(n as int) =~= codes);
        }
        self.previous = cur as i16;
        self.step_index = idx;
        proof {
            if n > 0 {
                lemma_run_in_range(s0, codes);
            }
        }
        out
    }
}

/// Decodes one 4-bit code from sample `cur` at step index `idx`.
fn decode_code(cur: i32, idx: u8, code: u8) -> (r: (i32, u8))
    requires
        -32768 <= cur <= 32767,
        idx <= MAX_STEP_INDEX,
        code < 16,
    ensures
        (DecoderState { sample: r.0 as int, index: r.1 as int }) == next_state(
            DecoderState { sample: cur as int, index: idx as int },
            code as int,
        ),
{
    proof {
        lemma_step_size_range();
    }
    let step: u32 = step_size_at(idx);
    let mut m: u32 = step / 8;
    if code % 2 == 1 {
        m = m + step / 4;
    }
    if (code / 2) % 2 == 1 {
        m = m + step / 2;
    }
    if (code / 4) % 2 == 1 {
        m = m + step;
    }
    assert(m as int == magnitude(step as int, code as int));
    let d: i32 = if code >= 8 { -(m as i32) } else { m as i32 };
    let sum: i32 = cur + d;
    let sample: i32 = if sum < -32768 { -32768 } else if sum > 32767 { 32767 } else { sum };
    let ni: i32 = idx as i32 + index_delta_at(code);
    let index: u8 = if ni < 0 { 0 } else if ni > 88 { 88 } else { ni as u8 };
    (sample, index)
}

/// Writing one more sample appends it once, or twice when widened.
pub proof fn lemma_widen_push(s: Seq<i16>, v: i16, twice: bool)
    ensures
        widen(s.push(v), twice) == widen(s, twice) + (if twice { seq![v, v] } else { seq![v] }),
{
    assert(s.push(v).drop_last() =~= s);
    if !twice {
        assert(s.push(v) =~= s + seq![v]);
    }
}

/// Every state reached after at least one code is in range.
pub proof fn lemma_run_in_range(st: DecoderState, codes: Seq<int>)
    requires
        codes.len() > 0 || st.in_range(),
    ensures
        run(st, codes).in_range(),
{
}

/// A `Reset` record ignores the state it finds: two streams that begin with
/// the same two header bytes give the same initial sample and step index,
/// whatever state each decoder was in, and the initial sample is the first
/// one emitted.
pub proof fn lemma_reset_determinism(st1: DecoderState, st2: DecoderState, x: Seq<u8>, y: Seq<u8>, samples: int)
    requires
        x.len() >= 2,
        y.len() >= 2,
        x[0] == y[0],
        x[1] == y[1],
        samples >= 1,
    ensures
        start_state(st1, x, ADPCMFormat::Reset) == start_state(st2, y, ADPCMFormat::Reset),
        start_state(st1, x, ADPCMFormat::Reset) == reset_state(x[0], x[1]),
        decoded(st1, x, ADPCMFormat::Reset, samples)[0] == decoded(st2, y, ADPCMFormat::Reset, samples)[0],
        decoded(st1, x, ADPCMFormat::Reset, samples)[0] as int == reset_sample(x[0], x[1]),
        decoded(st1, x, ADPCMFormat::Reset, samples) == decoded(st2, x, ADPCMFormat::Reset, samples),
        state_after(st1, x, ADPCMFormat::Reset, samples) == state_after(st2, x, ADPCMFormat::Reset, samples),
{
    let s0 = reset_state(x[0], x[1]);
    assert(-32768 <= reset_sample(x[0], x[1]) <= 32767);
    assert((seq![s0.sample as i16] + outputs(s0, record_codes(x, ADPCMFormat::Reset, samples)))[0] == s0.sample as i16);
    assert((seq![s0.sample as i16] + outputs(s0, record_codes(y, ADPCMFormat::Reset, samples)))[0] == s0.sample as i16);
}

/// Samples saturate at the 16-bit bounds: a difference that would carry the
/// sample past 32767 or below -32768 gives that bound, never a wrapped value.
pub proof fn lemma_saturation(st: DecoderState, code: int)
    requires
        st.in_range(),
        0 <= code < 16,
    ensures
        st.sample + difference(step_size(st.index), code) > 32767 ==> next_state(st, code).sample == 32767,
        st.sample + difference(step_size(st.index), code) < -32768 ==> next_state(st, code).sample == -32768,
        -32768 <= st.sample + difference(step_size(st.index), code) <= 32767 ==> next_state(st, code).sample
            == st.sample + difference(step_size(st.index), code),
        -32768 <= next_state(st, code).sample <= 32767,
{
}

/// The step index never leaves [0, 88]: not after any prefix of any code
/// sequence decoded from a state whose index is in range.
pub proof fn lemma_step_index_bounded(st: DecoderState, codes: Seq<int>)
    requires
        0 <= st.index <= 88,
    ensures
        forall|k: int| 0 <= k <= codes.len() ==> 0 <= #[trigger] run(st, codes.take(k)).index <= 88,
{
    assert forall|k: int| 0 <= k <= codes.len() implies 0 <= #[trigger] run(st, codes.take(k)).index <= 88 by {
        if k == 0 {
            assert(codes.take(k).len() == 0);
        }
    }
}

/// Decoding codes `x` then codes `y` is decoding `x + y`.
pub proof fn lemma_run_append(st: DecoderState, x: Seq<int>, y: Seq<int>)
    ensures
        run(st, x + y) == run(run(st, x), y),
        outputs(st, x + y) == outputs(st, x) + outputs(run(st, x), y),
    decreases y.len(),
{
    if y.len() == 0 {
        assert(x + y =~= x);
        assert(outputs(st, x) + outputs(run(st, x), y) =~= outputs(st, x));
    } else {
        lemma_run_append(st, x, y.drop_last());
        assert((x + y).drop_last() =~= x + y.drop_last());
        assert((x + y).last() == y.last());
        assert(outputs(st, x + y) =~= outputs(st, x) + outputs(run(st, x), y));
    }
}

/// The codes of two packed streams joined, when the first holds an even
/// number of codes and no spare byte, and the second holds all of its codes.
pub proof fn lemma_codes_concat(a: Seq<u8>, na: int, b: Seq<u8>, nb: int)
    requires
        na >= 0,
        nb >= 0,
        na % 2 == 0,
        a.len() == na / 2,
        b.len() >= packed_len(nb),
    ensures
        codes_of(a + b, na + nb) == codes_of(a, na) + codes_of(b, nb),
{
    assert forall|k: int| 0 <= k < na + nb implies #[trigger] codes_of(a + b, na + nb)[k] == (codes_of(a, na)
        + codes_of(b, nb))[k] by {
        if k >= na {
            let j = k - na;
            assert(k / 2 == na / 2 + j / 2);
            assert(k % 2 == j % 2);
            assert((a + b)[k / 2] == b[j / 2]);
            assert((codes_of(a, na) + codes_of(b, nb))[k] == codes_of(b, nb)[j]);
            assert(codes_of(b, nb)[j] == nibble(b, j));
            assert(codes_of(a + b, na + nb)[k] == nibble(a + b, k));
        } else {
            assert(k / 2 < a.len());
            assert((a + b)[k / 2] == a[k / 2]);
            assert((codes_of(a, na) + codes_of(b, nb))[k] == codes_of(a, na)[k]);
            assert(codes_of(a + b, na + nb)[k] == nibble(a + b, k));
        }
    }
    assert(codes_of(a + b, na + nb) =~= codes_of(a, na) + codes_of(b, nb));
}

/// Decoding record A and then record B, both `Continue`, with one persistent
/// state gives the same samples and the same final state as decoding A's and
/// B's streams joined, in one call. A must fill its bytes exactly with an even
/// number of codes, since every call starts on a high nibble, and B must hold
/// all of its codes.
pub proof fn lemma_continuity(st: DecoderState, a: Seq<u8>, na: int, b: Seq<u8>, nb: int)
    requires
        na >= 0,
        nb >= 0,
        na % 2 == 0,
        a.len() == na / 2,
        b.len() >= packed_len(nb),
    ensures
        state_after(state_after(st, a, ADPCMFormat::Continue, na), b, ADPCMFormat::Continue, nb) == state_after(
            st,
            a + b,
            ADPCMFormat::Continue,
            na + nb,
        ),
        decoded(st, a, ADPCMFormat::Continue, na) + decoded(
            state_after(st, a, ADPCMFormat::Continue, na),
            b,
            ADPCMFormat::Continue,
            nb,
        ) == decoded(st, a + b, ADPCMFormat::Continue, na + nb),
{
    assert(a.skip(0) =~= a);
    assert(b.skip(0) =~= b);
    assert((a + b).skip(0) =~= a + b);
    lemma_codes_concat(a, na, b, nb);
    lemma_run_append(st, codes_of(a, na), codes_of(b, nb));
}

} // verus!
