use crate::types::ProtocolError;
use vstd::prelude::*;

verus! {

pub const START_BYTE: u8 = 0x55;
pub const HOST_CONTROL: u16 = 0x0160;
pub const CRC_FLAG: u16 = 0x0020;
pub const MAX_PAYLOAD: usize = 4096;
pub const HEADER_LEN: usize = 8;

/// One CRC16-ARC shift step (reflected polynomial 0xa001).
pub open spec fn crc_step(crc: u16) -> u16 {
    if crc & 1 != 0 {
        (crc >> 1) ^ 0xa001u16
    } else {
        crc >> 1
    }
}

/// `n` shift steps applied to `crc`.
pub open spec fn crc_steps(crc: u16, n: nat) -> u16
    decreases n,
{
    if n == 0 {
        crc
    } else {
        crc_steps(crc_step(crc), (n - 1) as nat)
    }
}

/// Folding one byte into the running CRC.
pub open spec fn crc_byte(crc: u16, byte: u8) -> u16 {
    crc_steps(crc ^ (byte as u16), 8)
}

/// CRC16-ARC of `data`, starting from 0xffff.
pub open spec fn crc16_spec(data: Seq<u8>) -> u16
    decreases data.len(),
{
    if data.len() == 0 {
        0xffffu16
    } else {
        crc_byte(crc16_spec(data.drop_last()), data.last())
    }
}

pub fn crc16_arc(data: &[u8]) -> (crc: u16)
    ensures
        crc == crc16_spec(data@),
{
    let mut crc: u16 = 0xffff;
    let mut i: usize = 0;
    while i < data.len()
        invariant
            i <= data.len(),
            crc == crc16_spec(data@.take(i as int)),
        decreases data.len() - i,
    {
        let ghost start = crc ^ (data@[i as int] as u16);
        crc = crc ^ (data[i] as u16);
        let mut k: usize = 0;
        while k < 8
            invariant
                k <= 8,
                crc_steps(crc, (8 - k) as nat) == crc_steps(start, 8),
            decreases 8 - k,
        {
            crc = if crc & 1 != 0 {
                (crc >> 1) ^ 0xa001
            } else {
                crc >> 1
            };
            k = k + 1;
        }
        proof {
            assert(data@.take(i + 1).drop_last() =~= data@.take(i as int));
        }
        i = i + 1;
    }
    proof {
        assert(data@.take(data@.len() as int) =~= data@);
    }
    crc
}


/// Low byte of a little-endian 16-bit field.
pub open spec fn lo(x: u16) -> u8 {
    (x % 256) as u8
}

/// High byte of a little-endian 16-bit field.
pub open spec fn hi(x: u16) -> u8 {
    (x / 256) as u8
}

/// The 16-bit value of two little-endian bytes.
pub open spec fn le16(b0: u8, b1: u8) -> u16 {
    (b0 as int + 256 * (b1 as int)) as u16
}

/// Whether a frame with this control word carries a trailing CRC.
pub open spec fn has_crc(control: u16) -> bool {
    control & CRC_FLAG != 0
}

/// A frame as a mathematical value.
pub struct SpecFrame {
    pub control: u16,
    pub command: u16,
    pub sequence: u8,
    pub payload: Seq<u8>,
}

/// One protocol frame: `55 | control | command | length | sequence | payload | crc`.
#[derive(Debug, Clone, PartialEq, Eq)]
pub struct Frame {
    pub control: u16,
    pub command: u16,
    pub sequence: u8,
    pub payload: Vec<u8>,
}

impl View for Frame {
    type V = SpecFrame;

    open spec fn view(&self) -> SpecFrame {
        SpecFrame {
            control: self.control,
            command: self.command,
            sequence: self.sequence,
            payload: self.payload@,
        }
    }
}

impl DeepView for Frame {
    type V = SpecFrame;

    open spec fn deep_view(&self) -> SpecFrame {
        self@
    }
}

/// The eight header bytes of a frame.
pub open spec fn spec_header(f: SpecFrame) -> Seq<u8> {
    seq![
        START_BYTE,
        lo(f.control),
        hi(f.control),
        lo(f.command),
        hi(f.command),
        lo(f.payload.len() as u16),
        hi(f.payload.len() as u16),
        f.sequence,
    ]
}

/// The bytes covered by the CRC: header and payload.
pub open spec fn spec_body(f: SpecFrame) -> Seq<u8> {
    spec_header(f) + f.payload
}

/// The complete wire encoding of a frame whose payload fits the bound.
pub open spec fn spec_encode(f: SpecFrame) -> Seq<u8> {
    if has_crc(f.control) {
        let crc = crc16_spec(spec_body(f));
        spec_body(f) + seq![lo(crc), hi(crc)]
    } else {
        spec_body(f)
    }
}

fn push_le16(bytes: &mut Vec<u8>, value: u16)
    ensures
        final(bytes)@ == old(bytes)@ + seq![lo(value), hi(value)],
{
    bytes.push((value % 256) as u8);
    bytes.push((value / 256) as u8);
}

impl Frame {
    /// A host frame; refused when the payload exceeds `MAX_PAYLOAD`.
    pub fn new(command: u16, sequence: u8, payload: Vec<u8>) -> (res: Result<Frame, ProtocolError>)
        ensures
            payload@.len() <= MAX_PAYLOAD ==> res == Ok::<Frame, ProtocolError>(
                Frame { control: HOST_CONTROL, command, sequence, payload },
            ),
            payload@.len() > MAX_PAYLOAD ==> res == Err::<Frame, ProtocolError>(
                ProtocolError::FrameTooLarge(payload@.len() as usize),
            ),
    {
        if payload.len() > MAX_PAYLOAD {
            return Err(ProtocolError::FrameTooLarge(payload.len()));
        }
        Ok(Frame { control: HOST_CONTROL, command, sequence, payload })
    }

    /// The wire bytes of this frame, with a CRC when the control word asks for one.
    pub fn encode(&self) -> (res: Result<Vec<u8>, ProtocolError>)
        ensures
            self.payload@.len() <= MAX_PAYLOAD ==> (res matches Ok(bytes) && bytes@ == spec_encode(self@)),
            self.payload@.len() > MAX_PAYLOAD ==> res == Err::<Vec<u8>, ProtocolError>(
                ProtocolError::FrameTooLarge(self.payload@.len() as usize),
            ),
    {
        if self.payload.len() > MAX_PAYLOAD {
            return Err(ProtocolError::FrameTooLarge(self.payload.len()));
        }
        let length = self.payload.len() as u16;
        let mut bytes: Vec<u8> = Vec::new();
        bytes.push(START_BYTE);
        push_le16(&mut bytes, self.control);
        push_le16(&mut bytes, self.command);
        push_le16(&mut bytes, length);
        bytes.push(self.sequence);
        assert(bytes@ =~= spec_header(self@));
        let mut i: usize = 0;
        while i < self.payload.len()
            invariant
                i <= self.payload@.len(),
                bytes@ =~= spec_header(self@) + self.payload@.take(i as int),
            decreases self.payload@.len() - i,
        {
            bytes.push(self.payload[i]);
            i = i + 1;
        }
        assert(self.payload@.take(self.payload@.len() as int) =~= self.payload@);
        assert(bytes@ =~= spec_body(self@));
        if self.control & CRC_FLAG != 0 {
            let crc = crc16_arc(bytes.as_slice());
            push_le16(&mut bytes, crc);
        }
        Ok(bytes)
    }
}


/// Position of the first start byte in `buf`, if any.
pub open spec fn first_start(buf: Seq<u8>) -> Option<int>
    decreases buf.len(),
{
    if buf.len() == 0 {
        None
    } else if buf[0] == START_BYTE {
        Some(0)
    } else {
        match first_start(buf.drop_first()) {
            Some(i) => Some(i + 1),
            None => None,
        }
    }
}

/// Control word of a frame that starts at `b[0]`.
pub open spec fn at_control(b: Seq<u8>) -> u16 {
    le16(b[1], b[2])
}

/// Command word of a frame that starts at `b[0]`.
pub open spec fn at_command(b: Seq<u8>) -> u16 {
    le16(b[3], b[4])
}

/// Declared payload length of a frame that starts at `b[0]`.
pub open spec fn at_length(b: Seq<u8>) -> int {
    le16(b[5], b[6]) as int
}

/// Number of CRC bytes that follow the payload.
pub open spec fn at_crc_len(b: Seq<u8>) -> int {
    if has_crc(at_control(b)) {
        2
    } else {
        0
    }
}

/// Total length of a frame that starts at `b[0]`.
pub open spec fn at_total(b: Seq<u8>) -> int {
    HEADER_LEN + at_length(b) + at_crc_len(b)
}

/// CRC carried by a complete frame that starts at `b[0]`.
pub open spec fn at_received_crc(b: Seq<u8>) -> u16 {
    le16(b[HEADER_LEN + at_length(b)], b[HEADER_LEN + at_length(b) + 1])
}

/// CRC computed over header and payload of a complete frame that starts at `b[0]`.
pub open spec fn at_expected_crc(b: Seq<u8>) -> u16 {
    crc16_spec(b.take(HEADER_LEN + at_length(b)))
}

/// The frame value held by a complete frame that starts at `b[0]`.
pub open spec fn at_frame(b: Seq<u8>) -> SpecFrame {
    SpecFrame {
        control: at_control(b),
        command: at_command(b),
        sequence: b[7],
        payload: b.subrange(HEADER_LEN as int, HEADER_LEN + at_length(b)),
    }
}

/// What one frame-sized step finds at a start byte.
pub enum SpecStep {
    Incomplete,
    TooLarge(int),
    BadCrc(u16, u16),
    Complete,
}

/// The step taken on `b`, whose first byte is a start byte.
pub open spec fn spec_step(b: Seq<u8>) -> SpecStep {
    if b.len() < HEADER_LEN {
        SpecStep::Incomplete
    } else if at_length(b) > MAX_PAYLOAD {
        SpecStep::TooLarge(at_length(b))
    } else if b.len() < at_total(b) {
        SpecStep::Incomplete
    } else if at_crc_len(b) != 0 && at_received_crc(b) != at_expected_crc(b) {
        SpecStep::BadCrc(at_received_crc(b), at_expected_crc(b))
    } else {
        SpecStep::Complete
    }
}

/// How draining a buffer ended: either with the bytes kept for later, or with
/// an error together with the bytes kept after it.
pub enum DecodeEnd {
    Done(Seq<u8>),
    Failed(ProtocolError, Seq<u8>),
}

/// Drains every complete frame from `buf`: bytes before a start byte are
/// dropped, an oversized length drops the start byte and fails, a CRC mismatch
/// drops the frame and fails, and an incomplete frame is kept.
pub open spec fn decode_all(buf: Seq<u8>) -> (Seq<SpecFrame>, DecodeEnd)
    decreases buf.len(),
{
    match first_start(buf) {
        None => (Seq::empty(), DecodeEnd::Done(Seq::empty())),
        Some(s) => {
            if s < 0 || s >= buf.len() {
                (Seq::empty(), DecodeEnd::Done(Seq::empty()))
            } else {
                let b = buf.skip(s);
                match spec_step(b) {
                    SpecStep::Incomplete => (Seq::empty(), DecodeEnd::Done(b)),
                    SpecStep::TooLarge(n) => (
                        Seq::empty(),
                        DecodeEnd::Failed(ProtocolError::FrameTooLarge(n as usize), b.drop_first()),
                    ),
                    SpecStep::BadCrc(received, expected) => (
                        Seq::empty(),
                        DecodeEnd::Failed(
                            ProtocolError::BadCrc { received, expected },
                            b.skip(at_total(b)),
                        ),
                    ),
                    SpecStep::Complete => {
                        let rest = decode_all(b.skip(at_total(b)));
                        (seq![at_frame(b)] + rest.0, rest.1)
                    },
                }
            }
        }
    }
}

/// `first_start` finds exactly the first start byte.
pub proof fn lemma_first_start(buf: Seq<u8>)
    ensures
        match first_start(buf) {
            Some(i) => 0 <= i < buf.len() && buf[i] == START_BYTE && forall|j: int|
                0 <= j < i ==> buf[j] != START_BYTE,
            None => forall|j: int| 0 <= j < buf.len() ==> buf[j] != START_BYTE,
        },
    decreases buf.len(),
{
    if buf.len() > 0 && buf[0] != START_BYTE {
        lemma_first_start(buf.drop_first());
        match first_start(buf.drop_first()) {
            Some(i) => {
                assert forall|j: int| 0 <= j < i + 1 implies buf[j] != START_BYTE by {
                    if j > 0 {
                        assert(buf[j] == buf.drop_first()[j - 1]);
                    }
                }
            },
            None => {
                assert forall|j: int| 0 <= j < buf.len() implies buf[j] != START_BYTE by {
                    if j > 0 {
                        assert(buf[j] == buf.drop_first()[j - 1]);
                    }
                }
            },
        }
    }
}

/// Stateful splitter of the byte stream into frames.
#[derive(Debug)]
pub struct FrameDecoder {
    buffer: Vec<u8>,
}

impl View for FrameDecoder {
    type V = Seq<u8>;

    /// The bytes kept for the next `push`.
    closed spec fn view(&self) -> Seq<u8> {
        self.buffer@
    }
}

/// Copy of `data[from..to]`.
pub fn copy_range(data: &[u8], from: usize, to: usize) -> (v: Vec<u8>)
    requires
        from <= to <= data@.len(),
    ensures
        v@ == data@.subrange(from as int, to as int),
{
    let mut v: Vec<u8> = Vec::new();
    let mut i = from;
    while i < to
        invariant
            from <= i <= to,
            to <= data@.len(),
            v@ =~= data@.subrange(from as int, i as int),
        decreases to - i,
    {
        v.push(data[i]);
        i = i + 1;
    }
    v
}

impl FrameDecoder {
    pub fn new() -> (d: FrameDecoder)
        ensures
            d@ == Seq::<u8>::empty(),
    {
        FrameDecoder { buffer: Vec::new() }
    }

    /// Appends `bytes` to the kept bytes and drains every complete frame, as
    /// `decode_all` describes.
    pub fn push(&mut self, bytes: &[u8]) -> (res: Result<Vec<Frame>, ProtocolError>)
        ensures
            ({
                let (frames, end) = decode_all(old(self)@ + bytes@);
                match end {
                    DecodeEnd::Done(rest) => {
                        &&& res matches Ok(v)
                        &&& v.deep_view() == frames
                        &&& final(self)@ == rest
                    },
                    DecodeEnd::Failed(e, rest) => {
                        &&& res == Err::<Vec<Frame>, ProtocolError>(e)
                        &&& final(self)@ == rest
                    },
                }
            }),
    {
        let mut data: Vec<u8> = Vec::new();
        let mut i: usize = 0;
        while i < self.buffer.len()
            invariant
                i <= self.buffer@.len(),
                data@ =~= self.buffer@.take(i as int),
            decreases self.buffer@.len() - i,
        {
            data.push(self.buffer[i]);
            i = i + 1;
        }
        let mut i: usize = 0;
        while i < bytes.len()
            invariant
                i <= bytes@.len(),
                data@ =~= old(self)@ + bytes@.take(i as int),
                self.buffer@ == old(self)@,
            decreases bytes@.len() - i,
        {
            data.push(bytes[i]);
            i = i + 1;
        }
        assert(data@ =~= old(self)@ + bytes@);
        let ghost all = decode_all(data@);
        let mut frames: Vec<Frame> = Vec::new();
        let mut pos: usize = 0;
        assert(data@.skip(0) =~= data@);
        loop
            invariant
                pos <= data@.len(),
                data@ == old(self)@ + bytes@,
                all == decode_all(data@),
                frames.deep_view() + decode_all(data@.skip(pos as int)).0 == all.0,
                decode_all(data@.skip(pos as int)).1 == all.1,
            decreases data@.len() - pos,
        {
            let ghost cur = data@.skip(pos as int);
            let ghost before = frames.deep_view();
            let s = scan_start(data.as_slice(), pos);
            if s == data.len() {
                assert(before + Seq::<SpecFrame>::empty() =~= before);
                self.buffer = Vec::new();
                return Ok(frames);
            }
            let ghost b = data@.skip(s as int);
            assert(cur.skip(s - pos) =~= b);
            match step_at(data.as_slice(), s) {
                ExecStep::Incomplete => {
                    assert(before + Seq::<SpecFrame>::empty() =~= before);
                    self.buffer = copy_range(data.as_slice(), s, data.len());
                    assert(self.buffer@ =~= b);
                    return Ok(frames);
                },
                ExecStep::TooLarge(n) => {
                    self.buffer = copy_range(data.as_slice(), s + 1, data.len());
                    assert(self.buffer@ =~= b.drop_first());
                    return Err(ProtocolError::FrameTooLarge(n));
                },
                ExecStep::BadCrc { received, expected, total } => {
                    self.buffer = copy_range(data.as_slice(), s + total, data.len());
                    assert(self.buffer@ =~= b.skip(total as int));
                    return Err(ProtocolError::BadCrc { received, expected });
                },
                ExecStep::Complete { frame, total } => {
                    proof {
                        assert(b.skip(at_total(b)) =~= data@.skip(s + total));
                    }
                    frames.push(frame);
                    proof {
                        assert(frames.deep_view() =~= before.push(at_frame(b)));
                        let rest = decode_all(data@.skip(s + total));
                        assert(before + (seq![at_frame(b)] + rest.0) =~= before.push(at_frame(b))
                            + rest.0);
                    }
                    pos = s + total;
                },
            }
        }
    }
}

/// Result of one executable step at a start byte.
enum ExecStep {
    Incomplete,
    TooLarge(usize),
    BadCrc { received: u16, expected: u16, total: usize },
    Complete { frame: Frame, total: usize },
}

/// Index of the first start byte at or after `pos`, or `data.len()` when none.
fn scan_start(data: &[u8], pos: usize) -> (s: usize)
    requires
        pos <= data@.len(),
    ensures
        pos <= s <= data@.len(),
        s == data@.len() ==> first_start(data@.skip(pos as int)) == None::<int>,
        s < data@.len() ==> first_start(data@.skip(pos as int)) == Some((s - pos) as int),
{
    let mut s = pos;
    while s < data.len() && data[s] != START_BYTE
        invariant
            pos <= s <= data@.len(),
            forall|j: int| pos <= j < s ==> data@[j] != START_BYTE,
        decreases data@.len() - s,
    {
        s = s + 1;
    }
    let ghost cur = data@.skip(pos as int);
    proof {
        lemma_first_start(cur);
        match first_start(cur) {
            Some(k) => {
                assert(cur[k] == data@[pos + k]);
                if s < data@.len() {
                    assert(cur[s - pos] == data@[s as int]);
                }
            },
            None => {
                if s < data@.len() {
                    assert(cur[s - pos] == data@[s as int]);
                }
            },
        }
    }
    s
}

/// The executable counterpart of `spec_step` at index `s`.
fn step_at(data: &[u8], s: usize) -> (r: ExecStep)
    requires
        s < data@.len(),
    ensures
        ({
            let b = data@.skip(s as int);
            match r {
                ExecStep::Incomplete => spec_step(b) == SpecStep::Incomplete,
                ExecStep::TooLarge(n) => spec_step(b) == SpecStep::TooLarge(n as int),
                ExecStep::BadCrc { received, expected, total } => {
                    &&& spec_step(b) == SpecStep::BadCrc(received, expected)
                    &&& total == at_total(b)
                    &&& s + total <= data@.len()
                },
                ExecStep::Complete { frame, total } => {
                    &&& spec_step(b) == SpecStep::Complete
                    &&& frame.deep_view() == at_frame(b)
                    &&& total == at_total(b)
                    &&& total >= HEADER_LEN
                    &&& s + total <= data@.len()
                },
            }
        }),
{
    let ghost b = data@.skip(s as int);
    let avail = data.len() - s;
    if avail < HEADER_LEN {
        return ExecStep::Incomplete;
    }
    let control: u16 = (data[s + 1] as u16) + (data[s + 2] as u16) * 256;
    let command: u16 = (data[s + 3] as u16) + (data[s + 4] as u16) * 256;
    let length16: u16 = (data[s + 5] as u16) + (data[s + 6] as u16) * 256;
    let length = length16 as usize;
    assert(control == at_control(b));
    assert(command == at_command(b));
    assert(length == at_length(b));
    if length > MAX_PAYLOAD {
        return ExecStep::TooLarge(length);
    }
    let crc_len: usize = if control & CRC_FLAG != 0 { 2 } else { 0 };
    let total = HEADER_LEN + length + crc_len;
    if avail < total {
        return ExecStep::Incomplete;
    }
    if crc_len != 0 {
        let at = s + HEADER_LEN + length;
        let received: u16 = (data[at] as u16) + (data[at + 1] as u16) * 256;
        let expected = crc16_arc(&data[s..at]);
        assert(data@.subrange(s as int, at as int) =~= b.take(HEADER_LEN + at_length(b)));
        assert(received == at_received_crc(b));
        if received != expected {
            return ExecStep::BadCrc { received, expected, total };
        }
    }
    let payload = copy_range(data, s + HEADER_LEN, s + HEADER_LEN + length);
    let frame = Frame { control, command, sequence: data[s + 7], payload };
    assert(payload@ =~= b.subrange(HEADER_LEN as int, HEADER_LEN + at_length(b)));
    ExecStep::Complete { frame, total }
}

impl Default for FrameDecoder {
    fn default() -> (d: FrameDecoder)
        ensures
            d@ == Seq::<u8>::empty(),
    {
        FrameDecoder::new()
    }
}


proof fn lemma_le16_roundtrip(x: u16)
    ensures
        le16(lo(x), hi(x)) == x,
{
}

/// The concatenated wire encodings of a sequence of frames.
pub open spec fn encode_stream(frames: Seq<SpecFrame>) -> Seq<u8>
    decreases frames.len(),
{
    if frames.len() == 0 {
        Seq::empty()
    } else {
        spec_encode(frames[0]) + encode_stream(frames.drop_first())
    }
}

/// Decoding the encoding of a frame gives back exactly that frame, whatever
/// bytes follow it.
pub proof fn law_decode_after_encode(f: SpecFrame, rest: Seq<u8>)
    requires
        f.payload.len() <= MAX_PAYLOAD,
    ensures
        decode_all(spec_encode(f) + rest) == (seq![f] + decode_all(rest).0, decode_all(rest).1),
{
    let buf = spec_encode(f) + rest;
    let body = spec_body(f);
    let n = f.payload.len() as int;
    lemma_le16_roundtrip(f.control);
    lemma_le16_roundtrip(f.command);
    lemma_le16_roundtrip(n as u16);
    assert(buf[0] == START_BYTE);
    assert(first_start(buf) == Some(0int));
    assert(buf.skip(0) =~= buf);
    assert(buf[1] == lo(f.control) && buf[2] == hi(f.control));
    assert(buf[3] == lo(f.command) && buf[4] == hi(f.command));
    assert(buf[5] == lo(n as u16) && buf[6] == hi(n as u16));
    assert(buf[7] == f.sequence);
    assert(at_control(buf) == f.control);
    assert(at_command(buf) == f.command);
    assert(at_length(buf) == n);
    assert(buf.take(HEADER_LEN + n) =~= body);
    assert(buf.subrange(HEADER_LEN as int, HEADER_LEN + n) =~= f.payload);
    if has_crc(f.control) {
        let crc = crc16_spec(body);
        lemma_le16_roundtrip(crc);
        assert(buf[HEADER_LEN + n] == lo(crc));
        assert(buf[HEADER_LEN + n + 1] == hi(crc));
        assert(at_received_crc(buf) == crc);
        assert(buf.skip(at_total(buf)) =~= rest);
    } else {
        assert(buf.skip(at_total(buf)) =~= rest);
    }
    assert(spec_step(buf) == SpecStep::Complete);
    assert(at_frame(buf) == f);
}

/// Decoding the concatenated encodings of valid frames yields exactly those
/// frames, in order, and keeps no bytes.
pub proof fn law_decode_stream(frames: Seq<SpecFrame>)
    requires
        forall|i: int| 0 <= i < frames.len() ==> #[trigger] frames[i].payload.len() <= MAX_PAYLOAD,
    ensures
        decode_all(encode_stream(frames)) == (frames, DecodeEnd::Done(Seq::<u8>::empty())),
    decreases frames.len(),
{
    if frames.len() == 0 {
        assert(first_start(Seq::<u8>::empty()) == None::<int>);
    } else {
        let tail = frames.drop_first();
        assert forall|i: int| 0 <= i < tail.len() implies #[trigger] tail[i].payload.len()
            <= MAX_PAYLOAD by {
            assert(tail[i] == frames[i + 1]);
        }
        law_decode_stream(tail);
        assert(frames[0].payload.len() <= MAX_PAYLOAD);
        law_decode_after_encode(frames[0], encode_stream(tail));
        assert(seq![frames[0]] + tail =~= frames);
    }
}

proof fn lemma_first_start_concat(x: Seq<u8>, c: Seq<u8>)
    ensures
        first_start(x + c) == match first_start(x) {
            Some(i) => Some(i),
            None => match first_start(c) {
                Some(j) => Some(j + x.len()),
                None => None,
            },
        },
    decreases x.len(),
{
    if x.len() == 0 {
        assert(x + c =~= c);
    } else {
        assert((x + c)[0] == x[0]);
        if x[0] != START_BYTE {
            lemma_first_start_concat(x.drop_first(), c);
            assert((x + c).drop_first() =~= x.drop_first() + c);
        }
    }
}

/// Feeding bytes in two pushes yields the same frames as feeding them at once:
/// when draining `x` ends without an error and keeps `rest`, draining `x + c`
/// yields the frames of `x` followed by those of `rest + c`.
#[verifier::rlimit(50)]
#[verifier::spinoff_prover]
pub proof fn law_split_push(x: Seq<u8>, c: Seq<u8>)
    requires
        decode_all(x).1 is Done,
    ensures
        ({
            let rest = decode_all(x).1->Done_0;
            decode_all(x + c) == (decode_all(x).0 + decode_all(rest + c).0, decode_all(rest + c).1)
        }),
    decreases x.len(),
{
    lemma_first_start_concat(x, c);
    lemma_first_start(x);
    match first_start(x) {
        None => {
            assert(Seq::<SpecFrame>::empty() + decode_all(Seq::<u8>::empty() + c).0 =~= decode_all(
                Seq::<u8>::empty() + c,
            ).0);
            assert(Seq::<u8>::empty() + c =~= c);
            lemma_first_start(c);
            match first_start(c) {
                Some(j) => {
                    assert((x + c).skip(j + x.len()) =~= c.skip(j));
                },
                None => {},
            }
        },
        Some(s) => {
            let b = x.skip(s);
            let bc = (x + c).skip(s);
            assert(bc =~= b + c);
            assert(first_start(b + c) == Some(0int)) by {
                assert((b + c)[0] == START_BYTE);
            }
            assert((b + c).skip(0) =~= b + c);
            match spec_step(b) {
                SpecStep::Incomplete => {
                    assert(Seq::<SpecFrame>::empty() + decode_all(b + c).0 =~= decode_all(b + c).0);
                },
                SpecStep::TooLarge(_) => {},
                SpecStep::BadCrc(_, _) => {},
                SpecStep::Complete => {
                    let t = at_total(b);
                    assert(bc[1] == b[1] && bc[2] == b[2] && bc[3] == b[3] && bc[4] == b[4]);
                    assert(bc[5] == b[5] && bc[6] == b[6] && bc[7] == b[7]);
                    if at_crc_len(b) != 0 {
                        assert(bc[HEADER_LEN + at_length(b)] == b[HEADER_LEN + at_length(b)]);
                        assert(bc[HEADER_LEN + at_length(b) + 1] == b[HEADER_LEN + at_length(b) + 1]);
                        assert(bc.take(HEADER_LEN + at_length(b)) =~= b.take(HEADER_LEN + at_length(b)));
                    }
                    assert(bc.subrange(HEADER_LEN as int, HEADER_LEN + at_length(b)) =~= b.subrange(
                        HEADER_LEN as int,
                        HEADER_LEN + at_length(b),
                    ));
                    assert(spec_step(bc) == SpecStep::Complete);
                    assert(at_frame(bc) == at_frame(b));
                    assert(bc.skip(t) =~= b.skip(t) + c);
                    law_split_push(b.skip(t), c);
                    let rest = decode_all(x).1->Done_0;
                    let r1 = decode_all(b.skip(t));
                    assert(seq![at_frame(b)] + (r1.0 + decode_all(rest + c).0) =~= (seq![at_frame(b)]
                        + r1.0) + decode_all(rest + c).0);
                },
            }
        },
    }
}

/// Between successful pushes the decoder keeps less than one maximal frame,
/// and what it keeps begins with a start byte.
pub proof fn law_decoder_keeps_less_than_a_frame(buf: Seq<u8>)
    ensures
        decode_all(buf).1 matches DecodeEnd::Done(rest) ==> rest.len() < HEADER_LEN + MAX_PAYLOAD + 2
            && (rest.len() == 0 || rest[0] == START_BYTE),
    decreases buf.len(),
{
    lemma_first_start(buf);
    match first_start(buf) {
        None => {},
        Some(s) => {
            if 0 <= s < buf.len() {
                let b = buf.skip(s);
                match spec_step(b) {
                    SpecStep::Complete => {
                        law_decoder_keeps_less_than_a_frame(b.skip(at_total(b)));
                    },
                    _ => {},
                }
            }
        },
    }
}

} // verus!
