//! The wire format: where every byte of a packet goes, and the checksum over it.

use vstd::prelude::*;

verus! {

/// The byte every frame begins with. Only the second byte varies.
pub const MARKER: u8 = 0xAA;

/// Second byte of `AA 55`, the orientation packet.
pub const ORIENTATION_TAG: u8 = 0x55;

/// Second byte of `AA 56`, the calibration packet.
pub const CALIBRATION_TAG: u8 = 0x56;

/// `AA 55` — the orientation packet.
pub const ORIENTATION_MARKER: [u8; 2] = [0xAA, 0x55];

/// `AA 56` — the calibration packet.
pub const CALIBRATION_MARKER: [u8; 2] = [0xAA, 0x56];

/// Marker, four floats, checksum.
pub const ORIENTATION_LEN: usize = 19;

/// Marker, two vectors, three floats, a count, three status bytes, checksum.
pub const CALIBRATION_LEN: usize = 46;

/// The longest frame there is. A receiver needs this many bytes in hand before
/// it can be sure a marker at the front is not simply incomplete.
pub const MAX_FRAME_LEN: usize = 46;

/// How far a calibration run has got. Sent every sample.
///
/// `Solved` and `Refused` are the only ways a run finishes, and each is sent
/// exactly once, at the moment it happens.
#[derive(Clone, Copy, Debug, PartialEq, Eq, Structural)]
pub enum RunState {
    /// Not calibrating; the offset in the packet is the one in use. Wire value 0.
    Idle,
    /// Collecting samples, not yet past the thresholds. Wire value 1.
    Collecting,
    /// Past the thresholds and still collecting. Wire value 2.
    Ready,
    /// The run finished and the fit solved. Wire value 3.
    Solved,
    /// The run finished and the fit would not solve; the old offset is kept.
    /// Wire value 4.
    Refused,
}

/// What the last attempt to solve the fit came back with.
#[derive(Clone, Copy, Debug, PartialEq, Eq, Structural)]
pub enum FitStatus {
    /// The fit solved. Wire value 0.
    Fitted,
    /// Not enough samples yet. Wire value 1.
    TooFewSamples,
    /// The samples lie in a plane — the flat spin. Wire value 2.
    Coplanar,
    /// The system would not eliminate. Wire value 3.
    Singular,
    /// A sphere was found and the samples are nowhere near it. Wire value 4.
    Scattered,
}

impl RunState {
    /// The byte this state is written as.
    pub open spec fn wire_byte(self) -> u8 {
        match self {
            RunState::Idle => 0,
            RunState::Collecting => 1,
            RunState::Ready => 2,
            RunState::Solved => 3,
            RunState::Refused => 4,
        }
    }

    /// Reads a state byte. `None` for a byte this version does not know.
    pub fn from_byte(byte: u8) -> (state: Option<RunState>)
        ensures
            state matches Some(s) ==> s.wire_byte() == byte,
            state is None <==> byte >= 5,
    {
        match byte {
            0 => Some(RunState::Idle),
            1 => Some(RunState::Collecting),
            2 => Some(RunState::Ready),
            3 => Some(RunState::Solved),
            4 => Some(RunState::Refused),
            _ => None,
        }
    }

    /// The byte this state is written as.
    pub fn to_byte(self) -> (byte: u8)
        ensures
            byte == self.wire_byte(),
    {
        match self {
            RunState::Idle => 0,
            RunState::Collecting => 1,
            RunState::Ready => 2,
            RunState::Solved => 3,
            RunState::Refused => 4,
        }
    }
}

impl FitStatus {
    /// The byte this status is written as.
    pub open spec fn wire_byte(self) -> u8 {
        match self {
            FitStatus::Fitted => 0,
            FitStatus::TooFewSamples => 1,
            FitStatus::Coplanar => 2,
            FitStatus::Singular => 3,
            FitStatus::Scattered => 4,
        }
    }

    /// Reads a status byte. `None` for a byte this version does not know.
    pub fn from_byte(byte: u8) -> (status: Option<FitStatus>)
        ensures
            status matches Some(s) ==> s.wire_byte() == byte,
            status is None <==> byte >= 5,
    {
        match byte {
            0 => Some(FitStatus::Fitted),
            1 => Some(FitStatus::TooFewSamples),
            2 => Some(FitStatus::Coplanar),
            3 => Some(FitStatus::Singular),
            4 => Some(FitStatus::Scattered),
            _ => None,
        }
    }

    /// The byte this status is written as.
    pub fn to_byte(self) -> (byte: u8)
        ensures
            byte == self.wire_byte(),
    {
        match self {
            FitStatus::Fitted => 0,
            FitStatus::TooFewSamples => 1,
            FitStatus::Coplanar => 2,
            FitStatus::Singular => 3,
            FitStatus::Scattered => 4,
        }
    }
}

/// Three `f32` values, each held as its IEEE-754 bit pattern.
///
/// The wire carries floats as their four little-endian bytes and nothing here
/// does arithmetic on them, so the pattern is all that needs to travel.
#[derive(Clone, Copy, Debug, PartialEq, Eq, Structural)]
pub struct Bits3 {
    pub x: u32,
    pub y: u32,
    pub z: u32,
}

/// Where the board is pointing: a body-to-world rotation quaternion, each
/// component as the bit pattern of an `f32`, in the wire's `w x y z` order.
#[derive(Clone, Copy, Debug, PartialEq, Eq, Structural)]
pub struct Orientation {
    pub w: u32,
    pub x: u32,
    pub y: u32,
    pub z: u32,
}

/// One magnetometer sample, and everything the fit knows at the moment it was
/// taken. Every `f32` field is held as its bit pattern.
#[derive(Clone, Copy, Debug, PartialEq, Eq, Structural)]
pub struct Calibration {
    /// Straight off the sensor, in nT, uncorrected.
    pub sample: Bits3,
    /// In nT: the fit's current estimate during a run, otherwise the offset in use.
    pub offset: Bits3,
    /// Field strength the fit found, in nT.
    pub radius: u32,
    /// RMS distance from a sample to the fitted sphere, in nT.
    pub residual: u32,
    /// The fit's conditioning number: 0 is flat, 1 is a uniform ball.
    pub spread: u32,
    /// How many samples have gone in.
    pub samples: u32,
    /// Which of the eight compass sectors have been visited, one bit each.
    pub sectors: u8,
    /// How far the run has got.
    pub state: RunState,
    /// What the last solve came back with.
    pub fit: FitStatus,
}

/// One decoded frame.
#[derive(Clone, Copy, Debug, PartialEq, Eq, Structural)]
pub enum Packet {
    Orientation(Orientation),
    Calibration(Calibration),
}

/// The four little-endian bytes of a 32-bit value.
pub open spec fn le4(v: u32) -> Seq<u8> {
    seq![
        (v & 0xff) as u8,
        ((v >> 8u32) & 0xff) as u8,
        ((v >> 16u32) & 0xff) as u8,
        ((v >> 24u32) & 0xff) as u8,
    ]
}

/// Three values, each as four little-endian bytes, in `x y z` order.
pub open spec fn le12(v: Bits3) -> Seq<u8> {
    le4(v.x) + le4(v.y) + le4(v.z)
}

impl Orientation {
    /// Payload layout: `w` at 0, `x` at 4, `y` at 8, `z` at 12, four bytes each.
    pub open spec fn payload(self) -> Seq<u8> {
        le4(self.w) + le4(self.x) + le4(self.y) + le4(self.z)
    }
}

impl Calibration {
    /// Payload layout: `sample` at 0 (12 bytes), `offset` at 12 (12 bytes),
    /// `radius` at 24, `residual` at 28, `spread` at 32, `samples` at 36 (four
    /// bytes each), then `sectors`, `state` and `fit` at 40, 41 and 42.
    pub open spec fn payload(self) -> Seq<u8> {
        le12(self.sample) + le12(self.offset) + le4(self.radius) + le4(self.residual) + le4(
            self.spread,
        ) + le4(self.samples) + seq![self.sectors, self.state.wire_byte(), self.fit.wire_byte()]
    }
}

impl Packet {
    /// The second marker byte, which says which packet this is.
    pub open spec fn tag(self) -> u8 {
        match self {
            Packet::Orientation(_) => ORIENTATION_TAG,
            Packet::Calibration(_) => CALIBRATION_TAG,
        }
    }

    /// Everything between the marker and the checksum.
    pub open spec fn payload(self) -> Seq<u8> {
        match self {
            Packet::Orientation(o) => o.payload(),
            Packet::Calibration(c) => c.payload(),
        }
    }

    /// The whole frame: marker, payload, and the CRC-8 of the payload alone.
    pub open spec fn frame(self) -> Seq<u8> {
        seq![MARKER, self.tag()] + self.payload() + seq![crc8_spec(self.payload())]
    }
}

/// How long the frame starting with these bytes is, if they start one at all.
pub open spec fn frame_len_spec(bytes: Seq<u8>) -> Option<usize> {
    if bytes.len() >= 2 && bytes[0] == MARKER && bytes[1] == ORIENTATION_TAG {
        Some(ORIENTATION_LEN)
    } else if bytes.len() >= 2 && bytes[0] == MARKER && bytes[1] == CALIBRATION_TAG {
        Some(CALIBRATION_LEN)
    } else {
        None
    }
}


/// One step of the CRC register: shift left by one bit, folding the
/// polynomial `0x07` back in when a set bit falls off the top.
pub open spec fn crc_shift(c: u8) -> u8 {
    if c & 0x80 != 0 {
        ((c << 1u8) ^ 0x07u8) as u8
    } else {
        (c << 1u8) as u8
    }
}

/// `n` steps of [`crc_shift`].
pub open spec fn crc_shifts(c: u8, n: nat) -> u8
    decreases n,
{
    if n == 0 {
        c
    } else {
        crc_shift(crc_shifts(c, (n - 1) as nat))
    }
}

/// The register after one more byte has gone in.
pub open spec fn crc_step(c: u8, byte: u8) -> u8 {
    crc_shifts(c ^ byte, 8)
}

/// CRC-8 with polynomial `0x07` and initial value zero, over a whole sequence.
pub open spec fn crc8_spec(data: Seq<u8>) -> u8
    decreases data.len(),
{
    if data.len() == 0 {
        0
    } else {
        crc_step(crc8_spec(data.drop_last()), data.last())
    }
}

/// CRC-8, polynomial `0x07`.
///
/// A plain sum would miss two errors that cancel, and byte order entirely.
pub fn crc8(data: &[u8]) -> (crc: u8)
    ensures
        crc == crc8_spec(data@),
{
    let mut crc: u8 = 0;
    let mut i: usize = 0;
    while i < data.len()
        invariant
            i <= data@.len(),
            crc == crc8_spec(data@.take(i as int)),
        decreases data@.len() - i,
    {
        let start: u8 = crc ^ data[i];
        crc = start;
        let mut k: u32 = 0;
        while k < 8
            invariant
                k <= 8,
                crc == crc_shifts(start, k as nat),
            decreases 8 - k,
        {
            crc = if crc & 0x80 != 0 {
                (crc << 1u8) ^ 0x07
            } else {
                crc << 1u8
            };
            k = k + 1;
        }
        proof {
            assert(data@.take(i + 1).drop_last() =~= data@.take(i as int));
        }
        i = i + 1;
    }
    proof {
        assert(data@.take(i as int) =~= data@);
    }
    crc
}

/// How long the frame starting with these bytes is, if it starts a frame at all.
///
/// Fewer than two bytes, or a marker this crate does not know, and the answer
/// is `None` — "this is not a frame boundary", not an error.
pub fn frame_len(bytes: &[u8]) -> (len: Option<usize>)
    ensures
        len == frame_len_spec(bytes@),
{
    if bytes.len() >= 2 && bytes[0] == MARKER && bytes[1] == ORIENTATION_TAG {
        Some(ORIENTATION_LEN)
    } else if bytes.len() >= 2 && bytes[0] == MARKER && bytes[1] == CALIBRATION_TAG {
        Some(CALIBRATION_LEN)
    } else {
        None
    }
}

/// The little-endian value of four bytes is the one whose bytes they are.
proof fn lemma_le4_of_bytes(b0: u8, b1: u8, b2: u8, b3: u8, v: u32)
    requires
        v == (b0 as u32) | ((b1 as u32) << 8u32) | ((b2 as u32) << 16u32) | ((b3 as u32) << 24u32),
    ensures
        le4(v) == seq![b0, b1, b2, b3],
{
    assert((v & 0xff) as u8 == b0 && ((v >> 8u32) & 0xff) as u8 == b1 && ((v >> 16u32) & 0xff) as u8
        == b2 && ((v >> 24u32) & 0xff) as u8 == b3) by (bit_vector)
        requires
            v == (b0 as u32) | ((b1 as u32) << 8u32) | ((b2 as u32) << 16u32) | ((b3 as u32)
                << 24u32),
    ;
    assert(le4(v) =~= seq![b0, b1, b2, b3]);
}

/// Reads the four little-endian bytes at `at`.
fn get_u32(bytes: &[u8], at: usize) -> (v: u32)
    requires
        at + 4 <= bytes@.len(),
    ensures
        le4(v) == bytes@.subrange(at as int, at + 4),
{
    let b0 = bytes[at];
    let b1 = bytes[at + 1];
    let b2 = bytes[at + 2];
    let b3 = bytes[at + 3];
    let v = (b0 as u32) | ((b1 as u32) << 8u32) | ((b2 as u32) << 16u32) | ((b3 as u32) << 24u32);
    proof {
        lemma_le4_of_bytes(b0, b1, b2, b3, v);
        assert(bytes@.subrange(at as int, at + 4) =~= seq![b0, b1, b2, b3]);
    }
    v
}

/// Reads three values of four little-endian bytes each, starting at `at`.
fn get_bits3(bytes: &[u8], at: usize) -> (v: Bits3)
    requires
        at + 12 <= bytes@.len(),
    ensures
        le12(v) == bytes@.subrange(at as int, at + 12),
{
    let n = bytes.len();
    assert(at + 12 <= n);
    let x = get_u32(bytes, at);
    let y = get_u32(bytes, at + 4);
    let z = get_u32(bytes, at + 8);
    let v = Bits3 { x, y, z };
    assert(le12(v) =~= bytes@.subrange(at as int, at + 12));
    v
}

/// Writes the four little-endian bytes of `v` at `at`, leaving the rest alone.
fn put_u32(frame: &mut [u8], at: usize, v: u32)
    requires
        at + 4 <= old(frame)@.len(),
    ensures
        final(frame)@ == old(frame)@.subrange(0, at as int) + le4(v) + old(frame)@.subrange(
            at + 4,
            old(frame)@.len() as int,
        ),
{
    frame[at] = (v & 0xff) as u8;
    frame[at + 1] = ((v >> 8u32) & 0xff) as u8;
    frame[at + 2] = ((v >> 16u32) & 0xff) as u8;
    frame[at + 3] = ((v >> 24u32) & 0xff) as u8;
    assert(frame@ =~= old(frame)@.subrange(0, at as int) + le4(v) + old(frame)@.subrange(
        at + 4,
        old(frame)@.len() as int,
    ));
}

impl Orientation {
    /// The whole frame for this orientation: `AA 55`, the payload, the CRC.
    pub fn encode(&self) -> (frame: [u8; ORIENTATION_LEN])
        ensures
            frame@ == Packet::Orientation(*self).frame(),
    {
        let mut frame = [0u8; 19];
        frame[0] = MARKER;
        frame[1] = ORIENTATION_TAG;
        put_u32(&mut frame, 2, self.w);
        put_u32(&mut frame, 6, self.x);
        put_u32(&mut frame, 10, self.y);
        put_u32(&mut frame, 14, self.z);
        let ghost body = frame@;
        assert(body.subrange(2, 18) =~= self.payload());
        let crc = crc8(&frame[2..18]);
        frame[18] = crc;
        assert(frame@ =~= Packet::Orientation(*self).frame());
        frame
    }
}

impl Calibration {
    /// The whole frame for this sample: `AA 56`, the payload, the CRC.
    pub fn encode(&self) -> (frame: [u8; CALIBRATION_LEN])
        ensures
            frame@ == Packet::Calibration(*self).frame(),
    {
        let mut frame = [0u8; 46];
        frame[0] = MARKER;
        frame[1] = CALIBRATION_TAG;
        put_u32(&mut frame, 2, self.sample.x);
        put_u32(&mut frame, 6, self.sample.y);
        put_u32(&mut frame, 10, self.sample.z);
        put_u32(&mut frame, 14, self.offset.x);
        put_u32(&mut frame, 18, self.offset.y);
        put_u32(&mut frame, 22, self.offset.z);
        put_u32(&mut frame, 26, self.radius);
        put_u32(&mut frame, 30, self.residual);
        put_u32(&mut frame, 34, self.spread);
        put_u32(&mut frame, 38, self.samples);
        frame[42] = self.sectors;
        frame[43] = self.state.to_byte();
        frame[44] = self.fit.to_byte();
        let ghost body = frame@;
        assert(body.subrange(2, 45) =~= self.payload());
        let crc = crc8(&frame[2..45]);
        frame[45] = crc;
        assert(frame@ =~= Packet::Calibration(*self).frame());
        frame
    }
}

impl Packet {
    /// How many bytes this packet's frame takes.
    pub open spec fn frame_len(self) -> usize {
        match self {
            Packet::Orientation(_) => ORIENTATION_LEN,
            Packet::Calibration(_) => CALIBRATION_LEN,
        }
    }
}

/// Where each part of a frame sits: the marker in front, the payload after it,
/// the checksum last, and the frame's marker naming its own length.
pub proof fn lemma_frame_shape(p: Packet)
    ensures
        p.frame().len() == p.frame_len(),
        p.payload().len() == p.frame_len() - 3,
        p.frame()[0] == MARKER,
        p.frame()[1] == p.tag(),
        p.frame().subrange(2, p.frame_len() - 1) == p.payload(),
        p.frame()[p.frame_len() - 1] == crc8_spec(p.payload()),
        frame_len_spec(p.frame()) == Some(p.frame_len()),
        p matches Packet::Calibration(c) ==> p.payload()[41] == c.state.wire_byte()
            && p.payload()[42] == c.fit.wire_byte(),
{
    let f = p.frame();
    assert(f.subrange(2, p.frame_len() - 1) =~= p.payload());
}

/// Reads an orientation payload.
fn decode_orientation(payload: &[u8]) -> (o: Orientation)
    requires
        payload@.len() == 16,
    ensures
        o.payload() == payload@,
{
    let w = get_u32(payload, 0);
    let x = get_u32(payload, 4);
    let y = get_u32(payload, 8);
    let z = get_u32(payload, 12);
    let o = Orientation { w, x, y, z };
    assert(o.payload() =~= payload@);
    o
}

/// Reads a calibration payload. `None` when a status byte is one this version
/// does not know.
fn decode_calibration(payload: &[u8]) -> (c: Option<Calibration>)
    requires
        payload@.len() == 43,
    ensures
        match c {
            Some(c) => c.payload() == payload@,
            None => forall|d: Calibration| #[trigger] d.payload() != payload@,
        },
{
    let state = match RunState::from_byte(payload[41]) {
        Some(state) => state,
        None => {
            assert forall|d: Calibration| #[trigger] d.payload() != payload@ by {
                if d.payload() == payload@ {
                    assert(d.payload()[41] == d.state.wire_byte());
                }
            }
            return None;
        },
    };
    let fit = match FitStatus::from_byte(payload[42]) {
        Some(fit) => fit,
        None => {
            assert forall|d: Calibration| #[trigger] d.payload() != payload@ by {
                if d.payload() == payload@ {
                    assert(d.payload()[42] == d.fit.wire_byte());
                }
            }
            return None;
        },
    };
    let sample = get_bits3(payload, 0);
    let offset = get_bits3(payload, 12);
    let radius = get_u32(payload, 24);
    let residual = get_u32(payload, 28);
    let spread = get_u32(payload, 32);
    let samples = get_u32(payload, 36);
    let c = Calibration {
        sample,
        offset,
        radius,
        residual,
        spread,
        samples,
        sectors: payload[40],
        state,
        fit,
    };
    assert(c.payload() =~= payload@);
    Some(c)
}

/// Decode a whole frame — marker, payload and checksum.
///
/// `Some(p)` exactly when the bytes are the frame of `p`; `None` covers every
/// way a candidate can fail to be a packet: a marker nobody knows, the wrong
/// number of bytes, a checksum that does not match, or a status byte outside
/// the range this version understands.
pub fn decode(frame: &[u8]) -> (packet: Option<Packet>)
    ensures
        match packet {
            Some(p) => frame@ == p.frame(),
            None => forall|p: Packet| #[trigger] p.frame() != frame@,
        },
{
    let len = match frame_len(frame) {
        Some(len) => len,
        None => {
            assert forall|p: Packet| #[trigger] p.frame() != frame@ by {
                lemma_frame_shape(p);
            }
            return None;
        },
    };
    if frame.len() != len {
        assert forall|p: Packet| #[trigger] p.frame() != frame@ by {
            lemma_frame_shape(p);
        }
        return None;
    }
    let payload = &frame[2..len - 1];
    let crc = crc8(payload);
    if crc != frame[len - 1] {
        assert forall|p: Packet| #[trigger] p.frame() != frame@ by {
            lemma_frame_shape(p);
        }
        return None;
    }
    if frame[1] == ORIENTATION_TAG {
        let o = decode_orientation(payload);
        let p = Packet::Orientation(o);
        assert(frame@ =~= p.frame());
        Some(p)
    } else {
        match decode_calibration(payload) {
            Some(c) => {
                let p = Packet::Calibration(c);
                assert(frame@ =~= p.frame());
                Some(p)
            },
            None => {
                assert forall|p: Packet| #[trigger] p.frame() != frame@ by {
                    lemma_frame_shape(p);
                    if p.frame() == frame@ {
                        if let Packet::Calibration(c) = p {
                            assert(c.payload() == payload@);
                        }
                    }
                }
                None
            },
        }
    }
}

/// One step of the CRC register never maps two states to one.
proof fn lemma_crc_shift_injective(x: u8, y: u8)
    requires
        x != y,
    ensures
        crc_shift(x) != crc_shift(y),
{
    assert(x != y ==> (if x & 0x80 != 0 {
        ((x << 1u8) ^ 0x07u8) as u8
    } else {
        (x << 1u8) as u8
    }) != (if y & 0x80 != 0 {
        ((y << 1u8) ^ 0x07u8) as u8
    } else {
        (y << 1u8) as u8
    })) by (bit_vector);
}

/// Nor do any number of steps.
proof fn lemma_crc_shifts_injective(x: u8, y: u8, n: nat)
    requires
        x != y,
    ensures
        crc_shifts(x, n) != crc_shifts(y, n),
    decreases n,
{
    if n > 0 {
        lemma_crc_shifts_injective(x, y, (n - 1) as nat);
        lemma_crc_shift_injective(crc_shifts(x, (n - 1) as nat), crc_shifts(y, (n - 1) as nat));
    }
}

/// Two sequences that differ in exactly one byte have different checksums.
pub proof fn lemma_crc_catches_one_byte(a: Seq<u8>, b: Seq<u8>, j: int)
    requires
        a.len() == b.len(),
        0 <= j < a.len(),
        a[j] != b[j],
        forall|i: int| 0 <= i < a.len() && i != j ==> a[i] == b[i],
    ensures
        crc8_spec(a) != crc8_spec(b),
    decreases a.len(),
{
    let n = a.len() - 1;
    if j == n {
        assert(a.drop_last() =~= b.drop_last());
        let c = crc8_spec(a.drop_last());
        let x = a.last();
        let y = b.last();
        assert((c ^ x) != (c ^ y)) by (bit_vector)
            requires
                x != y,
        ;
        lemma_crc_shifts_injective(c ^ x, c ^ y, 8);
    } else {
        lemma_crc_catches_one_byte(a.drop_last(), b.drop_last(), j);
        let ca = crc8_spec(a.drop_last());
        let cb = crc8_spec(b.drop_last());
        let x = a.last();
        assert(a.last() == b.last());
        assert((ca ^ x) != (cb ^ x)) by (bit_vector)
            requires
                ca != cb,
        ;
        lemma_crc_shifts_injective(ca ^ x, cb ^ x, 8);
    }
}

/// Four little-endian bytes name one value.
proof fn lemma_le4_injective(a: u32, b: u32)
    requires
        le4(a) == le4(b),
    ensures
        a == b,
{
    assert(le4(a)[0] == le4(b)[0] && le4(a)[1] == le4(b)[1] && le4(a)[2] == le4(b)[2] && le4(a)[3]
        == le4(b)[3]);
    assert(a == b) by (bit_vector)
        requires
            (a & 0xff) as u8 == (b & 0xff) as u8,
            ((a >> 8u32) & 0xff) as u8 == ((b >> 8u32) & 0xff) as u8,
            ((a >> 16u32) & 0xff) as u8 == ((b >> 16u32) & 0xff) as u8,
            ((a >> 24u32) & 0xff) as u8 == ((b >> 24u32) & 0xff) as u8,
    ;
}

/// The four bytes at `at` of `s` are `le4(v)`, so `v` is what they say.
proof fn lemma_le4_at(s: Seq<u8>, t: Seq<u8>, at: int, a: u32, b: u32)
    requires
        0 <= at,
        at + 4 <= s.len(),
        s == t,
        s.subrange(at, at + 4) == le4(a),
        t.subrange(at, at + 4) == le4(b),
    ensures
        a == b,
{
    lemma_le4_injective(a, b);
}

/// A frame stands for exactly one packet: two packets with the same frame are
/// the same packet.
///
/// With [`decode`]'s contract this is the round trip: decoding the frame of `p`
/// gives back `p` and nothing else.
pub proof fn decode_inverts_encode(p: Packet, q: Packet)
    requires
        q.frame() == p.frame(),
    ensures
        q == p,
{
    lemma_frame_shape(p);
    lemma_frame_shape(q);
    let pp = p.payload();
    let qp = q.payload();
    assert(pp == qp);
    match (p, q) {
        (Packet::Orientation(a), Packet::Orientation(b)) => {
            assert(pp.subrange(0, 4) == le4(a.w));
            assert(qp.subrange(0, 4) == le4(b.w));
            assert(pp.subrange(4, 8) == le4(a.x));
            assert(qp.subrange(4, 8) == le4(b.x));
            assert(pp.subrange(8, 12) == le4(a.y));
            assert(qp.subrange(8, 12) == le4(b.y));
            assert(pp.subrange(12, 16) == le4(a.z));
            assert(qp.subrange(12, 16) == le4(b.z));
            lemma_le4_at(pp, qp, 0, a.w, b.w);
            lemma_le4_at(pp, qp, 4, a.x, b.x);
            lemma_le4_at(pp, qp, 8, a.y, b.y);
            lemma_le4_at(pp, qp, 12, a.z, b.z);
        },
        (Packet::Calibration(a), Packet::Calibration(b)) => {
            assert(pp.subrange(0, 4) == le4(a.sample.x));
            assert(qp.subrange(0, 4) == le4(b.sample.x));
            assert(pp.subrange(4, 8) == le4(a.sample.y));
            assert(qp.subrange(4, 8) == le4(b.sample.y));
            assert(pp.subrange(8, 12) == le4(a.sample.z));
            assert(qp.subrange(8, 12) == le4(b.sample.z));
            assert(pp.subrange(12, 16) == le4(a.offset.x));
            assert(qp.subrange(12, 16) == le4(b.offset.x));
            assert(pp.subrange(16, 20) == le4(a.offset.y));
            assert(qp.subrange(16, 20) == le4(b.offset.y));
            assert(pp.subrange(20, 24) == le4(a.offset.z));
            assert(qp.subrange(20, 24) == le4(b.offset.z));
            assert(pp.subrange(24, 28) == le4(a.radius));
            assert(qp.subrange(24, 28) == le4(b.radius));
            assert(pp.subrange(28, 32) == le4(a.residual));
            assert(qp.subrange(28, 32) == le4(b.residual));
            assert(pp.subrange(32, 36) == le4(a.spread));
            assert(qp.subrange(32, 36) == le4(b.spread));
            assert(pp.subrange(36, 40) == le4(a.samples));
            assert(qp.subrange(36, 40) == le4(b.samples));
            lemma_le4_at(pp, qp, 0, a.sample.x, b.sample.x);
            lemma_le4_at(pp, qp, 4, a.sample.y, b.sample.y);
            lemma_le4_at(pp, qp, 8, a.sample.z, b.sample.z);
            lemma_le4_at(pp, qp, 12, a.offset.x, b.offset.x);
            lemma_le4_at(pp, qp, 16, a.offset.y, b.offset.y);
            lemma_le4_at(pp, qp, 20, a.offset.z, b.offset.z);
            lemma_le4_at(pp, qp, 24, a.radius, b.radius);
            lemma_le4_at(pp, qp, 28, a.residual, b.residual);
            lemma_le4_at(pp, qp, 32, a.spread, b.spread);
            lemma_le4_at(pp, qp, 36, a.samples, b.samples);
            assert(pp[40] == a.sectors && qp[40] == b.sectors);
            assert(a.state.wire_byte() == b.state.wire_byte());
            assert(a.fit.wire_byte() == b.fit.wire_byte());
        },
        (Packet::Orientation(_), Packet::Calibration(_)) => {},
        (Packet::Calibration(_), Packet::Orientation(_)) => {},
    }
}

/// Any frame with one byte changed — one flipped bit or a whole garbled byte,
/// in the marker, the payload or the checksum — is the frame of no packet, so
/// [`decode`] refuses it.
pub proof fn one_changed_byte_is_caught(p: Packet, i: int, v: u8)
    requires
        0 <= i < p.frame().len(),
        v != p.frame()[i],
    ensures
        forall|q: Packet| #[trigger] q.frame() != p.frame().update(i, v),
{
    lemma_frame_shape(p);
    let f = p.frame().update(i, v);
    assert forall|q: Packet| #[trigger] q.frame() != f by {
        lemma_frame_shape(q);
        if q.frame() == f {
            let len = p.frame_len() as int;
            assert(q.frame_len() == p.frame_len());
            assert(q.tag() == p.tag());
            if 2 <= i < len - 1 {
                let a = p.payload();
                let b = q.payload();
                assert(b =~= a.update(i - 2, v)) by {
                    assert(b == f.subrange(2, len - 1));
                    assert(a == p.frame().subrange(2, len - 1));
                }
                lemma_crc_catches_one_byte(a, b, i - 2);
                assert(f[len - 1] == p.frame()[len - 1]);
            } else if i == len - 1 {
                assert(q.payload() =~= p.payload()) by {
                    assert(q.payload() == f.subrange(2, len - 1));
                    assert(p.payload() == p.frame().subrange(2, len - 1));
                }
            }
        }
    }
}

/// No frame is longer than [`MAX_FRAME_LEN`], so bytes still waiting for the
/// rest of their frame are always fewer than that.
pub proof fn lemma_frame_len_at_most_max(rest: Seq<u8>)
    ensures
        ((rest.len() < 2) || (frame_len_spec(rest) matches Some(len) && rest.len() < len))
            ==> rest.len() < MAX_FRAME_LEN,
{
}

/// A status byte outside what this version knows makes the bytes the frame of
/// no packet, so [`decode`] refuses it rather than guessing.
pub proof fn an_unknown_status_byte_is_no_packet(frame: Seq<u8>)
    requires
        frame.len() == CALIBRATION_LEN,
        frame[43] >= 5 || frame[44] >= 5,
    ensures
        forall|p: Packet| #[trigger] p.frame() != frame,
{
    assert forall|p: Packet| #[trigger] p.frame() != frame by {
        lemma_frame_shape(p);
        if p.frame() == frame {
            if let Packet::Calibration(c) = p {
                assert(p.frame()[43] == p.payload()[41]);
                assert(p.frame()[44] == p.payload()[42]);
            }
        }
    }
}

} // verus!
