//! Wire packet codec: the byte layout that carries one bus frame inside a
//! network transport frame.
use vstd::prelude::*;

verus! {

/// Bytes before the payload: four of identifier, one of declared length and
/// three reserved.
pub const HEADER_LEN: usize = 8;

/// Largest payload whose length the one-byte length field can declare.
pub const MAX_DECLARED_LEN: usize = 255;

/// A frame of the field bus: an identifier and its payload.
#[derive(Debug, PartialEq)]
pub struct Frame {
    pub id: u32,
    pub msg: Vec<u8>,
}

/// The value of a [`Frame`].
pub ghost struct FrameModel {
    pub id: u32,
    pub msg: Seq<u8>,
}

impl View for Frame {
    type V = FrameModel;

    open spec fn view(&self) -> FrameModel {
        FrameModel { id: self.id, msg: self.msg@ }
    }
}

/// The value of a frame that may be absent.
pub open spec fn opt_view(r: Option<Frame>) -> Option<FrameModel> {
    match r {
        Some(f) => Some(f@),
        None => None,
    }
}

/// A decoded wire packet.
#[derive(Debug, PartialEq)]
pub struct Packet {
    pub frame: Frame,
}

/// Why a wire packet was refused.
#[derive(Debug, Clone, Copy, PartialEq, Eq, Structural)]
pub enum PacketError {
    /// Fewer than [`HEADER_LEN`] bytes.
    TooShort,
    /// The declared length exceeds the payload bytes present, and some are present.
    LengthMismatch,
}

/// The integer whose little-endian bytes are `b0`, `b1`, `b2`, `b3`.
pub open spec fn le_u32(b0: u8, b1: u8, b2: u8, b3: u8) -> int {
    b0 as int + 256 * b1 as int + 65536 * b2 as int + 16777216 * b3 as int
}

/// The four little-endian bytes of `id`.
pub open spec fn le_bytes(id: u32) -> Seq<u8> {
    seq![
        (id as int % 256) as u8,
        (id as int / 256 % 256) as u8,
        (id as int / 65536 % 256) as u8,
        (id as int / 16777216) as u8,
    ]
}

/// What a packet decodes to: the identifier from the first four bytes, and the
/// bytes after the header cut to the declared length. A declared length beyond
/// the bytes present is refused unless none are present: an empty payload is a
/// signalling frame whatever length it declares.
pub open spec fn decode(b: Seq<u8>) -> Result<FrameModel, PacketError> {
    if b.len() < HEADER_LEN {
        Err(PacketError::TooShort)
    } else {
        let id = le_u32(b[0], b[1], b[2], b[3]) as u32;
        let declared = b[4] as int;
        let candidate = b.subrange(HEADER_LEN as int, b.len() as int);
        if declared < candidate.len() {
            Ok(FrameModel { id, msg: candidate.subrange(0, declared) })
        } else if candidate.len() > 0 && declared > candidate.len() {
            Err(PacketError::LengthMismatch)
        } else {
            Ok(FrameModel { id, msg: candidate })
        }
    }
}

/// The packet for a frame: identifier, declared length, three zero bytes, payload.
pub open spec fn encode(f: FrameModel) -> Seq<u8>
    recommends
        f.msg.len() <= MAX_DECLARED_LEN,
{
    le_bytes(f.id) + seq![f.msg.len() as u8, 0u8, 0u8, 0u8] + f.msg
}

/// Decodes one wire packet.
pub fn parse_packet(packet: &[u8]) -> (r: Result<Packet, PacketError>)
    ensures
        match r {
            Ok(p) => decode(packet@) == Ok::<FrameModel, PacketError>(p.frame@),
            Err(e) => decode(packet@) == Err::<FrameModel, PacketError>(e),
        },
{
    if packet.len() < HEADER_LEN {
        return Err(PacketError::TooShort);
    }
    let id: u32 = packet[0] as u32 + packet[1] as u32 * 256 + packet[2] as u32 * 65536
        + packet[3] as u32 * 16777216;
    let declared: usize = packet[4] as usize;
    let avail: usize = packet.len() - HEADER_LEN;
    if avail > 0 && declared > avail {
        return Err(PacketError::LengthMismatch);
    }
    let take: usize = if declared < avail {
        declared
    } else {
        avail
    };
    let mut msg: Vec<u8> = Vec::new();
    let end: usize = HEADER_LEN + take;
    let mut i: usize = HEADER_LEN;
    while i < end
        invariant
            end == HEADER_LEN + take,
            HEADER_LEN <= i <= end,
            end <= packet@.len(),
            msg@ == packet@.subrange(HEADER_LEN as int, i as int),
        decreases end - i,
    {
        msg.push(packet[i]);
        i += 1;
        assert(msg@ =~= packet@.subrange(HEADER_LEN as int, i as int));
    }
    assert(msg@ =~= packet@.subrange(HEADER_LEN as int, packet@.len() as int).subrange(0, take as int));
    Ok(Packet { frame: Frame { id, msg } })
}

/// Builds the wire packet for a frame.
pub fn encode_packet(frame: &Frame) -> (r: Vec<u8>)
    requires
        frame.msg@.len() <= MAX_DECLARED_LEN,
    ensures
        r@ == encode(frame@),
{
    let id = frame.id;
    let mut r: Vec<u8> = Vec::new();
    r.push((id % 256) as u8);
    r.push((id / 256 % 256) as u8);
    r.push((id / 65536 % 256) as u8);
    r.push((id / 16777216) as u8);
    r.push(frame.msg.len() as u8);
    r.push(0);
    r.push(0);
    r.push(0);
    let mut i: usize = 0;
    while i < frame.msg.len()
        invariant
            i <= frame.msg@.len(),
            r@ == le_bytes(id) + seq![frame.msg@.len() as u8, 0u8, 0u8, 0u8]
                + frame.msg@.subrange(0, i as int),
        decreases frame.msg.len() - i,
    {
        r.push(frame.msg[i]);
        i += 1;
        assert(r@ =~= le_bytes(id) + seq![frame.msg@.len() as u8, 0u8, 0u8, 0u8]
            + frame.msg@.subrange(0, i as int));
    }
    assert(frame.msg@.subrange(0, i as int) =~= frame.msg@);
    r
}

/// The identifier survives its four little-endian bytes.
pub proof fn lemma_le_bytes(id: u32)
    ensures
        le_u32(le_bytes(id)[0], le_bytes(id)[1], le_bytes(id)[2], le_bytes(id)[3]) == id,
{
    let x = id as int;
    assert(x == x % 256 + 256 * (x / 256 % 256) + 65536 * (x / 65536 % 256) + 16777216 * (x
        / 16777216)) by (nonlinear_arith)
        requires
            0 <= x < 0x1_0000_0000,
    ;
}

/// Decoding an encoded frame followed by any padding gives back the frame.
pub proof fn lemma_round_trip(f: FrameModel, pad: Seq<u8>)
    requires
        f.msg.len() <= 247,
    ensures
        decode(encode(f) + pad) == Ok::<FrameModel, PacketError>(f),
{
    lemma_le_bytes(f.id);
    let b = encode(f) + pad;
    assert(b.subrange(HEADER_LEN as int, b.len() as int) =~= f.msg + pad);
    assert((f.msg + pad).subrange(0, f.msg.len() as int) =~= f.msg);
    if pad.len() == 0 {
        assert(f.msg + pad =~= f.msg);
    }
}

/// Every input shorter than the header is refused as too short.
pub proof fn lemma_short_refused(b: Seq<u8>)
    requires
        b.len() < HEADER_LEN,
    ensures
        decode(b) == Err::<FrameModel, PacketError>(PacketError::TooShort),
{
}

/// A declared length beyond a non-empty payload is refused; with no payload
/// bytes at all any declared length is accepted, as an empty frame.
pub proof fn lemma_declared_length(b: Seq<u8>)
    requires
        b.len() >= HEADER_LEN,
    ensures
        b.len() > HEADER_LEN && b[4] as int > b.len() - HEADER_LEN ==> decode(b) == Err::<
            FrameModel,
            PacketError,
        >(PacketError::LengthMismatch),
        b.len() == HEADER_LEN ==> decode(b) is Ok && decode(b)->Ok_0.msg.len() == 0,
{
}

} // verus!
