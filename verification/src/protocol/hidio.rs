use vstd::prelude::*;
use crate::text::{dec_digits, push_dec};

verus! {

/// HID-IO Packet Types
///
/// Encoded in the upper three bits of the first header byte.
/// Values 5-7 are reserved.
#[derive(PartialEq, Eq, Structural, Clone, Copy, Debug)]
pub enum HIDIOPacketType {
    /// Data packet
    Data,
    /// ACK packet
    ACK,
    /// NAK packet
    NAK,
    /// Sync packet
    Sync,
    /// Continued packet
    Continued,
}

/// HID-IO Parse Error
///
/// Returned when a byte stream cannot be interpreted as a packet.
#[derive(PartialEq, Eq, Structural, Clone, Copy, Debug)]
pub struct HIDIOParseError {}

/// Numeric code of a packet type (the value of the 3-bit type field).
pub open spec fn type_code(t: HIDIOPacketType) -> nat {
    match t {
        HIDIOPacketType::Data => 0,
        HIDIOPacketType::ACK => 1,
        HIDIOPacketType::NAK => 2,
        HIDIOPacketType::Sync => 3,
        HIDIOPacketType::Continued => 4,
    }
}

/// Packet type named by a 3-bit type field value, if any.
pub open spec fn type_of_code(code: nat) -> Option<HIDIOPacketType> {
    if code == 0 {
        Some(HIDIOPacketType::Data)
    } else if code == 1 {
        Some(HIDIOPacketType::ACK)
    } else if code == 2 {
        Some(HIDIOPacketType::NAK)
    } else if code == 3 {
        Some(HIDIOPacketType::Sync)
    } else if code == 4 {
        Some(HIDIOPacketType::Continued)
    } else {
        None
    }
}

/// Header layout of the first byte:
/// `type:3 | cont:1 | id_width:1 | reserved:1 | upper_len:2` (most significant bit first).
pub open spec fn hdr_type_field(b: u8) -> nat {
    (b / 32) as nat
}

/// The `cont` bit of the first header byte.
pub open spec fn hdr_cont_bit(b: u8) -> bool {
    (b / 16) % 2 == 1
}

/// The `id_width` bit of the first header byte (set for a 32-bit id).
pub open spec fn hdr_wide_bit(b: u8) -> bool {
    (b / 8) % 2 == 1
}

/// Packet type of a byte stream.
pub open spec fn spec_packet_type(s: Seq<u8>) -> Result<HIDIOPacketType, HIDIOParseError> {
    if s.len() < 1 {
        Err(HIDIOParseError {  })
    } else {
        match type_of_code(hdr_type_field(s[0])) {
            Some(t) => Ok(t),
            None => Err(HIDIOParseError {  }),
        }
    }
}

/// 10-bit payload length field (upper two bits in the first byte, lower eight in the second).
pub open spec fn len_field(s: Seq<u8>) -> nat
    recommends
        s.len() >= 2,
{
    ((s[0] % 4) * 256 + s[1]) as nat
}

/// Width in bytes of the packet id of a byte stream (2 or 4).
pub open spec fn id_width_of(s: Seq<u8>) -> nat
    recommends
        s.len() >= 1,
{
    if hdr_wide_bit(s[0]) {
        4
    } else {
        2
    }
}

/// Little-endian value of the id bytes that follow the two header bytes.
pub open spec fn id_field(s: Seq<u8>, w: nat) -> nat
    recommends
        s.len() >= 2 + w,
{
    if w == 4 {
        (s[2] + 256 * s[3] + 65536 * s[4] + 16777216 * s[5]) as nat
    } else {
        (s[2] + 256 * s[3]) as nat
    }
}

/// Determines the packet type from a byte stream.
///
/// The upper three bits of the first byte hold the type; values 5-7 are reserved
/// and rejected, as is an empty stream.
pub fn packet_type(packet_data: &mut Vec<u8>) -> (r: Result<HIDIOPacketType, HIDIOParseError>)
    ensures
        final(packet_data)@ == old(packet_data)@,
        r == spec_packet_type(old(packet_data)@),
{
    if packet_data.len() < 1 {
        return Err(HIDIOParseError {  });
    }
    let b = packet_data[0];
    let ptype: u8 = (b & 0xE0) >> 5;
    assert(((b & 0xE0) >> 5) == b / 32) by (bit_vector);
    match ptype {
        0 => Ok(HIDIOPacketType::Data),
        1 => Ok(HIDIOPacketType::ACK),
        2 => Ok(HIDIOPacketType::NAK),
        3 => Ok(HIDIOPacketType::Sync),
        4 => Ok(HIDIOPacketType::Continued),
        _ => Err(HIDIOParseError {  }),
    }
}


/// Payload length of a byte stream (does not count the two header bytes, counts the id).
pub open spec fn spec_payload_len(s: Seq<u8>) -> Result<u32, HIDIOParseError> {
    if s.len() < 2 {
        Err(HIDIOParseError {  })
    } else {
        Ok(len_field(s) as u32)
    }
}

/// Id width (2 or 4 bytes) of a byte stream.
pub open spec fn spec_packet_id_width(s: Seq<u8>) -> Result<usize, HIDIOParseError> {
    if s.len() < 2 {
        Err(HIDIOParseError {  })
    } else {
        Ok(id_width_of(s) as usize)
    }
}

/// Packet id of a byte stream.
pub open spec fn spec_packet_id(s: Seq<u8>) -> Result<u32, HIDIOParseError> {
    if s.len() < 2 {
        Err(HIDIOParseError {  })
    } else if len_field(s) < id_width_of(s) {
        Err(HIDIOParseError {  })
    } else if s.len() < id_width_of(s) + 2 {
        Err(HIDIOParseError {  })
    } else {
        Ok(id_field(s, id_width_of(s)) as u32)
    }
}

/// Continued-packet flag of a byte stream.
pub open spec fn spec_continued_packet(s: Seq<u8>) -> Result<bool, HIDIOParseError> {
    if s.len() < 1 {
        Err(HIDIOParseError {  })
    } else {
        Ok(hdr_cont_bit(s[0]))
    }
}

/// Offset of the payload data in a byte stream.
pub open spec fn spec_payload_start(s: Seq<u8>) -> Result<usize, HIDIOParseError> {
    if s.len() < 2 {
        Err(HIDIOParseError {  })
    } else if len_field(s) == 0 {
        Ok(2)
    } else {
        Ok((2 + id_width_of(s)) as usize)
    }
}

/// Determines the payload length of a byte stream.
///
/// The 10-bit field counts the id bytes but not the two header bytes.
pub fn payload_len(packet_data: &mut Vec<u8>) -> (r: Result<u32, HIDIOParseError>)
    ensures
        final(packet_data)@ == old(packet_data)@,
        r == spec_payload_len(old(packet_data)@),
{
    if packet_data.len() < 2 {
        return Err(HIDIOParseError {  });
    }
    let b0 = packet_data[0];
    let upper_len = (b0 & 0x3) as u32;
    assert((b0 & 0x3) == b0 % 4) by (bit_vector);
    let len = packet_data[1] as u32;
    Ok(upper_len * 256 + len)
}

/// Determines the id width (2 bytes for a 16-bit id, 4 bytes for a 32-bit id).
pub fn packet_id_width(packet_data: &mut Vec<u8>) -> (r: Result<usize, HIDIOParseError>)
    ensures
        final(packet_data)@ == old(packet_data)@,
        r == spec_packet_id_width(old(packet_data)@),
{
    if packet_data.len() < 2 {
        return Err(HIDIOParseError {  });
    }
    let b0 = packet_data[0];
    assert(((b0 & 0x08) == 0x08) == ((b0 / 8) % 2 == 1)) by (bit_vector);
    assert(((b0 & 0x08) == 0x08) || ((b0 & 0x08) == 0)) by (bit_vector);
    if b0 & 0x08 == 0x08 {
        Ok(4)
    } else {
        Ok(2)
    }
}

/// Determines the packet id (little endian, 16 or 32 bits wide).
///
/// Fails when the stream is too short for the header, or when the payload
/// length or the stream is too short to hold the id.
pub fn packet_id(packet_data: &mut Vec<u8>) -> (r: Result<u32, HIDIOParseError>)
    ensures
        final(packet_data)@ == old(packet_data)@,
        r == spec_packet_id(old(packet_data)@),
{
    let packet_data_len = packet_data.len();
    let id_width = match packet_id_width(packet_data) {
        Ok(w) => w,
        Err(e) => return Err(e),
    };
    let plen = match payload_len(packet_data) {
        Ok(l) => l,
        Err(e) => return Err(e),
    };
    if plen < id_width as u32 {
        return Err(HIDIOParseError {  });
    }
    if packet_data_len < id_width + 2 {
        return Err(HIDIOParseError {  });
    }
    let b2 = packet_data[2] as u32;
    let b3 = packet_data[3] as u32;
    if id_width == 4 {
        let b4 = packet_data[4] as u32;
        let b5 = packet_data[5] as u32;
        Ok(b2 + 256 * b3 + 65536 * b4 + 16777216 * b5)
    } else {
        Ok(b2 + 256 * b3)
    }
}

/// Determines whether continued packets follow.
pub fn continued_packet(packet_data: &mut Vec<u8>) -> (r: Result<bool, HIDIOParseError>)
    ensures
        final(packet_data)@ == old(packet_data)@,
        r == spec_continued_packet(old(packet_data)@),
{
    if packet_data.len() < 1 {
        return Err(HIDIOParseError {  });
    }
    let b0 = packet_data[0];
    assert(((b0 & 0x10) == 0x10) == ((b0 / 16) % 2 == 1)) by (bit_vector);
    Ok(b0 & 0x10 == 0x10)
}

/// Determines the starting position of the payload data.
///
/// A packet with an empty payload has no id, its payload starts at index 2.
pub fn payload_start(packet_data: &mut Vec<u8>) -> (r: Result<usize, HIDIOParseError>)
    ensures
        final(packet_data)@ == old(packet_data)@,
        r == spec_payload_start(old(packet_data)@),
{
    let id_width = match packet_id_width(packet_data) {
        Ok(w) => w,
        Err(e) => return Err(e),
    };
    let plen = match payload_len(packet_data) {
        Ok(l) => l,
        Err(e) => return Err(e),
    };
    if plen == 0 {
        return Ok(2);
    }
    Ok(2 + id_width)
}


/// HID-IO Packet Buffer
///
/// Holds the payload of a whole HID-IO message. It is split into individual
/// packets on serialization and re-assembled packet by packet on decoding.
#[derive(PartialEq, Clone, Debug)]
pub struct HIDIOPacketBuffer {
    /// Type of packet (Continued is set automatically on serialization if needed)
    pub ptype: HIDIOPacketType,
    /// Packet Id
    pub id: u32,
    /// Packet length for serialization (in bytes)
    pub max_len: u32,
    /// Payload data, chunking is done automatically by the serializer
    pub data: Vec<u8>,
    /// False while the buffer is incomplete, true once it is
    pub done: bool,
}

/// Mathematical model of a packet buffer.
pub struct PacketState {
    pub ptype: HIDIOPacketType,
    pub id: u32,
    pub max_len: u32,
    pub data: Seq<u8>,
    pub done: bool,
}

impl View for HIDIOPacketBuffer {
    type V = PacketState;

    open spec fn view(&self) -> PacketState {
        PacketState {
            ptype: self.ptype,
            id: self.id,
            max_len: self.max_len,
            data: self.data@,
            done: self.done,
        }
    }
}

/// The state of a freshly created buffer.
pub open spec fn empty_state() -> PacketState {
    PacketState { ptype: HIDIOPacketType::Data, id: 0, max_len: 0, data: Seq::empty(), done: false }
}

/// Adds the payload of an accepted packet to a buffer state.
pub open spec fn accept_packet(st: PacketState, s: Seq<u8>) -> PacketState
    recommends
        s.len() >= 2 + len_field(s),
        len_field(s) >= id_width_of(s),
{
    PacketState {
        data: st.data + s.subrange(2 + id_width_of(s) as int, 2 + len_field(s) as int),
        done: !hdr_cont_bit(s[0]),
        ..st
    }
}

/// Effect of decoding one packet into a buffer: the new buffer state and the result.
///
/// A finished buffer takes no more bytes. A packet whose payload is not complete in
/// the stream is skipped whole. A packet that does not belong to the message being
/// assembled (a continued packet on an empty buffer, a fresh packet on a started
/// buffer, another id) is dropped, and its length is reported.
pub open spec fn spec_decode(st: PacketState, s: Seq<u8>) -> (PacketState, Result<u32, HIDIOParseError>) {
    if st.done {
        (st, Ok(0))
    } else {
        match spec_packet_type(s) {
            Err(e) => (st, Err(e)),
            Ok(t) => {
                if s.len() < 2 {
                    (st, Err(HIDIOParseError {  }))
                } else if s.len() - 2 < len_field(s) {
                    (st, Ok(s.len() as u32))
                } else if len_field(s) < id_width_of(s) {
                    (st, Err(HIDIOParseError {  }))
                } else {
                    let id = id_field(s, id_width_of(s)) as u32;
                    let n = (len_field(s) + 2) as u32;
                    if st.data.len() == 0 && t != HIDIOPacketType::Continued {
                        (accept_packet(PacketState { ptype: t, id: id, ..st }, s), Ok(n))
                    } else if st.data.len() == 0 || t != HIDIOPacketType::Continued || st.id != id {
                        (st, Ok(n))
                    } else {
                        (accept_packet(st, s), Ok(n))
                    }
                }
            },
        }
    }
}


/// Decoding never mixes messages: a Continued packet whose id is not the id of the message
/// being assembled (a started, unfinished buffer) is dropped and the buffer is left as it
/// was, only the packet's length being reported as used; one with the same id adds exactly
/// its payload and keeps the buffer's type and id.
pub proof fn lemma_continuation_of_own_message_only(st: PacketState, s: Seq<u8>)
    requires
        !st.done,
        st.data.len() > 0,
        s.len() >= 2,
        hdr_type_field(s[0]) == 4,
        s.len() - 2 >= len_field(s),
        len_field(s) >= id_width_of(s),
    ensures
        id_field(s, id_width_of(s)) as u32 != st.id ==> spec_decode(st, s) == (st, Ok::<u32, HIDIOParseError>((len_field(s) + 2) as u32)),
        id_field(s, id_width_of(s)) as u32 == st.id ==> ({
            let r = spec_decode(st, s).0;
            &&& r.data == st.data + s.subrange(2 + id_width_of(s) as int, 2 + len_field(s) as int)
            &&& r.ptype == st.ptype && r.id == st.id && r.max_len == st.max_len
            &&& spec_decode(st, s).1 == Ok::<u32, HIDIOParseError>((len_field(s) + 2) as u32)
        }),
{
    assert(spec_packet_type(s) == Ok::<HIDIOPacketType, HIDIOParseError>(HIDIOPacketType::Continued));
}

/// Number of id bytes used on the wire: 2 for ids that fit in 16 bits, 4 otherwise.
pub open spec fn id_len_of(id: u32) -> nat {
    if id <= 0xFFFF {
        2
    } else {
        4
    }
}

/// Little-endian id bytes, as many as `id_len_of` says.
pub open spec fn id_bytes(id: u32) -> Seq<u8> {
    if id <= 0xFFFF {
        seq![(id % 256) as u8, ((id / 256) % 256) as u8]
    } else {
        seq![
            (id % 256) as u8,
            ((id / 256) % 256) as u8,
            ((id / 65536) % 256) as u8,
            ((id / 16777216) % 256) as u8,
        ]
    }
}

/// First header byte: `type:3 | cont:1 | id_width:1 | reserved:1 | upper_len:2`.
/// Only the two low bits of the upper length byte fit in the header.
pub open spec fn header_byte(code: nat, cont: bool, wide: bool, packet_len: nat) -> u8 {
    (code * 32 + (if cont {
        16nat
    } else {
        0nat
    }) + (if wide {
        8nat
    } else {
        0nat
    }) + (packet_len / 256) % 4) as u8
}

/// Value of the 16-bit length of a packet carrying `chunk_len` payload bytes:
/// the chunk length taken modulo 2^16, plus the id bytes.
pub open spec fn packet_len_value(chunk_len: nat, idl: nat) -> nat {
    chunk_len % 65536 + idl
}

/// One packet on the wire: two header bytes, the id, then the payload chunk.
pub open spec fn frame(code: nat, cont: bool, id: u32, chunk: Seq<u8>) -> Seq<u8> {
    let idl = id_len_of(id);
    let pl = packet_len_value(chunk.len(), idl);
    seq![header_byte(code, cont, idl == 4, pl), (pl % 256) as u8] + id_bytes(id) + chunk
}

/// The continued packets that carry `data` from offset `off` on, `p` payload bytes at most each.
pub open spec fn continued_frames(data: Seq<u8>, p: nat, off: nat, id: u32) -> Seq<u8>
    decreases data.len() - off,
{
    if p == 0 || off >= data.len() {
        Seq::empty()
    } else {
        let rem = (data.len() - off) as nat;
        let cont = rem > p;
        if cont {
            frame(4, true, id, data.subrange(off as int, (off + p) as int)) + continued_frames(
                data,
                p,
                off + p,
                id,
            )
        } else {
            frame(4, false, id, data.subrange(off as int, data.len() as int))
        }
    }
}

/// Payload bytes that fit in one packet after the header and the id.
pub open spec fn payload_room(b: PacketState) -> int {
    b.max_len - (2 + id_len_of(b.id))
}

/// Wire form of a finished buffer.
///
/// The first packet carries the buffer's own type; when the data does not fit, the
/// rest follows in continued packets. A Sync buffer is just its two header bytes.
pub open spec fn spec_serialize(b: PacketState) -> Seq<u8> {
    let p = payload_room(b) as nat;
    let d = b.data.len();
    let cont = d > p;
    let first = frame(type_code(b.ptype), cont, b.id, b.data.take(if cont { p as int } else { d as int }));
    if b.ptype == HIDIOPacketType::Sync {
        first.take(2)
    } else if cont {
        first + continued_frames(b.data, p, p, b.id)
    } else {
        first
    }
}

/// Every continued packet from offset `off` on has a 16-bit length that does not overflow.
pub open spec fn continued_lengths_fit(d: nat, p: nat, off: nat, idl: nat) -> bool
    decreases d - off,
{
    if p == 0 || off >= d {
        true
    } else {
        let rem = (d - off) as nat;
        if rem > p {
            p % 65536 + idl <= 65535 && continued_lengths_fit(d, p, off + p, idl)
        } else {
            rem % 65536 + idl <= 65535
        }
    }
}

/// The inputs on which serialization completes: the buffer is done, the maximum
/// packet length leaves room for at least one payload byte, the total length fits in
/// 32 bits and no packet length overflows its 16-bit computation.
pub open spec fn serializable(b: PacketState) -> bool {
    let idl = id_len_of(b.id);
    let p = payload_room(b);
    let d = b.data.len();
    &&& b.done
    &&& p > 0
    &&& d + 2 + idl <= u32::MAX
    &&& (if d > p { p } else { d as int }) % 65536 + idl <= 65535
    &&& (b.ptype != HIDIOPacketType::Sync && d > p ==> continued_lengths_fit(d, p as nat, p as nat, idl))
}

/// Appends one packet (header, id, `data[start..end]`) to `out`.
fn push_frame(out: &mut Vec<u8>, code: u8, cont: bool, id: u32, data: &Vec<u8>, start: usize, end: usize)
    requires
        code <= 4,
        start <= end <= data.len(),
        (end - start) % 65536 + id_len_of(id) <= 65535,
    ensures
        final(out)@ == old(out)@ + frame(code as nat, cont, id, data@.subrange(start as int, end as int)),
{
    let ghost o = out@;
    let idl: u16 = if id <= 0xFFFF { 2 } else { 4 };
    let packet_len: u16 = ((end - start) % 65536) as u16 + idl;
    let hdr: u8 = code * 32 + (if cont { 16u8 } else { 0u8 }) + (if idl == 4 { 8u8 } else { 0u8 }) + ((packet_len / 256) % 4) as u8;
    out.push(hdr);
    out.push((packet_len % 256) as u8);
    out.push((id % 256) as u8);
    out.push(((id / 256) % 256) as u8);
    if idl == 4 {
        out.push(((id / 65536) % 256) as u8);
        out.push(((id / 16777216) % 256) as u8);
    }
    let ghost head = out@;
    assert(head =~= o + seq![header_byte(code as nat, cont, idl == 4, packet_len as nat), (packet_len % 256) as u8] + id_bytes(id));
    let mut i = start;
    while i < end
        invariant
            start <= i <= end <= data.len(),
            out@ == head + data@.subrange(start as int, i as int),
        decreases end - i,
    {
        out.push(data[i]);
        i = i + 1;
        assert(data@.subrange(start as int, i as int)
            =~= data@.subrange(start as int, i - 1 as int).push(data@[i - 1]));
    }
    assert(out@ =~= o + frame(code as nat, cont, id, data@.subrange(start as int, end as int)));
}

impl HIDIOPacketBuffer {
    /// Creates a blank buffer.
    pub fn new() -> (r: HIDIOPacketBuffer)
        ensures
            r@ == empty_state(),
    {
        HIDIOPacketBuffer {
            ptype: HIDIOPacketType::Data,
            id: 0,
            max_len: 0,
            data: Vec::new(),
            done: false,
        }
    }

    /// Appends payload data, moving it out of `new_data`.
    ///
    /// A finished buffer (marked done) takes no more data: nothing changes and false is
    /// returned.
    pub fn append_payload(&mut self, new_data: &mut Vec<u8>) -> (r: bool)
        ensures
            r == !old(self).done,
            r ==> final(self)@ == (PacketState { data: old(self).data@ + old(new_data)@, ..old(self)@ }),
            r ==> final(new_data)@ == Seq::<u8>::empty(),
            !r ==> final(self)@ == old(self)@ && final(new_data)@ == old(new_data)@,
    {
        if self.done {
            return false;
        }
        self.data.append(new_data);
        true
    }

    /// Decodes one packet from the front of a byte stream into the buffer.
    ///
    /// Returns the number of bytes used. Sets `done` when the packet is the last one of
    /// its message.
    pub fn decode_packet(&mut self, packet_data: &mut Vec<u8>) -> (r: Result<u32, HIDIOParseError>)
        requires
            old(packet_data).len() <= u32::MAX,
        ensures
            final(packet_data)@ == old(packet_data)@,
            (final(self)@, r) == spec_decode(old(self)@, old(packet_data)@),
    {
        if self.done {
            return Ok(0);
        }
        let packet_data_len = packet_data.len() as u32;
        let ptype = match packet_type(packet_data) {
            Ok(t) => t,
            Err(e) => return Err(e),
        };
        let plen = match payload_len(packet_data) {
            Ok(l) => l,
            Err(e) => return Err(e),
        };
        let packet_len = plen + 2;
        if packet_data_len - 2 < plen {
            return Ok(packet_data_len);
        }
        let id = match packet_id(packet_data) {
            Ok(i) => i,
            Err(e) => return Err(e),
        };
        if self.data.len() == 0 && ptype != HIDIOPacketType::Continued {
            self.ptype = ptype;
            self.id = id;
        } else {
            if self.data.len() == 0 && ptype == HIDIOPacketType::Continued {
                return Ok(packet_len);
            }
            if self.data.len() > 0 && ptype != HIDIOPacketType::Continued {
                return Ok(packet_len);
            }
            if self.id != id {
                return Ok(packet_len);
            }
        }
        let start = match payload_start(packet_data) {
            Ok(p) => p,
            Err(e) => return Err(e),
        };
        let id_width_len = match packet_id_width(packet_data) {
            Ok(w) => w,
            Err(e) => return Err(e),
        };
        let cont = match continued_packet(packet_data) {
            Ok(c) => c,
            Err(e) => return Err(e),
        };
        self.done = !cont;
        let end = start + plen as usize - id_width_len;
        let ghost before = self.data@;
        let ghost mid = self@;
        assert(end == 2 + len_field(packet_data@));
        assert(start == 2 + id_width_of(packet_data@));
        let mut i = start;
        while i < end
            invariant
                start <= i <= end,
                end <= packet_data@.len(),
                self.data@ == before + packet_data@.subrange(start as int, i as int),
                self.done == mid.done,
                self.ptype == mid.ptype,
                self.id == mid.id,
                self.max_len == mid.max_len,
            decreases end - i,
        {
            self.data.push(packet_data[i]);
            i = i + 1;
            assert(packet_data@.subrange(start as int, i as int)
                =~= packet_data@.subrange(start as int, i - 1 as int).push(packet_data@[i - 1]));
        }
        assert(self.data@ =~= accept_packet(mid, packet_data@).data);
        Ok(packet_len)
    }

    /// Serializes the buffer into wire packets of at most `max_len` bytes each.
    ///
    /// Only the packet bytes are returned (no length prefix).
    pub fn serialize_buffer(&mut self) -> (r: Result<Vec<u8>, HIDIOParseError>)
        requires
            serializable(old(self)@),
        ensures
            final(self)@ == old(self)@,
            r matches Ok(v) && v@ == spec_serialize(old(self)@),
    {
        let idl: u32 = if self.id <= 0xFFFF { 2 } else { 4 };
        let hdr_len: u32 = 2 + idl;
        let p: u32 = self.max_len - hdr_len;
        let d: u32 = self.data.len() as u32;
        let cont = d > p;
        let code: u8 = match self.ptype {
            HIDIOPacketType::Data => 0,
            HIDIOPacketType::ACK => 1,
            HIDIOPacketType::NAK => 2,
            HIDIOPacketType::Sync => 3,
            HIDIOPacketType::Continued => 4,
        };
        let first_end: usize = if cont { p as usize } else { d as usize };
        let mut out: Vec<u8> = Vec::new();
        push_frame(&mut out, code, cont, self.id, &self.data, 0, first_end);
        let ghost first = out@;
        assert(self.data@.subrange(0, first_end as int) =~= self.data@.take(first_end as int));
        if self.ptype == HIDIOPacketType::Sync {
            out.truncate(2);
            assert(out@ =~= first.take(2));
            return Ok(out);
        }
        if !cont {
            return Ok(out);
        }
        let ghost target = spec_serialize(self@);
        let mut off: usize = p as usize;
        let mut more = true;
        while more
            invariant
                p > 0,
                p as int == payload_room(self@),
                d as int == self.data@.len(),
                d + hdr_len <= u32::MAX,
                self.ptype != HIDIOPacketType::Sync,
                more ==> off < d,
                more ==> continued_lengths_fit(d as nat, p as nat, off as nat, id_len_of(self.id)),
                more ==> out@ + continued_frames(self.data@, p as nat, off as nat, self.id) == target,
                !more ==> out@ == target,
            decreases d - off + (if more { 1int } else { 0int }),
        {
            let rem: u32 = d - off as u32;
            let c = rem > p;
            let end: usize = if c { off + p as usize } else { d as usize };
            let ghost before = out@;
            push_frame(&mut out, 4, c, self.id, &self.data, off, end);
            if c {
                assert(out@ + continued_frames(self.data@, p as nat, end as nat, self.id)
                    =~= before + continued_frames(self.data@, p as nat, off as nat, self.id));
                off = end;
            } else {
                assert(out@ =~= before + continued_frames(self.data@, p as nat, off as nat, self.id));
                more = false;
            }
        }
        Ok(out)
    }
}


/// Decodes a whole byte stream packet by packet, the way a receiver feeds each
/// remainder of the stream back to `decode_packet`. `None` when a packet fails to
/// decode or uses no bytes while some remain.
pub open spec fn decode_stream(st: PacketState, s: Seq<u8>) -> Option<PacketState>
    decreases s.len(),
{
    if s.len() == 0 {
        Some(st)
    } else {
        let (st2, r) = spec_decode(st, s);
        match r {
            Ok(n) => {
                if 0 < n && n <= s.len() {
                    decode_stream(st2, s.skip(n as int))
                } else {
                    None
                }
            },
            Err(_) => None,
        }
    }
}

/// Every packet of the wire form states its length exactly in the 10-bit length field.
pub open spec fn lengths_fit_len_field(b: PacketState) -> bool {
    let p = payload_room(b);
    let d = b.data.len();
    (if d > p { p } else { d as int }) + id_len_of(b.id) <= 1023
}

proof fn lemma_header_fields(code: nat, cont: bool, wide: bool, pl: nat)
    requires
        code <= 4,
        pl <= 1023,
    ensures
        hdr_type_field(header_byte(code, cont, wide, pl)) == code,
        hdr_cont_bit(header_byte(code, cont, wide, pl)) == cont,
        hdr_wide_bit(header_byte(code, cont, wide, pl)) == wide,
        ((header_byte(code, cont, wide, pl) % 4) * 256 + (pl % 256) as u8) == pl,
{
    let c: nat = if cont { 1 } else { 0 };
    let w: nat = if wide { 1 } else { 0 };
    let u: nat = pl / 256;
    assert(u <= 3);
    let h: nat = code * 32 + c * 16 + w * 8 + u;
    assert(header_byte(code, cont, wide, pl) as nat == h);
    assert(h / 32 == code) by (nonlinear_arith)
        requires h == code * 32 + c * 16 + w * 8 + u, c <= 1, w <= 1, u <= 3;
    assert((h / 16) % 2 == c) by (nonlinear_arith)
        requires h == code * 32 + c * 16 + w * 8 + u, c <= 1, w <= 1, u <= 3;
    assert((h / 8) % 2 == w) by (nonlinear_arith)
        requires h == code * 32 + c * 16 + w * 8 + u, c <= 1, w <= 1, u <= 3;
    assert(h % 4 == u) by (nonlinear_arith)
        requires h == code * 32 + c * 16 + w * 8 + u, c <= 1, w <= 1, u <= 3;
    assert(u * 256 + pl % 256 == pl) by (nonlinear_arith)
        requires u == pl / 256;
}

proof fn lemma_id_bytes(id: u32)
    ensures
        id_bytes(id).len() == id_len_of(id),
        id <= 0xFFFF ==> id_bytes(id)[0] + 256 * id_bytes(id)[1] == id,
        id > 0xFFFF ==> id_bytes(id)[0] + 256 * id_bytes(id)[1] + 65536 * id_bytes(id)[2]
            + 16777216 * id_bytes(id)[3] == id,
{
    if id <= 0xFFFF {
        assert((id % 256) + 256 * ((id / 256) % 256) == id) by (nonlinear_arith)
            requires id <= 0xFFFF;
    } else {
        assert((id % 256) + 256 * ((id / 256) % 256) + 65536 * ((id / 65536) % 256)
            + 16777216 * ((id / 16777216) % 256) == id) by (nonlinear_arith)
            requires id <= 0xFFFF_FFFFu32;
    }
}

/// Decoding a packet produced by `frame` recovers its fields and its payload chunk,
/// whatever bytes follow it.
proof fn lemma_decode_frame(code: nat, cont: bool, id: u32, chunk: Seq<u8>, rest: Seq<u8>)
    requires
        code <= 4,
        chunk.len() + id_len_of(id) <= 1023,
    ensures
        ({
            let s = frame(code, cont, id, chunk) + rest;
            let idl = id_len_of(id);
            &&& s.len() == 2 + idl + chunk.len() + rest.len()
            &&& spec_packet_type(s) == (match type_of_code(code) {
                Some(t) => Ok(t),
                None => Err(HIDIOParseError {  }),
            })
            &&& len_field(s) == idl + chunk.len()
            &&& id_width_of(s) == idl
            &&& id_field(s, idl) == id
            &&& hdr_cont_bit(s[0]) == cont
            &&& s.subrange(2 + idl as int, 2 + len_field(s) as int) == chunk
            &&& s.skip(2 + len_field(s) as int) == rest
        }),
{
    let s = frame(code, cont, id, chunk) + rest;
    let idl = id_len_of(id);
    let pl = packet_len_value(chunk.len(), idl);
    assert(pl == chunk.len() + idl);
    lemma_header_fields(code, cont, idl == 4, pl);
    lemma_id_bytes(id);
    let ib = id_bytes(id);
    assert(s[0] == header_byte(code, cont, idl == 4, pl));
    assert(s[1] == (pl % 256) as u8);
    assert(s[2] == ib[0]);
    assert(s[3] == ib[1]);
    if idl == 4 {
        assert(s[4] == ib[2]);
        assert(s[5] == ib[3]);
    }
    assert(s.subrange(2 + idl as int, 2 + len_field(s) as int) =~= chunk);
    assert(s.skip(2 + len_field(s) as int) =~= rest);
}

/// One step of `decode_stream` over a packet produced by `frame`.
proof fn lemma_stream_step(st: PacketState, code: nat, cont: bool, id: u32, chunk: Seq<u8>, rest: Seq<u8>)
    requires
        code <= 4,
        chunk.len() + id_len_of(id) <= 1023,
        !st.done,
        code != 4 ==> st.data.len() == 0 && code != 3,
        code == 4 ==> st.data.len() > 0 && st.id == id,
    ensures
        decode_stream(st, frame(code, cont, id, chunk) + rest) == decode_stream(
            PacketState {
                ptype: if code == 4 { st.ptype } else { type_of_code(code).unwrap() },
                id: id,
                data: st.data + chunk,
                done: !cont,
                ..st
            },
            rest,
        ),
{
    let s = frame(code, cont, id, chunk) + rest;
    lemma_decode_frame(code, cont, id, chunk, rest);
    let idl = id_len_of(id);
    let n = 2 + idl + chunk.len();
    assert(s.len() > 0);
    let (st2, r) = spec_decode(st, s);
    assert(r == Ok::<u32, HIDIOParseError>(n as u32));
    assert(s.skip(n as int) == rest);
    assert(st2 == PacketState {
        ptype: if code == 4 { st.ptype } else { type_of_code(code).unwrap() },
        id: id,
        data: st.data + chunk,
        done: !cont,
        ..st
    });
}

/// Decoding the continued packets from offset `off` completes the buffer.
proof fn lemma_decode_continued(st: PacketState, data: Seq<u8>, p: nat, off: nat)
    requires
        0 < off < data.len(),
        p > 0,
        p + id_len_of(st.id) <= 1023,
        st.ptype != HIDIOPacketType::Continued,
        !st.done,
        st.data == data.take(off as int),
    ensures
        decode_stream(st, continued_frames(data, p, off, st.id)) == Some(
            PacketState { data: data, done: true, ..st },
        ),
    decreases data.len() - off,
{
    let rem = (data.len() - off) as nat;
    if rem > p {
        let chunk = data.subrange(off as int, (off + p) as int);
        let rest = continued_frames(data, p, off + p, st.id);
        assert(continued_frames(data, p, off, st.id) == frame(4, true, st.id, chunk) + rest);
        lemma_stream_step(st, 4, true, st.id, chunk, rest);
        let st2 = PacketState { data: st.data + chunk, done: false, ..st };
        assert(st.data + chunk =~= data.take((off + p) as int));
        lemma_decode_continued(st2, data, p, off + p);
        assert(PacketState { data: data, done: true, ..st2 } == PacketState { data: data, done: true, ..st });
    } else {
        let chunk = data.subrange(off as int, data.len() as int);
        let rest = Seq::<u8>::empty();
        assert(continued_frames(data, p, off, st.id) =~= frame(4, false, st.id, chunk) + rest);
        lemma_stream_step(st, 4, false, st.id, chunk, rest);
        assert(st.data + chunk =~= data);
    }
}

/// Round trip: decoding the wire form of a finished buffer, packet by packet, from a
/// blank buffer gives back the buffer (apart from `max_len`, which the wire form does
/// not carry). Holds for Data, ACK and NAK buffers whose packet lengths fit the 10-bit
/// length field; a Sync buffer's wire form carries no id or payload, and a buffer
/// typed Continued is not accepted as the start of a message.
pub proof fn lemma_serialize_decode_roundtrip(b: PacketState)
    requires
        serializable(b),
        lengths_fit_len_field(b),
        b.ptype != HIDIOPacketType::Sync,
        b.ptype != HIDIOPacketType::Continued,
    ensures
        decode_stream(empty_state(), spec_serialize(b)) == Some(PacketState { max_len: 0, ..b }),
{
    let p = payload_room(b) as nat;
    let d = b.data.len();
    let cont = d > p;
    let c0: nat = if cont { p } else { d };
    let chunk0 = b.data.take(c0 as int);
    let code = type_code(b.ptype);
    if cont {
        let rest = continued_frames(b.data, p, p, b.id);
        lemma_stream_step(empty_state(), code, true, b.id, chunk0, rest);
        let st1 = PacketState {
            ptype: b.ptype,
            id: b.id,
            max_len: 0,
            data: Seq::<u8>::empty() + chunk0,
            done: false,
        };
        assert(st1.data =~= b.data.take(p as int));
        lemma_decode_continued(st1, b.data, p, p);
        assert(PacketState { data: b.data, done: true, ..st1 } == PacketState { max_len: 0, ..b });
    } else {
        let rest = Seq::<u8>::empty();
        assert(spec_serialize(b) =~= frame(code, false, b.id, chunk0) + rest);
        lemma_stream_step(empty_state(), code, false, b.id, chunk0, rest);
        assert(Seq::<u8>::empty() + chunk0 =~= b.data);
    }
}


/// Display name of a packet type.
pub open spec fn packet_type_name(t: HIDIOPacketType) -> Seq<char> {
    match t {
        HIDIOPacketType::Data => "HIDIOPacketBuffer::Data"@,
        HIDIOPacketType::ACK => "HIDIOPacketBuffer::ACK"@,
        HIDIOPacketType::NAK => "HIDIOPacketBuffer::NAK"@,
        HIDIOPacketType::Sync => "HIDIOPacketBuffer::Sync"@,
        HIDIOPacketType::Continued => "HIDIOPacketBuffer::Continued"@,
    }
}

impl HIDIOPacketType {
    /// Display name of the packet type.
    pub fn to_string(&self) -> (r: String)
        ensures
            r@ == packet_type_name(*self),
    {
        let s = match self {
            HIDIOPacketType::Data => "HIDIOPacketBuffer::Data",
            HIDIOPacketType::ACK => "HIDIOPacketBuffer::ACK",
            HIDIOPacketType::NAK => "HIDIOPacketBuffer::NAK",
            HIDIOPacketType::Sync => "HIDIOPacketBuffer::Sync",
            HIDIOPacketType::Continued => "HIDIOPacketBuffer::Continued",
        };
        String::from_str(s)
    }
}

/// The data bytes as a pretty list: `[]`, or one decimal byte per line, indented by
/// four spaces and followed by a comma, between `[` and `]`.
pub open spec fn pretty_bytes(d: Seq<u8>) -> Seq<char> {
    if d.len() == 0 {
        "[]"@
    } else {
        "[\n"@ + byte_lines(d, d.len() as int) + "]"@
    }
}

/// The lines of the first `n` bytes of a pretty list.
pub open spec fn byte_lines(d: Seq<u8>, n: int) -> Seq<char>
    decreases n,
{
    if n <= 0 {
        Seq::empty()
    } else {
        byte_lines(d, n - 1) + "    "@ + dec_digits(d[n - 1] as nat) + ",\n"@
    }
}

/// `true` or `false`.
pub open spec fn bool_text(b: bool) -> Seq<char> {
    if b {
        "true"@
    } else {
        "false"@
    }
}

/// Display form of a buffer: its fields one per line between braces.
pub open spec fn buffer_text(b: PacketState) -> Seq<char> {
    "\n{\n    ptype: "@ + packet_type_name(b.ptype) + "\n    id: "@ + dec_digits(b.id as nat) + "\n    max_len: "@
        + dec_digits(b.max_len as nat) + "\n    done: "@ + bool_text(b.done) + "\n    data: "@ + pretty_bytes(b.data)
        + "\n}"@
}

impl HIDIOPacketBuffer {
    /// Display form of the buffer (see [`buffer_text`]).
    pub fn to_string(&self) -> (r: String)
        ensures
            r@ == buffer_text(self@),
    {
        let mut s = String::from_str("\n{\n    ptype: ");
        let t = self.ptype.to_string();
        s.append(t.as_str());
        s.append("\n    id: ");
        push_dec(&mut s, self.id as u64);
        s.append("\n    max_len: ");
        push_dec(&mut s, self.max_len as u64);
        s.append("\n    done: ");
        if self.done {
            s.append("true");
        } else {
            s.append("false");
        }
        s.append("\n    data: ");
        let ghost before = s@;
        if self.data.len() == 0 {
            s.append("[]");
        } else {
            s.append("[\n");
            let ghost open = s@;
            let mut i: usize = 0;
            while i < self.data.len()
                invariant
                    i <= self.data@.len(),
                    s@ == open + byte_lines(self.data@, i as int),
                decreases self.data@.len() - i,
            {
                let ghost prev = s@;
                s.append("    ");
                push_dec(&mut s, self.data[i] as u64);
                s.append(",\n");
                assert(s@ =~= prev + "    "@ + dec_digits(self.data@[i as int] as nat) + ",\n"@);
                i = i + 1;
            }
            s.append("]");
        }
        assert(s@ =~= before + pretty_bytes(self.data@));
        s.append("\n}");
        assert(s@ =~= buffer_text(self@));
        s
    }
}

} // verus!
