use vstd::prelude::*;
use crate::api::Endpoint;
use crate::text::{dec_digits, push_dec};
use crate::protocol::hidio::{
    HIDIOPacketBuffer, HIDIOPacketType, PacketState, serializable, spec_serialize, spec_decode,
    payload_room, id_len_of, continued_lengths_fit, empty_state,
};

/// hidapi devices (usage matching, naming, report framing)
pub mod hidapi;
/// Evdev input events to HID keyboard reports
pub mod evdev;

verus! {

/// Splits a byte sequence into pieces of `n` bytes, the last one possibly shorter
/// (as `slice::chunks` does).
pub open spec fn spec_chunks(s: Seq<u8>, n: nat) -> Seq<Seq<u8>>
    decreases s.len(),
{
    if n == 0 || s.len() == 0 {
        Seq::empty()
    } else if s.len() <= n {
        seq![s]
    } else {
        seq![s.take(n as int)] + spec_chunks(s.skip(n as int), n)
    }
}

/// Views of a list of byte vectors.
pub open spec fn chunk_views(v: Seq<Vec<u8>>) -> Seq<Seq<u8>> {
    v.map_values(|c: Vec<u8>| c@)
}

/// Splits bytes into writes of at most `n` bytes.
pub fn split_chunks(bytes: &Vec<u8>, n: usize) -> (r: Vec<Vec<u8>>)
    requires
        n > 0,
    ensures
        chunk_views(r@) == spec_chunks(bytes@, n as nat),
{
    let mut out: Vec<Vec<u8>> = Vec::new();
    let mut off: usize = 0;
    let len = bytes.len();
    assert(bytes@.skip(0) =~= bytes@);
    while off < len
        invariant
            len == bytes@.len(),
            off <= len,
            n > 0,
            chunk_views(out@) + spec_chunks(bytes@.skip(off as int), n as nat) == spec_chunks(bytes@, n as nat),
        decreases len - off,
    {
        let end = if len - off <= n { len } else { off + n };
        let mut c: Vec<u8> = Vec::new();
        let mut i = off;
        while i < end
            invariant
                off <= i <= end <= len,
                len == bytes@.len(),
                c@ == bytes@.subrange(off as int, i as int),
            decreases end - i,
        {
            c.push(bytes[i]);
            i = i + 1;
            assert(bytes@.subrange(off as int, i as int) =~= bytes@.subrange(off as int, i - 1 as int).push(bytes@[i - 1]));
        }
        let ghost rest = bytes@.skip(off as int);
        assert(c@ =~= if rest.len() <= n { rest } else { rest.take(n as int) });
        if len - off > n {
            assert(rest.skip(n as int) =~= bytes@.skip(off + n));
        }
        let ghost before = out@;
        out.push(c);
        assert(chunk_views(out@) =~= chunk_views(before).push(c@));
        off = end;
        if off == len {
            assert(bytes@.skip(off as int) =~= Seq::<u8>::empty());
            assert(spec_chunks(rest, n as nat) =~= seq![c@]);
        }
        assert(chunk_views(out@) + spec_chunks(bytes@.skip(off as int), n as nat) =~= chunk_views(before) + spec_chunks(rest, n as nat));
    }
    assert(bytes@.skip(len as int) =~= Seq::<u8>::empty());
    assert(chunk_views(out@) + Seq::<Seq<u8>>::empty() =~= chunk_views(out@));
    out
}

/// The Sync packet: no id and no payload.
pub open spec fn sync_state() -> PacketState {
    PacketState { ptype: HIDIOPacketType::Sync, id: 0, max_len: 64, data: Seq::empty(), done: true }
}

/// The acknowledgement packet sent for a received packet (its id is always 0).
pub open spec fn ack_state(data: Seq<u8>) -> PacketState {
    PacketState { ptype: HIDIOPacketType::ACK, id: 0, max_len: 64, data: data, done: true }
}

proof fn lemma_small_chunks_fit(d: nat, p: nat, off: nat, idl: nat)
    requires
        0 < p <= 1000,
        idl <= 4,
    ensures
        continued_lengths_fit(d, p, off, idl),
    decreases d - off,
{
    if off < d {
        let rem = (d - off) as nat;
        if rem > p {
            lemma_small_chunks_fit(d, p, off + p, idl);
        }
    }
}

/// A finished buffer with id 0 and a 64-byte packet size is serializable whenever its
/// total length fits in 32 bits.
proof fn lemma_default_buffer_serializable(b: PacketState)
    requires
        b.done,
        b.id == 0,
        b.max_len == 64,
        b.data.len() + 4 <= u32::MAX,
    ensures
        serializable(b),
{
    lemma_small_chunks_fit(b.data.len(), 60, 60, 2);
}

/// What the receive loop does after a chunk was decoded into its buffer.
#[derive(PartialEq, Eq, Structural, Clone, Copy, Debug)]
pub enum RecvAction {
    /// Keep reading
    Continue,
    /// Send an acknowledgement, then keep reading
    Ack,
    /// Stop reading (a NAK was received)
    Stop,
}

/// A raw transport's packet settings, with the helpers that encode and decode HID-IO
/// packets for it (the transport itself is driven by the caller)
pub struct HIDIOEndpoint {
    pub max_packet_len: u32,
}

impl HIDIOEndpoint {
    /// Creates an endpoint for a transport with the given packet size.
    pub fn new(max_packet_len: u32) -> (r: HIDIOEndpoint)
        ensures
            r.max_packet_len == max_packet_len,
    {
        HIDIOEndpoint { max_packet_len }
    }

    /// A blank buffer for this transport's packet size.
    pub fn create_buffer(&self) -> (r: HIDIOPacketBuffer)
        ensures
            r@ == (PacketState { max_len: self.max_packet_len, ..empty_state() }),
    {
        let mut buffer = HIDIOPacketBuffer::new();
        buffer.max_len = self.max_packet_len;
        buffer
    }

    /// Decodes a chunk read from the transport into the buffer (an empty read changes
    /// nothing). Returns the number of bytes read, or the decoding error.
    pub fn recv_chunk(&self, buffer: &mut HIDIOPacketBuffer, chunk: &mut Vec<u8>) -> (r: Result<usize, crate::protocol::hidio::HIDIOParseError>)
        requires
            old(chunk).len() <= u32::MAX,
        ensures
            final(chunk)@ == old(chunk)@,
            old(chunk).len() == 0 ==> r == Ok::<usize, crate::protocol::hidio::HIDIOParseError>(0usize) && final(buffer)@ == old(buffer)@,
            old(chunk).len() > 0 ==> final(buffer)@ == spec_decode(old(buffer)@, old(chunk)@).0 && match spec_decode(old(buffer)@, old(chunk)@).1 {
                Ok(_) => r == Ok::<usize, crate::protocol::hidio::HIDIOParseError>(old(chunk).len()),
                Err(e) => r == Err::<usize, crate::protocol::hidio::HIDIOParseError>(e),
            },
    {
        let len = chunk.len();
        if len > 0 {
            match buffer.decode_packet(chunk) {
                Ok(_) => Ok(len),
                Err(e) => Err(e),
            }
        } else {
            Ok(0)
        }
    }

    /// Decides the next step of the receive loop after `len` bytes were decoded into
    /// `buffer`: a Sync restarts the buffer, an ACK is not acknowledged, a NAK stops
    /// the loop, Data and Continued packets are acknowledged.
    pub fn recv_packet_step(&self, buffer: &mut HIDIOPacketBuffer, len: usize) -> (r: RecvAction)
        ensures
            len == 0 ==> r == RecvAction::Continue && final(buffer)@ == old(buffer)@,
            len > 0 ==> match old(buffer).ptype {
                HIDIOPacketType::Sync => r == RecvAction::Continue && final(buffer)@ == (PacketState {
                    max_len: self.max_packet_len,
                    ..empty_state()
                }),
                HIDIOPacketType::ACK => r == RecvAction::Continue && final(buffer)@ == old(buffer)@,
                HIDIOPacketType::NAK => r == RecvAction::Stop && final(buffer)@ == old(buffer)@,
                _ => r == RecvAction::Ack && final(buffer)@ == old(buffer)@,
            },
    {
        if len == 0 {
            return RecvAction::Continue;
        }
        match buffer.ptype {
            HIDIOPacketType::Sync => {
                *buffer = self.create_buffer();
                RecvAction::Continue
            },
            HIDIOPacketType::ACK => RecvAction::Continue,
            HIDIOPacketType::NAK => RecvAction::Stop,
            _ => RecvAction::Ack,
        }
    }

    /// The writes that send a packet: its wire form split into pieces of at most
    /// `max_packet_len` bytes.
    pub fn send_packet(&self, packet: HIDIOPacketBuffer) -> (r: Vec<Vec<u8>>)
        requires
            serializable(packet@),
            self.max_packet_len > 0,
        ensures
            chunk_views(r@) == spec_chunks(spec_serialize(packet@), self.max_packet_len as nat),
    {
        let mut packet = packet;
        let buf = match packet.serialize_buffer() {
            Ok(b) => b,
            Err(_) => Vec::new(),
        };
        split_chunks(&buf, self.max_packet_len as usize)
    }

    /// The writes that send a Sync packet.
    pub fn send_sync(&self) -> (r: Vec<Vec<u8>>)
        requires
            self.max_packet_len > 0,
        ensures
            chunk_views(r@) == spec_chunks(spec_serialize(sync_state()), self.max_packet_len as nat),
    {
        let p = HIDIOPacketBuffer {
            ptype: HIDIOPacketType::Sync,
            id: 0,
            max_len: 64,
            data: Vec::new(),
            done: true,
        };
        proof {
            lemma_default_buffer_serializable(p@);
        }
        assert(p@ == sync_state());
        self.send_packet(p)
    }

    /// The writes that acknowledge a packet (the acknowledgement carries id 0).
    pub fn send_ack(&self, _id: u32, data: Vec<u8>) -> (r: Vec<Vec<u8>>)
        requires
            self.max_packet_len > 0,
            data.len() + 4 <= u32::MAX,
        ensures
            chunk_views(r@) == spec_chunks(spec_serialize(ack_state(data@)), self.max_packet_len as nat),
    {
        let p = HIDIOPacketBuffer { ptype: HIDIOPacketType::ACK, id: 0, max_len: 64, data, done: true };
        proof {
            lemma_default_buffer_serializable(p@);
        }
        self.send_packet(p)
    }
}


/// A blank buffer for a transport of the given packet size.
pub open spec fn blank_state(max_len: u32) -> PacketState {
    PacketState { max_len: max_len, ..empty_state() }
}

/// Buffer state after `recv` bytes were decoded into `st`: a Sync or a NAK restarts it.
pub open spec fn after_recv_state(st: PacketState, recv: usize, max_len: u32) -> PacketState {
    if recv > 0 && (st.ptype == HIDIOPacketType::Sync || st.ptype == HIDIOPacketType::NAK) {
        blank_state(max_len)
    } else {
        st
    }
}

/// Exec check of `serializable`, for callers that must refuse a packet first.
pub fn is_serializable(p: &HIDIOPacketBuffer) -> (r: bool)
    ensures
        r == serializable(p@),
{
    let idl: u64 = if p.id <= 0xFFFF { 2 } else { 4 };
    if !p.done || (p.max_len as u64) < idl + 3 {
        return false;
    }
    let room: u64 = p.max_len as u64 - (2 + idl);
    let d: u64 = p.data.len() as u64;
    if d > u32::MAX as u64 - 2 - idl {
        return false;
    }
    let first: u64 = if d > room { room } else { d };
    if first % 65536 + idl > 65535 {
        return false;
    }
    if p.ptype == HIDIOPacketType::Sync || d <= room {
        return true;
    }
    let mut off: u64 = room;
    while off < d
        invariant
            0 < room,
            room == payload_room(p@),
            d == p.data@.len(),
            idl == id_len_of(p.id),
            d + 2 + idl <= u32::MAX,
            p.done,
            p.ptype != HIDIOPacketType::Sync,
            d > room,
            room % 65536 + idl <= 65535,
            continued_lengths_fit(d as nat, room as nat, room as nat, idl as nat) == continued_lengths_fit(
                d as nat,
                room as nat,
                off as nat,
                idl as nat,
            ),
        decreases d - off,
    {
        let rem = d - off;
        if rem > room {
            if room % 65536 + idl > 65535 {
                return false;
            }
        } else {
            return rem % 65536 + idl <= 65535;
        }
        off = off + room;
    }
    true
}

/// A R/W channel for a single endpoint: keeps the buffer being received and decides
/// what to acknowledge, forward and send.
pub struct HIDIOController {
    pub id: String,
    pub device: HIDIOEndpoint,
    pub received: HIDIOPacketBuffer,
}

impl HIDIOController {
    /// Creates a controller with a blank receive buffer.
    pub fn new(id: String, device: HIDIOEndpoint) -> (r: HIDIOController)
        ensures
            r.id@ == id@,
            r.device.max_packet_len == device.max_packet_len,
            r.received@ == blank_state(device.max_packet_len),
    {
        let received = device.create_buffer();
        HIDIOController { id, device, received }
    }

    /// Handles the buffer after `recv` bytes were decoded into it.
    ///
    /// A Sync or NAK restarts the buffer. A non-empty read of an unfinished buffer is
    /// acknowledged (first result). A finished buffer is handed out for forwarding
    /// (second result) and replaced by a blank one.
    pub fn after_recv(&mut self, recv: usize) -> (r: (bool, Option<HIDIOPacketBuffer>))
        ensures
            final(self).id == old(self).id,
            final(self).device.max_packet_len == old(self).device.max_packet_len,
            ({
                let st = after_recv_state(old(self).received@, recv, old(self).device.max_packet_len);
                &&& r.0 == (recv > 0 && !st.done)
                &&& st.done ==> (r.1 matches Some(m) && m@ == st)
                &&& st.done ==> final(self).received@ == blank_state(old(self).device.max_packet_len)
                &&& !st.done ==> r.1 is None && final(self).received@ == st
            }),
    {
        if recv > 0 {
            match self.received.ptype {
                HIDIOPacketType::Sync => {
                    self.received = self.device.create_buffer();
                },
                HIDIOPacketType::NAK => {
                    self.received = self.device.create_buffer();
                },
                _ => {},
            }
        }
        let ack = recv > 0 && !self.received.done;
        if self.received.done {
            let mut done = self.device.create_buffer();
            std::mem::swap(&mut done, &mut self.received);
            (ack, Some(done))
        } else {
            (ack, None)
        }
    }

    /// No traffic for too long: restarts the receive buffer and returns the writes of
    /// a Sync packet.
    pub fn sync_timeout(&mut self) -> (r: Vec<Vec<u8>>)
        requires
            old(self).device.max_packet_len > 0,
        ensures
            final(self).id == old(self).id,
            final(self).device.max_packet_len == old(self).device.max_packet_len,
            final(self).received@ == blank_state(old(self).device.max_packet_len),
            chunk_views(r@) == spec_chunks(spec_serialize(sync_state()), old(self).device.max_packet_len as nat),
    {
        let w = self.device.send_sync();
        self.received = self.device.create_buffer();
        w
    }

    /// Returns the writes that send a queued response with this transport's packet
    /// size; sending a Sync also restarts the receive buffer.
    pub fn send_response(&mut self, p: HIDIOPacketBuffer) -> (r: Vec<Vec<u8>>)
        requires
            old(self).device.max_packet_len > 0,
            serializable(PacketState { max_len: old(self).device.max_packet_len, ..p@ }),
        ensures
            final(self).id == old(self).id,
            final(self).device.max_packet_len == old(self).device.max_packet_len,
            chunk_views(r@) == spec_chunks(
                spec_serialize(PacketState { max_len: old(self).device.max_packet_len, ..p@ }),
                old(self).device.max_packet_len as nat,
            ),
            p.ptype == HIDIOPacketType::Sync ==> final(self).received@ == blank_state(old(self).device.max_packet_len),
            p.ptype != HIDIOPacketType::Sync ==> final(self).received@ == old(self).received@,
    {
        let mut p = p;
        p.max_len = self.device.max_packet_len;
        let is_sync = p.ptype == HIDIOPacketType::Sync;
        let w = self.device.send_packet(p);
        if is_sync {
            self.received = self.device.create_buffer();
        }
        w
    }
}

/// A single message and its recipient or source device
#[derive(Debug, Clone)]
pub struct HIDIOMessage {
    pub device: String,
    pub message: HIDIOPacketBuffer,
}

/// The mailbox's helpers: the messages that send packets to a device (the channel that
/// carries them is held by the caller)
pub struct HIDIOMailbox {
    pub nodes: Vec<Endpoint>,
}

impl HIDIOMailbox {
    /// A mailbox that sees the given connected nodes.
    pub fn new(nodes: Vec<Endpoint>) -> (r: HIDIOMailbox)
        ensures
            r.nodes@ == nodes@,
    {
        HIDIOMailbox { nodes }
    }

    /// The message that sends a packet to a device.
    pub fn send_packet(&self, device: String, packet: HIDIOPacketBuffer) -> (r: HIDIOMessage)
        ensures
            r.device@ == device@,
            r.message@ == packet@,
    {
        HIDIOMessage { device, message: packet }
    }

    /// The message that sends a Sync packet to a device.
    pub fn send_sync(&self, device: String) -> (r: HIDIOMessage)
        ensures
            r.device@ == device@,
            r.message@ == sync_state(),
    {
        self.send_packet(
            device,
            HIDIOPacketBuffer { ptype: HIDIOPacketType::Sync, id: 0, max_len: 64, data: Vec::new(), done: true },
        )
    }

    /// The message that acknowledges a packet of a device (the acknowledgement carries id 0).
    pub fn send_ack(&self, device: String, _id: u32, data: Vec<u8>) -> (r: HIDIOMessage)
        ensures
            r.device@ == device@,
            r.message@ == ack_state(data@),
    {
        self.send_packet(device, HIDIOPacketBuffer { ptype: HIDIOPacketType::ACK, id: 0, max_len: 64, data, done: true })
    }

    /// The message that rejects a packet of a device, with the rejected id.
    pub fn send_nack(&self, device: String, id: u32, data: Vec<u8>) -> (r: HIDIOMessage)
        ensures
            r.device@ == device@,
            r.message@ == (PacketState { ptype: HIDIOPacketType::NAK, id: id, max_len: 64, data: data@, done: true }),
    {
        self.send_packet(device, HIDIOPacketBuffer { ptype: HIDIOPacketType::NAK, id, max_len: 64, data, done: true })
    }

    /// The message that sends a command to a device.
    pub fn send_command(&self, device: String, id: u32, data: Vec<u8>) -> (r: HIDIOMessage)
        ensures
            r.device@ == device@,
            r.message@ == (PacketState { ptype: HIDIOPacketType::Data, id: id, max_len: 64, data: data@, done: true }),
    {
        self.send_packet(device, HIDIOPacketBuffer { ptype: HIDIOPacketType::Data, id, max_len: 64, data, done: true })
    }
}

/// Whether two strings are equal.
fn str_equal(a: &str, b: &str) -> (r: bool)
    ensures
        r == (a@ == b@),
{
    let x = a.to_owned();
    let y = b.to_owned();
    x == y
}

/// The ids of the registered device queues, in order.
pub open spec fn queue_ids<Q>(devices: Seq<(String, Q)>) -> Seq<Seq<char>> {
    devices.map_values(|d: (String, Q)| d.0@)
}

/// Position of the queue registered under `id`, if any.
pub open spec fn queue_position<Q>(devices: Seq<(String, Q)>, id: Seq<char>) -> Option<int> {
    if exists|k: int| 0 <= k < devices.len() && devices[k].0@ == id {
        Some(choose|k: int| 0 <= k < devices.len() && devices[k].0@ == id)
    } else {
        None
    }
}

/// Whether a connected node is listed under the given device id (its uid in decimal).
pub open spec fn listed_as(e: Endpoint, id: Seq<char>) -> bool {
    dec_digits(e@.uid as nat) == id
}

/// The message passer's registry: device queues by id (at most one per id), the nodes
/// that were connected and the listeners that get a copy of every device message (the
/// queues and listeners are the caller's channel ends)
pub struct HIDIOMailer<Q, L> {
    pub devices: Vec<(String, Q)>,
    pub connected: Vec<Endpoint>,
    pub outgoing: Vec<L>,
}

impl<Q, L> HIDIOMailer<Q, L> {
    /// No device is registered twice under one id.
    pub open spec fn wf(&self) -> bool {
        queue_ids(self.devices@).no_duplicates()
    }

    /// No devices, no listeners.
    pub fn new() -> (r: HIDIOMailer<Q, L>)
        ensures
            r.wf(),
            r.devices@.len() == 0,
            r.connected@.len() == 0,
            r.outgoing@.len() == 0,
    {
        let r = HIDIOMailer { devices: Vec::new(), connected: Vec::new(), outgoing: Vec::new() };
        assert(queue_ids(r.devices@) =~= Seq::<Seq<char>>::empty());
        r
    }

    /// Position of the queue registered under `id`.
    pub fn queue_index(&self, id: &str) -> (r: Option<usize>)
        requires
            self.wf(),
        ensures
            r matches Some(k) ==> k < self.devices@.len() && self.devices@[k as int].0@ == id@,
            r is None <==> queue_position(self.devices@, id@) is None,
            r matches Some(k) ==> queue_position(self.devices@, id@) == Some(k as int),
    {
        let mut k: usize = 0;
        while k < self.devices.len()
            invariant
                self.wf(),
                k <= self.devices@.len(),
                forall|j: int| 0 <= j < k ==> self.devices@[j].0@ != id@,
            decreases self.devices@.len() - k,
        {
            if str_equal(self.devices[k].0.as_str(), id) {
                proof {
                    let ids = queue_ids(self.devices@);
                    assert(self.devices@[k as int].0@ == id@);
                    let w = choose|j: int| 0 <= j < self.devices@.len() && self.devices@[j].0@ == id@;
                    assert(ids[w] == self.devices@[w].0@);
                    assert(ids[k as int] == self.devices@[k as int].0@);
                    assert(w == k as int);
                }
                return Some(k);
            }
            k = k + 1;
        }
        None
    }

    /// Where an incoming message for device `id` goes: the position of that device's
    /// queue; a message for an unknown device is refused.
    pub fn route(&self, id: &str) -> (r: Result<usize, RouteError>)
        requires
            self.wf(),
        ensures
            match queue_position(self.devices@, id@) {
                Some(k) => r == Ok::<usize, RouteError>(k as usize) && self.devices@[k].0@ == id@,
                None => r == Err::<usize, RouteError>(RouteError::UnknownDevice),
            },
    {
        match self.queue_index(id) {
            Some(k) => Ok(k),
            None => Err(RouteError::UnknownDevice),
        }
    }

    /// The messages that pass on packets received from the queue at position `k`: each
    /// packet, in order, under that queue's device id.
    pub fn label_packets(&self, k: usize, packets: Vec<HIDIOPacketBuffer>) -> (r: Vec<HIDIOMessage>)
        requires
            k < self.devices@.len(),
        ensures
            r@.len() == packets@.len(),
            forall|i: int| 0 <= i < r@.len() ==> (#[trigger] r@[i]).device@ == self.devices@[k as int].0@
                && r@[i].message == packets@[i],
    {
        let ghost all = packets@;
        let mut rest = packets;
        let mut out: Vec<HIDIOMessage> = Vec::new();
        let mut i: usize = 0;
        let total = rest.len();
        assert(all.skip(0) =~= all);
        while rest.len() > 0
            invariant
                k < self.devices@.len(),
                all.len() == total,
                i + rest@.len() == all.len(),
                rest@ == all.skip(i as int),
                out@.len() == i,
                forall|j: int| 0 <= j < i ==> (#[trigger] out@[j]).device@ == self.devices@[k as int].0@
                    && out@[j].message == all[j],
            decreases rest@.len(),
        {
            let p = rest.remove(0);
            assert(p == all[i as int]);
            assert(rest@ =~= all.skip(i + 1));
            let device = self.devices[k].0.clone();
            out.push(HIDIOMessage { device, message: p });
            i = i + 1;
        }
        out
    }

    /// Registers a device queue under `id` (replacing a queue already under it) and lists
    /// its node as connected.
    pub fn register_device(&mut self, id: String, device: Q, info: Endpoint)
        requires
            old(self).wf(),
        ensures
            final(self).wf(),
            final(self).connected@ == old(self).connected@.push(info),
            final(self).outgoing@ == old(self).outgoing@,
            match queue_position(old(self).devices@, id@) {
                Some(k) => final(self).devices@ == old(self).devices@.update(k, (id, device)),
                None => final(self).devices@ == old(self).devices@.push((id, device)),
            },
    {
        self.connected.push(info);
        let ghost ids0 = queue_ids(self.devices@);
        match self.queue_index(id.as_str()) {
            Some(k) => {
                self.devices.set(k, (id, device));
                assert(queue_ids(self.devices@) =~= ids0);
            },
            None => {
                self.devices.push((id, device));
                assert(queue_ids(self.devices@) =~= ids0.push(id@));
                assert forall|j: int| 0 <= j < ids0.len() implies ids0[j] != id@ by {
                    assert(self.devices@[j].0@ == ids0[j]);
                }
            },
        }
    }

    /// Forgets the queue registered under `id` (its node stays listed).
    pub fn remove_queue(&mut self, id: &str)
        requires
            old(self).wf(),
        ensures
            final(self).wf(),
            final(self).connected@ == old(self).connected@,
            final(self).outgoing@ == old(self).outgoing@,
            match queue_position(old(self).devices@, id@) {
                Some(k) => final(self).devices@ == old(self).devices@.remove(k),
                None => final(self).devices@ == old(self).devices@,
            },
    {
        let ghost ids0 = queue_ids(self.devices@);
        match self.queue_index(id) {
            Some(k) => {
                self.devices.remove(k);
                assert(queue_ids(self.devices@) =~= ids0.remove(k as int));
                assert forall|a: int, b: int| 0 <= a < ids0.len() - 1 && 0 <= b < ids0.len() - 1 && a != b implies
                    queue_ids(self.devices@)[a] != queue_ids(self.devices@)[b] by {
                    let a2 = if a < k { a } else { a + 1 };
                    let b2 = if b < k { b } else { b + 1 };
                    assert(queue_ids(self.devices@)[a] == ids0[a2]);
                    assert(queue_ids(self.devices@)[b] == ids0[b2]);
                }
            },
            None => {},
        }
    }

    /// Unregisters a device: its queue is forgotten and the nodes listed under its id are
    /// no longer connected (the others keep their order).
    pub fn unregister_device(&mut self, id: &str)
        requires
            old(self).wf(),
        ensures
            final(self).wf(),
            final(self).connected@ == old(self).connected@.filter(|e: Endpoint| !listed_as(e, id@)),
            final(self).outgoing@ == old(self).outgoing@,
            match queue_position(old(self).devices@, id@) {
                Some(k) => final(self).devices@ == old(self).devices@.remove(k),
                None => final(self).devices@ == old(self).devices@,
            },
    {
        let ghost old_nodes = self.connected@;
        let ghost pred = |e: Endpoint| !listed_as(e, id@);
        let mut kept: Vec<Endpoint> = Vec::new();
        let mut rest: Vec<Endpoint> = Vec::new();
        std::mem::swap(&mut rest, &mut self.connected);
        let total_len = rest.len();
        assert(old_nodes.len() == total_len);
        let mut i: usize = 0;
        assert(old_nodes.take(0).filter(pred) =~= Seq::<Endpoint>::empty());
        assert(old_nodes.skip(0) =~= old_nodes);
        while rest.len() > 0
            invariant
                i + rest@.len() == old_nodes.len(),
                old_nodes.len() <= usize::MAX,
                rest@ == old_nodes.skip(i as int),
                kept@ == old_nodes.take(i as int).filter(pred),
                pred == (|e: Endpoint| !listed_as(e, id@)),
                self.devices@ == old(self).devices@,
                self.outgoing@ == old(self).outgoing@,
                self.wf(),
            decreases rest@.len(),
        {
            let n = rest.remove(0);
            assert(n == old_nodes[i as int]);
            assert(rest@ =~= old_nodes.skip(i + 1));
            assert(old_nodes.take(i + 1).drop_last() =~= old_nodes.take(i as int));
            assert(old_nodes.take(i + 1).last() == n);
            proof {
                reveal_with_fuel(Seq::<Endpoint>::filter, 1);
            }
            let mut name = String::new();
            push_dec(&mut name, n.uid_value());
            let listed = str_equal(name.as_str(), id);
            assert(listed == listed_as(n, id@));
            if !listed {
                kept.push(n);
            }
            i = i + 1;
        }
        assert(old_nodes.take(old_nodes.len() as int) =~= old_nodes);
        self.connected = kept;
        self.remove_queue(id);
    }

    /// The connected nodes.
    pub fn devices(&self) -> (r: &Vec<Endpoint>)
        ensures
            r@ == self.connected@,
    {
        &self.connected
    }

    /// Adds a listener that gets a copy of every device message.
    pub fn register_listener(&mut self, sink: L)
        ensures
            final(self).devices@ == old(self).devices@,
            final(self).connected@ == old(self).connected@,
            final(self).outgoing@ == old(self).outgoing@.push(sink),
    {
        self.outgoing.push(sink);
    }
}


/// Why an incoming message cannot be routed
#[derive(Debug, Clone, Copy, PartialEq, Eq, Structural)]
pub enum RouteError {
    /// No queue is registered under the message's device id
    UnknownDevice,
}

/// Seconds between device scans while devices are connected
pub const RESCAN_SECS: u64 = 60;

/// What the device loop does next
#[derive(Debug, Clone, Copy, PartialEq, Eq, Structural)]
pub enum PollStep {
    /// Scan for devices again
    Rescan,
    /// Poll the connected devices
    Poll,
}

/// The device loop's next step: rescan when no device is connected or the last scan is
/// a minute old, poll otherwise.
pub fn poll_step(devices: usize, secs_since_scan: u64) -> (r: PollStep)
    ensures
        r == (if devices == 0 || secs_since_scan >= RESCAN_SECS {
            PollStep::Rescan
        } else {
            PollStep::Poll
        }),
{
    if devices == 0 || secs_since_scan >= RESCAN_SECS {
        PollStep::Rescan
    } else {
        PollStep::Poll
    }
}

/// Whether scanning stops after a scan pass: once some device is connected.
pub fn scan_finished(devices: usize) -> (r: bool)
    ensures
        r == (devices > 0),
{
    devices > 0
}

/// The devices of the first `n` whose poll succeeded (`ok`) or failed (`!ok`), in order.
pub open spec fn with_status<T>(devices: Seq<T>, polled: Seq<bool>, ok: bool, n: int) -> Seq<T>
    decreases n,
{
    if n <= 0 {
        Seq::empty()
    } else if polled[n - 1] == ok {
        with_status(devices, polled, ok, n - 1).push(devices[n - 1])
    } else {
        with_status(devices, polled, ok, n - 1)
    }
}

/// Splits polled devices by the outcome of their poll: the ones to keep polling (in
/// order) and the disconnected ones, which are to be unregistered.
pub fn split_polled<T>(devices: Vec<T>, polled: &Vec<bool>) -> (r: (Vec<T>, Vec<T>))
    requires
        devices@.len() == polled@.len(),
    ensures
        r.0@ == with_status(devices@, polled@, true, devices@.len() as int),
        r.1@ == with_status(devices@, polled@, false, devices@.len() as int),
{
    let ghost all = devices@;
    let mut rest = devices;
    let mut kept: Vec<T> = Vec::new();
    let mut dropped: Vec<T> = Vec::new();
    let mut i: usize = 0;
    let total = rest.len();
    assert(all.skip(0) =~= all);
    while rest.len() > 0
        invariant
            i + rest@.len() == all.len(),
            all.len() == polled@.len(),
            all.len() == total,
            rest@ == all.skip(i as int),
            kept@ == with_status(all, polled@, true, i as int),
            dropped@ == with_status(all, polled@, false, i as int),
        decreases rest@.len(),
    {
        let d = rest.remove(0);
        assert(d == all[i as int]);
        assert(rest@ =~= all.skip(i + 1));
        if polled[i] {
            kept.push(d);
        } else {
            dropped.push(d);
        }
        i = i + 1;
    }
    (kept, dropped)
}

} // verus!
