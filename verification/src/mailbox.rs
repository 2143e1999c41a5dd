use vstd::prelude::*;
use crate::api::Endpoint;
use crate::protocol::hidio::{HIDIOPacketBuffer, HIDIOPacketType, PacketState};

verus! {

/// Source or destination of a message inside the daemon
#[derive(PartialEq, Eq, Structural, Clone, Copy, Debug)]
pub enum Address {
    /// All/any addressed (a broadcast destination, never a source)
    All,
    /// Capnproto API address, with node uid
    ApiCapnp { uid: u64 },
    /// Cancel all subscriptions
    CancelAllSubscriptions,
    /// Cancel one subscription (ends its message stream)
    CancelSubscription { uid: u64, sid: u64 },
    /// HidIo address, with node uid
    DeviceHidio { uid: u64 },
    /// Generic HID address, with node uid
    DeviceHid { uid: u64 },
    /// Drop subscription
    DropSubscription,
    /// Module address
    Module,
}

/// A packet buffer with its source and destination
#[derive(PartialEq, Clone, Debug)]
pub struct Message {
    pub src: Address,
    pub dst: Address,
    pub data: HIDIOPacketBuffer,
}

/// Why waiting for an acknowledgement failed
#[derive(Debug)]
pub enum AckWaitError {
    TooManySyncs,
    NAKReceived { msg: Message },
    Invalid,
    NoActiveReceivers,
    Timeout,
    ChannelClosed,
}

/// A finished single-message buffer of the given type, id and payload
/// (maximum packet length 64, the USB full speed packet size).
pub open spec fn reply_state(t: HIDIOPacketType, id: u32, data: Seq<u8>) -> PacketState {
    PacketState { ptype: t, id: id, max_len: 64, data: data, done: true }
}

impl Message {
    /// Creates a message.
    pub fn new(src: Address, dst: Address, data: HIDIOPacketBuffer) -> (r: Message)
        ensures
            r.src == src,
            r.dst == dst,
            r.data@ == data@,
    {
        Message { src, dst, data }
    }

    /// The acknowledgement to send for this message: addressed back to its source, with
    /// the same id and the given payload (the caller broadcasts it).
    pub fn send_ack(&self, data: Vec<u8>) -> (r: Message)
        ensures
            r.src == self.dst,
            r.dst == self.src,
            r.data@ == reply_state(HIDIOPacketType::ACK, self.data.id, data@),
    {
        Message {
            src: self.dst,
            dst: self.src,
            data: HIDIOPacketBuffer {
                ptype: HIDIOPacketType::ACK,
                id: self.data.id,
                max_len: 64,
                data,
                done: true,
            },
        }
    }

    /// The rejection to send for this message: addressed back to its source, with the
    /// same id and the given payload (the caller broadcasts it).
    pub fn send_nak(&self, data: Vec<u8>) -> (r: Message)
        ensures
            r.src == self.dst,
            r.dst == self.src,
            r.data@ == reply_state(HIDIOPacketType::NAK, self.data.id, data@),
    {
        Message {
            src: self.dst,
            dst: self.src,
            data: HIDIOPacketBuffer {
                ptype: HIDIOPacketType::NAK,
                id: self.data.id,
                max_len: 64,
                data,
                done: true,
            },
        }
    }
}

/// The command message that `send_command` broadcasts: a finished Data buffer.
pub fn command_message(src: Address, dst: Address, id: u32, data: Vec<u8>) -> (r: Message)
    ensures
        r.src == src,
        r.dst == dst,
        r.data@ == reply_state(HIDIOPacketType::Data, id, data@),
{
    Message {
        src,
        dst,
        data: HIDIOPacketBuffer { ptype: HIDIOPacketType::Data, id, max_len: 64, data, done: true },
    }
}

/// Outcome of inspecting one received message while waiting for the answer to a
/// command sent from `src` to `dst` with the given id.
pub open spec fn spec_ack_wait_step(src: Address, dst: Address, id: u32, msg: Message) -> Option<
    bool,
> {
    if msg.dst == src && msg.src == dst && msg.data.id == id {
        match msg.data.ptype {
            HIDIOPacketType::ACK => Some(true),
            HIDIOPacketType::NAK => Some(false),
            _ => None,
        }
    } else {
        None
    }
}

/// Inspects one message received while waiting for the answer to a command.
///
/// Only a message coming back (source and destination swapped) with the same id
/// answers: an ACK ends the wait with the message, a NAK ends it with
/// `NAKReceived`; anything else keeps waiting (`None`).
pub fn ack_wait_step(src: Address, dst: Address, id: u32, msg: Message) -> (r: Option<
    Result<Option<Message>, AckWaitError>,
>)
    ensures
        spec_ack_wait_step(src, dst, id, msg) == Some(true) ==> (r matches Some(Ok(Some(m))) && m == msg),
        spec_ack_wait_step(src, dst, id, msg) == Some(false) ==> (r matches Some(Err(
            AckWaitError::NAKReceived { msg: m },
        )) && m == msg),
        spec_ack_wait_step(src, dst, id, msg) is None ==> r is None,
{
    if msg.dst == src && msg.src == dst && msg.data.id == id {
        match msg.data.ptype {
            HIDIOPacketType::ACK => Some(Ok(Some(msg))),
            HIDIOPacketType::NAK => Some(Err(AckWaitError::NAKReceived { msg })),
            _ => None,
        }
    } else {
        None
    }
}

/// What the blocking wait for an answer sees next
#[derive(Debug)]
pub enum WaitEvent {
    /// A message was received
    Received(Message),
    /// Nothing is queued yet
    Empty,
    /// Messages were skipped because the receiver lagged behind
    Lagged,
    /// The channel is closed
    Closed,
    /// The acknowledgement timeout has passed
    TimedOut,
}

/// One step of the blocking wait for the answer to a command sent from `src` to `dst`
/// with the given id: a received message is inspected as [`ack_wait_step`] does, an
/// empty or lagging channel keeps waiting, a closed channel and the timeout end the wait
/// with their errors.
pub fn try_wait_step(src: Address, dst: Address, id: u32, ev: WaitEvent) -> (r: Option<
    Result<Option<Message>, AckWaitError>,
>)
    ensures
        ev matches WaitEvent::Received(msg) ==> {
            &&& spec_ack_wait_step(src, dst, id, msg) == Some(true) ==> (r matches Some(Ok(Some(m))) && m == msg)
            &&& spec_ack_wait_step(src, dst, id, msg) == Some(false) ==> (r matches Some(Err(
                AckWaitError::NAKReceived { msg: m },
            )) && m == msg)
            &&& spec_ack_wait_step(src, dst, id, msg) is None ==> r is None
        },
        ev is Empty || ev is Lagged ==> r is None,
        ev is Closed ==> r matches Some(Err(AckWaitError::ChannelClosed)),
        ev is TimedOut ==> r matches Some(Err(AckWaitError::Timeout)),
{
    match ev {
        WaitEvent::Received(msg) => ack_wait_step(src, dst, id, msg),
        WaitEvent::Empty => None,
        WaitEvent::Lagged => None,
        WaitEvent::Closed => Some(Err(AckWaitError::ChannelClosed)),
        WaitEvent::TimedOut => Some(Err(AckWaitError::Timeout)),
    }
}

/// Outcome of one message of the asynchronous wait for the answer to a command: only a
/// message coming back (source and destination swapped) with the command's id answers.
pub open spec fn spec_stream_wait_step(src: Address, dst: Address, id: u32, msg: Message) -> Option<bool> {
    if msg.dst == src && msg.src == dst && msg.data.id == id {
        match msg.data.ptype {
            HIDIOPacketType::ACK => Some(true),
            HIDIOPacketType::NAK => Some(false),
            _ => None,
        }
    } else {
        None
    }
}

/// One step of the asynchronous wait for the answer to a command: the next message of
/// the stream (`None` when the stream ended), or the timeout. An ACK coming back from the
/// command's destination to its source with the command's id ends the wait with the
/// message, such a NAK with `NAKReceived`; an ended stream is `Invalid`, the timeout
/// `Timeout`; anything else keeps waiting.
pub fn stream_wait_step(src: Address, dst: Address, id: u32, next: Option<Message>, timed_out: bool) -> (r: Option<
    Result<Option<Message>, AckWaitError>,
>)
    ensures
        timed_out ==> r matches Some(Err(AckWaitError::Timeout)),
        !timed_out && next is None ==> r matches Some(Err(AckWaitError::Invalid)),
        !timed_out ==> (next matches Some(msg) ==> {
            &&& spec_stream_wait_step(src, dst, id, msg) == Some(true) ==> (r matches Some(Ok(Some(m))) && m == msg)
            &&& spec_stream_wait_step(src, dst, id, msg) == Some(false) ==> (r matches Some(Err(
                AckWaitError::NAKReceived { msg: m },
            )) && m == msg)
            &&& spec_stream_wait_step(src, dst, id, msg) is None ==> r is None
        }),
{
    if timed_out {
        return Some(Err(AckWaitError::Timeout));
    }
    match next {
        None => Some(Err(AckWaitError::Invalid)),
        Some(msg) => {
            if msg.dst == src && msg.src == dst && msg.data.id == id {
                match msg.data.ptype {
                    HIDIOPacketType::ACK => Some(Ok(Some(msg))),
                    HIDIOPacketType::NAK => Some(Err(AckWaitError::NAKReceived { msg })),
                    _ => None,
                }
            } else {
                None
            }
        },
    }
}

/// A message answers the wait for a command only if it comes back: its source is the
/// command's destination, its destination the command's source, and its id the
/// command's id; such an ACK ends the wait with success, such a NAK with a rejection.
pub proof fn lemma_only_the_reply_answers(src: Address, dst: Address, id: u32, msg: Message)
    ensures
        spec_ack_wait_step(src, dst, id, msg) is Some ==> msg.src == dst && msg.dst == src && msg.data.id == id,
        spec_stream_wait_step(src, dst, id, msg) is Some ==> msg.src == dst && msg.dst == src && msg.data.id == id,
        msg.src == dst && msg.dst == src && msg.data.id == id && msg.data.ptype == HIDIOPacketType::ACK
            ==> spec_ack_wait_step(src, dst, id, msg) == Some(true) && spec_stream_wait_step(src, dst, id, msg) == Some(true),
        msg.src == dst && msg.dst == src && msg.data.id == id && msg.data.ptype == HIDIOPacketType::NAK
            ==> spec_ack_wait_step(src, dst, id, msg) == Some(false) && spec_stream_wait_step(src, dst, id, msg) == Some(false),
{
}

/// Why a uid could not be assigned
#[derive(PartialEq, Eq, Structural, Clone, Copy, Debug)]
pub enum UidError {
    /// The device (same key and path) already has a registered uid
    AlreadyRegistered,
}

/// Result of assigning a uid: a reusable uid of the key if there is one, a refusal
/// when the device is already registered, a new uid (one past the last) otherwise.
pub open spec fn spec_assign(nodes: Seq<Endpoint>, cands: Seq<u64>, path: Seq<char>, last_uid: u64) -> Result<
    u64,
    UidError,
> {
    match reusable_uid(nodes, cands, path) {
        Some(u) => if u == 0 {
            Err(UidError::AlreadyRegistered)
        } else {
            Ok(u)
        },
        None => Ok((last_uid + 1) as u64),
    }
}

/// Registry of nodes and of the uids handed out per device key.
///
/// A device key keeps the uids it was given, so that a device that comes back
/// gets its old uid again when that uid is free.
#[derive(Debug, Clone)]
pub struct Mailbox {
    /// Registered nodes (devices and api connections)
    pub nodes: Vec<Endpoint>,
    /// Last uid created
    pub last_uid: u64,
    /// Uids handed out, per device key (first entry of a key is the one used)
    pub lookup: Vec<(String, Vec<u64>)>,
}

/// Uids recorded for a key (empty when the key has none).
pub open spec fn uids_of(lookup: Seq<(String, Vec<u64>)>, key: Seq<char>) -> Seq<u64>
    decreases lookup.len(),
{
    if lookup.len() == 0 {
        Seq::empty()
    } else if lookup[0].0@ == key {
        lookup[0].1@
    } else {
        uids_of(lookup.drop_first(), key)
    }
}

/// Index of the first node with the given uid.
pub open spec fn first_node_with_uid(nodes: Seq<Endpoint>, uid: u64) -> Option<int>
    decreases nodes.len(),
{
    if nodes.len() == 0 {
        None
    } else if nodes[0]@.uid == uid {
        Some(0)
    } else {
        match first_node_with_uid(nodes.drop_first(), uid) {
            Some(i) => Some(i + 1),
            None => None,
        }
    }
}

/// Whether some node has the given uid.
pub open spec fn uid_in_use(nodes: Seq<Endpoint>, uid: u64) -> bool {
    exists|i: int| 0 <= i < nodes.len() && nodes[i]@.uid == uid
}

/// Result of looking for a reusable uid among the candidates `cands`, in order:
/// the first candidate that no node uses; `Some(0)` as soon as a candidate is in use
/// by this very device (its first node with that uid has the same path); `None` when
/// every candidate is used by another device.
pub open spec fn reusable_uid(nodes: Seq<Endpoint>, cands: Seq<u64>, path: Seq<char>) -> Option<u64>
    decreases cands.len(),
{
    if cands.len() == 0 {
        None
    } else {
        match first_node_with_uid(nodes, cands[0]) {
            None => Some(cands[0]),
            Some(i) => if nodes[i]@.hidapi.path@ == path {
                Some(0)
            } else {
                reusable_uid(nodes, cands.drop_first(), path)
            },
        }
    }
}

proof fn lemma_first_node_with_uid(nodes: Seq<Endpoint>, uid: u64)
    ensures
        first_node_with_uid(nodes, uid) matches Some(i) ==> 0 <= i < nodes.len() && nodes[i]@.uid == uid
            && forall|j: int| 0 <= j < i ==> nodes[j]@.uid != uid,
        first_node_with_uid(nodes, uid) is None <==> !uid_in_use(nodes, uid),
    decreases nodes.len(),
{
    if nodes.len() > 0 {
        lemma_first_node_with_uid(nodes.drop_first(), uid);
        assert(forall|j: int| 0 < j < nodes.len() ==> nodes[j] == nodes.drop_first()[j - 1]);
        if nodes[0]@.uid != uid {
            if uid_in_use(nodes, uid) {
                let k = choose|k: int| 0 <= k < nodes.len() && nodes[k]@.uid == uid;
                assert(nodes.drop_first()[k - 1]@.uid == uid);
            }
            if uid_in_use(nodes.drop_first(), uid) {
                let k = choose|k: int| 0 <= k < nodes.drop_first().len() && nodes.drop_first()[k]@.uid == uid;
                assert(nodes[k + 1]@.uid == uid);
            }
        }
    }
}

impl Mailbox {
    /// The message to broadcast to end one subscription.
    pub fn drop_subscriber(&self, uid: u64, sid: u64) -> (r: Message)
        ensures
            r.src == Address::DropSubscription,
            r.dst == (Address::CancelSubscription { uid, sid }),
            r.data@ == crate::protocol::hidio::empty_state(),
    {
        Message {
            src: Address::DropSubscription,
            dst: Address::CancelSubscription { uid, sid },
            data: HIDIOPacketBuffer::new(),
        }
    }

    /// The message to broadcast to end all subscriptions.
    pub fn drop_all_subscribers(&self) -> (r: Message)
        ensures
            r.src == Address::DropSubscription,
            r.dst == Address::CancelAllSubscriptions,
            r.data@ == crate::protocol::hidio::empty_state(),
    {
        Message {
            src: Address::DropSubscription,
            dst: Address::CancelAllSubscriptions,
            data: HIDIOPacketBuffer::new(),
        }
    }

    /// Creates an empty registry.
    pub fn new() -> (r: Mailbox)
        ensures
            r.nodes@.len() == 0,
            r.last_uid == 0,
            r.lookup@.len() == 0,
    {
        Mailbox { nodes: Vec::new(), last_uid: 0, lookup: Vec::new() }
    }

    fn entry_index(&self, key: &String) -> (r: Option<usize>)
        ensures
            r matches Some(i) ==> i < self.lookup@.len() && self.lookup@[i as int].0@ == key@
                && uids_of(self.lookup@, key@) == self.lookup@[i as int].1@
                && forall|j: int| 0 <= j < i ==> self.lookup@[j].0@ != key@,
            r is None ==> !has_key(self.lookup@, key@),
            r is None ==> uids_of(self.lookup@, key@) == Seq::<u64>::empty(),
    {
        assert(self.lookup@.skip(0) =~= self.lookup@);
        let mut i: usize = 0;
        while i < self.lookup.len()
            invariant
                i <= self.lookup@.len(),
                uids_of(self.lookup@, key@) == uids_of(self.lookup@.skip(i as int), key@),
                forall|j: int| 0 <= j < i ==> self.lookup@[j].0@ != key@,
            decreases self.lookup@.len() - i,
        {
            assert(self.lookup@.skip(i as int)[0] == self.lookup@[i as int]);
            assert(self.lookup@.skip(i as int).drop_first() =~= self.lookup@.skip(i + 1));
            if self.lookup[i].0 == *key {
                return Some(i);
            }
            i = i + 1;
        }
        proof {
            lemma_uids_of_absent(self.lookup@, key@);
        }
        None
    }

    fn first_node_index(&self, uid: u64) -> (r: Option<usize>)
        ensures
            r matches Some(i) ==> first_node_with_uid(self.nodes@, uid) == Some(i as int),
            r is None ==> first_node_with_uid(self.nodes@, uid) is None,
    {
        proof {
            lemma_first_node_with_uid(self.nodes@, uid);
        }
        let mut n: usize = 0;
        while n < self.nodes.len()
            invariant
                n <= self.nodes@.len(),
                forall|j: int| 0 <= j < n ==> self.nodes@[j]@.uid != uid,
                first_node_with_uid(self.nodes@, uid) matches Some(i) ==> 0 <= i < self.nodes@.len()
                    && self.nodes@[i]@.uid == uid && forall|j: int| 0 <= j < i ==> self.nodes@[j]@.uid != uid,
                first_node_with_uid(self.nodes@, uid) is None <==> !uid_in_use(self.nodes@, uid),
            decreases self.nodes@.len() - n,
        {
            if self.nodes[n].uid_value() == uid {
                return Some(n);
            }
            n = n + 1;
        }
        None
    }

    fn find_reusable(&self, e: usize, path: &String) -> (r: Option<u64>)
        requires
            e < self.lookup@.len(),
        ensures
            r == reusable_uid(self.nodes@, self.lookup@[e as int].1@, path@),
    {
        let ghost cands = self.lookup@[e as int].1@;
        assert(cands.skip(0) =~= cands);
        let mut c: usize = 0;
        while c < self.lookup[e].1.len()
            invariant
                e < self.lookup@.len(),
                cands == self.lookup@[e as int].1@,
                c <= cands.len(),
                reusable_uid(self.nodes@, cands, path@) == reusable_uid(self.nodes@, cands.skip(c as int), path@),
            decreases cands.len() - c,
        {
            let uid = self.lookup[e].1[c];
            assert(cands.skip(c as int).drop_first() =~= cands.skip(c + 1));
            proof {
                lemma_first_node_with_uid(self.nodes@, uid);
            }
            match self.first_node_index(uid) {
                None => {
                    return Some(uid);
                },
                Some(i) => {
                    if *self.nodes[i].path_ref() == *path {
                        return Some(0);
                    }
                },
            }
            c = c + 1;
        }
        None
    }

    /// Looks for an unused uid that was given before to the device key.
    ///
    /// Returns the first recorded uid that no node uses, `Some(0)` when a recorded uid
    /// is in use by this very device (same path), and `None` when there is none to
    /// reuse. An empty entry is recorded for a key seen for the first time.
    pub fn get_uid(&mut self, key: String, path: String) -> (r: Option<u64>)
        ensures
            final(self).nodes@ == old(self).nodes@,
            final(self).last_uid == old(self).last_uid,
            forall|k: Seq<char>| uids_of(final(self).lookup@, k) == uids_of(old(self).lookup@, k),
            r == reusable_uid(old(self).nodes@, uids_of(old(self).lookup@, key@), path@),
    {
        match self.entry_index(&key) {
            Some(e) => self.find_reusable(e, &path),
            None => {
                let ghost old_lookup = self.lookup@;
                self.lookup.push((key, Vec::new()));
                assert forall|k: Seq<char>| uids_of(self.lookup@, k) == uids_of(old_lookup, k) by {
                    lemma_uids_of_push(old_lookup, self.lookup@[old_lookup.len() as int], k);
                    assert(self.lookup@ == old_lookup.push(self.lookup@[old_lookup.len() as int]));
                }
                None
            },
        }
    }

    /// Assigns a uid to a device: reuses a free uid of its key, or creates one.
    ///
    /// Fails when the device (same key and path) is already registered.
    pub fn assign_uid(&mut self, key: String, path: String) -> (r: Result<u64, UidError>)
        requires
            reusable_uid(old(self).nodes@, uids_of(old(self).lookup@, key@), path@) is None
                ==> old(self).last_uid < u64::MAX,
        ensures
            r == spec_assign(old(self).nodes@, uids_of(old(self).lookup@, key@), path@, old(self).last_uid),
            final(self).nodes@ == old(self).nodes@,
            reusable_uid(old(self).nodes@, uids_of(old(self).lookup@, key@), path@) is None ==> {
                &&& final(self).last_uid == old(self).last_uid + 1
                &&& uids_of(final(self).lookup@, key@) == uids_of(old(self).lookup@, key@).push(
                    final(self).last_uid,
                )
                &&& forall|k: Seq<char>| k != key@ ==> uids_of(final(self).lookup@, k) == uids_of(old(self).lookup@, k)
            },
            reusable_uid(old(self).nodes@, uids_of(old(self).lookup@, key@), path@) is Some ==> {
                &&& final(self).last_uid == old(self).last_uid
                &&& forall|k: Seq<char>| uids_of(final(self).lookup@, k) == uids_of(old(self).lookup@, k)
            },
    {
        let k2 = key.clone();
        match self.get_uid(key, path) {
            Some(0) => Err(UidError::AlreadyRegistered),
            Some(uid) => Ok(uid),
            None => {
                self.last_uid = self.last_uid + 1;
                let uid = self.last_uid;
                self.add_uid(k2, uid);
                Ok(uid)
            },
        }
    }

    /// Registers a node.
    pub fn register_node(&mut self, endpoint: Endpoint)
        ensures
            final(self).nodes@ == old(self).nodes@.push(endpoint),
            final(self).last_uid == old(self).last_uid,
            final(self).lookup@ == old(self).lookup@,
    {
        self.nodes.push(endpoint);
    }

    /// Unregisters every node with the given uid (the others keep their order).
    pub fn unregister_node(&mut self, uid: u64)
        ensures
            final(self).nodes@ == old(self).nodes@.filter(|n: Endpoint| n@.uid != uid),
            final(self).last_uid == old(self).last_uid,
            final(self).lookup@ == old(self).lookup@,
    {
        let ghost old_nodes = self.nodes@;
        let mut kept: Vec<Endpoint> = Vec::new();
        let mut all: Vec<Endpoint> = Vec::new();
        std::mem::swap(&mut all, &mut self.nodes);
        let ghost pred = |n: Endpoint| n@.uid != uid;
        assert(old_nodes.take(0).filter(pred) =~= Seq::<Endpoint>::empty());
        let mut rest = all;
        let mut i: usize = 0;
        assert(old_nodes.skip(0) =~= old_nodes);
        let total_len = rest.len();
        assert(old_nodes.len() == total_len);
        while rest.len() > 0
            invariant
                i + rest@.len() == old_nodes.len(),
                old_nodes.len() <= usize::MAX,
                rest@ == old_nodes.skip(i as int),
                kept@ == old_nodes.take(i as int).filter(pred),
                pred == (|e: Endpoint| e@.uid != uid),
                self.last_uid == old(self).last_uid,
                self.lookup@ == old(self).lookup@,
            decreases rest@.len(),
        {
            let n = rest.remove(0);
            assert(n == old_nodes[i as int]);
            assert(rest@ =~= old_nodes.skip(i + 1));
            assert(old_nodes.take(i + 1).drop_last() =~= old_nodes.take(i as int));
            proof {
                reveal_with_fuel(Seq::<Endpoint>::filter, 1);
            }
            assert(old_nodes.take(i + 1).last() == n);
            assert(pred(n) == (n@.uid != uid));
            assert(old_nodes.take(i + 1).filter(pred) == if pred(n) {
                old_nodes.take(i as int).filter(pred).push(n)
            } else {
                old_nodes.take(i as int).filter(pred)
            });
            if n.uid_value() != uid {
                kept.push(n);
            }
            i = i + 1;
        }
        assert(old_nodes.take(old_nodes.len() as int) =~= old_nodes);
        self.nodes = kept;
    }

    /// Records a uid for the device key.
    pub fn add_uid(&mut self, key: String, uid: u64)
        ensures
            final(self).nodes@ == old(self).nodes@,
            final(self).last_uid == old(self).last_uid,
            uids_of(final(self).lookup@, key@) == uids_of(old(self).lookup@, key@).push(uid),
            forall|k: Seq<char>| k != key@ ==> uids_of(final(self).lookup@, k) == uids_of(old(self).lookup@, k),
    {
        let ghost old_lookup = self.lookup@;
        match self.entry_index(&key) {
            Some(e) => {
                let mut entry = (String::new(), Vec::new());
                std::mem::swap(&mut entry, &mut self.lookup[e]);
                assert(entry.0@ == old_lookup[e as int].0@);
                assert(entry.1@ == old_lookup[e as int].1@);
                entry.1.push(uid);
                let ghost new_entry = entry;
                self.lookup.set(e, entry);
                assert(self.lookup@ == old_lookup.update(e as int, new_entry));
                assert forall|k: Seq<char>| uids_of(self.lookup@, k) == if k == key@ {
                    uids_of(old_lookup, k).push(uid)
                } else {
                    uids_of(old_lookup, k)
                } by {
                    lemma_uids_of_update(old_lookup, e as int, self.lookup@[e as int], k);
                }
            },
            None => {
                let mut v = Vec::new();
                v.push(uid);
                self.lookup.push((key, v));
                assert forall|k: Seq<char>| uids_of(self.lookup@, k) == if k == key@ {
                    uids_of(old_lookup, k).push(uid)
                } else {
                    uids_of(old_lookup, k)
                } by {
                    lemma_uids_of_push(old_lookup, self.lookup@[old_lookup.len() as int], k);
                    assert(self.lookup@ == old_lookup.push(self.lookup@[old_lookup.len() as int]));
                    if k == key@ {
                        assert(Seq::<u64>::empty().push(uid) =~= seq![uid]);
                    }
                }
            },
        }
    }
}

proof fn lemma_uids_of_absent(l: Seq<(String, Vec<u64>)>, k: Seq<char>)
    requires
        forall|j: int| 0 <= j < l.len() ==> l[j].0@ != k,
    ensures
        uids_of(l, k) == Seq::<u64>::empty(),
        !has_key(l, k),
    decreases l.len(),
{
    if l.len() > 0 {
        lemma_uids_of_absent(l.drop_first(), k);
    }
}

proof fn lemma_uids_of_push(l: Seq<(String, Vec<u64>)>, x: (String, Vec<u64>), k: Seq<char>)
    ensures
        has_key(l, k) ==> uids_of(l.push(x), k) == uids_of(l, k),
        !has_key(l, k) ==> uids_of(l, k) == Seq::<u64>::empty() && uids_of(l.push(x), k) == (if x.0@
            == k {
            x.1@
        } else {
            Seq::<u64>::empty()
        }),
    decreases l.len(),
{
    if l.len() > 0 {
        assert(l.push(x).drop_first() =~= l.drop_first().push(x));
        assert(l.push(x)[0] == l[0]);
        lemma_uids_of_push(l.drop_first(), x, k);
        if l[0].0@ != k {
            if has_key(l, k) {
                let i = choose|i: int| 0 <= i < l.len() && l[i].0@ == k;
                assert(l.drop_first()[i - 1].0@ == k);
            }
            if has_key(l.drop_first(), k) {
                let i = choose|i: int| 0 <= i < l.drop_first().len() && l.drop_first()[i].0@ == k;
                assert(l[i + 1].0@ == k);
            }
        }
    } else {
        assert(l.push(x).drop_first() =~= Seq::<(String, Vec<u64>)>::empty());
        assert(l.push(x)[0] == x);
        assert(uids_of(l.push(x).drop_first(), k) == Seq::<u64>::empty());
    }
}

/// Whether some entry has the key.
pub open spec fn has_key(l: Seq<(String, Vec<u64>)>, k: Seq<char>) -> bool {
    exists|i: int| 0 <= i < l.len() && l[i].0@ == k
}

proof fn lemma_uids_of_update(l: Seq<(String, Vec<u64>)>, e: int, x: (String, Vec<u64>), k: Seq<char>)
    requires
        0 <= e < l.len(),
        x.0@ == l[e].0@,
        forall|j: int| 0 <= j < e ==> l[j].0@ != l[e].0@,
    ensures
        uids_of(l.update(e, x), k) == if k == l[e].0@ {
            x.1@
        } else {
            uids_of(l, k)
        },
    decreases l.len(),
{
    if e > 0 {
        assert(l.update(e, x).drop_first() =~= l.drop_first().update(e - 1, x));
        assert(l.update(e, x)[0] == l[0]);
        assert(l[0].0@ != l[e].0@);
        lemma_uids_of_update(l.drop_first(), e - 1, x, k);
    } else {
        assert(l.update(e, x).drop_first() =~= l.drop_first());
    }
}


/// Every registered node has a uid at most the last uid created.
pub open spec fn uids_bounded(nodes: Seq<Endpoint>, last_uid: u64) -> bool {
    forall|i: int| 0 <= i < nodes.len() ==> nodes[i]@.uid <= last_uid
}

/// The uids of a key once a uid was assigned to it: unchanged when one was reused,
/// the new uid appended otherwise.
pub open spec fn uids_after_assign(nodes: Seq<Endpoint>, cands: Seq<u64>, path: Seq<char>, uid: u64) -> Seq<u64> {
    if reusable_uid(nodes, cands, path) is None {
        cands.push(uid)
    } else {
        cands
    }
}

proof fn lemma_first_node_push(nodes: Seq<Endpoint>, e: Endpoint, uid: u64)
    ensures
        first_node_with_uid(nodes.push(e), uid) == match first_node_with_uid(nodes, uid) {
            Some(i) => Some(i),
            None => if e@.uid == uid {
                Some(nodes.len() as int)
            } else {
                None
            },
        },
    decreases nodes.len(),
{
    if nodes.len() > 0 {
        assert(nodes.push(e).drop_first() =~= nodes.drop_first().push(e));
        assert(nodes.push(e)[0] == nodes[0]);
        lemma_first_node_push(nodes.drop_first(), e, uid);
    } else {
        assert(nodes.push(e)[0] == e);
        assert(nodes.push(e).drop_first() =~= Seq::<Endpoint>::empty());
        assert(first_node_with_uid(nodes.push(e).drop_first(), uid) is None);
    }
}

proof fn lemma_reusable_is_free(nodes: Seq<Endpoint>, cands: Seq<u64>, path: Seq<char>)
    ensures
        (reusable_uid(nodes, cands, path) matches Some(u) && u != 0) ==> !uid_in_use(nodes, reusable_uid(nodes, cands, path).unwrap()),
    decreases cands.len(),
{
    if cands.len() > 0 {
        lemma_first_node_with_uid(nodes, cands[0]);
        lemma_reusable_is_free(nodes, cands.drop_first(), path);
    }
}

proof fn lemma_reuse_then_refused(nodes: Seq<Endpoint>, cands: Seq<u64>, path: Seq<char>, e: Endpoint)
    requires
        reusable_uid(nodes, cands, path) matches Some(u) && u != 0 && e@.uid == u,
        e@.hidapi.path@ == path,
    ensures
        reusable_uid(nodes.push(e), cands, path) == Some(0u64),
    decreases cands.len(),
{
    lemma_first_node_push(nodes, e, cands[0]);
    lemma_first_node_with_uid(nodes, cands[0]);
    if first_node_with_uid(nodes, cands[0]) is Some {
        assert(nodes.push(e)[first_node_with_uid(nodes, cands[0]).unwrap()] == nodes[first_node_with_uid(
            nodes,
            cands[0],
        ).unwrap()]);
        lemma_reuse_then_refused(nodes, cands.drop_first(), path, e);
    } else {
        assert(nodes.push(e)[nodes.len() as int] == e);
    }
}

proof fn lemma_fresh_then_refused(nodes: Seq<Endpoint>, cands: Seq<u64>, path: Seq<char>, e: Endpoint)
    requires
        reusable_uid(nodes, cands, path) is None,
        !uid_in_use(nodes, e@.uid),
        e@.hidapi.path@ == path,
    ensures
        reusable_uid(nodes.push(e), cands.push(e@.uid), path) == Some(0u64),
    decreases cands.len(),
{
    lemma_first_node_with_uid(nodes, e@.uid);
    lemma_first_node_push(nodes, e, e@.uid);
    if cands.len() == 0 {
        assert(cands.push(e@.uid) =~= seq![e@.uid]);
        assert(nodes.push(e)[nodes.len() as int] == e);
    } else {
        lemma_first_node_push(nodes, e, cands[0]);
        lemma_first_node_with_uid(nodes, cands[0]);
        let i = first_node_with_uid(nodes, cands[0]).unwrap();
        assert(nodes.push(e)[i] == nodes[i]);
        assert(cands.push(e@.uid).drop_first() =~= cands.drop_first().push(e@.uid));
        assert(cands.push(e@.uid)[0] == cands[0]);
        lemma_fresh_then_refused(nodes, cands.drop_first(), path, e);
    }
}

/// A uid handed out by `assign_uid` is never the uid of a registered node (as long as
/// every node uid is one that was created, i.e. at most the last uid), and is never 0.
pub proof fn lemma_assigned_uid_is_unused(nodes: Seq<Endpoint>, cands: Seq<u64>, path: Seq<char>, last_uid: u64)
    requires
        uids_bounded(nodes, last_uid),
        reusable_uid(nodes, cands, path) is None ==> last_uid < u64::MAX,
    ensures
        spec_assign(nodes, cands, path, last_uid) is Ok ==> spec_assign(nodes, cands, path, last_uid).unwrap() != 0
            && !uid_in_use(nodes, spec_assign(nodes, cands, path, last_uid).unwrap()),
{
    lemma_reusable_is_free(nodes, cands, path);
}

/// A device cannot be registered twice: once `assign_uid` gave it a uid and a node
/// with that uid and the device's path was registered, assigning a uid to the same
/// key and path is refused.
pub proof fn lemma_registered_device_is_refused(
    nodes: Seq<Endpoint>,
    cands: Seq<u64>,
    path: Seq<char>,
    last_uid: u64,
    e: Endpoint,
)
    requires
        uids_bounded(nodes, last_uid),
        reusable_uid(nodes, cands, path) is None ==> last_uid < u64::MAX,
        spec_assign(nodes, cands, path, last_uid) matches Ok(u) && e@.uid == u,
        e@.hidapi.path@ == path,
    ensures
        spec_assign(nodes.push(e), uids_after_assign(nodes, cands, path, e@.uid), path, (last_uid + 1) as u64)
            == Err::<u64, UidError>(UidError::AlreadyRegistered),
        spec_assign(nodes.push(e), uids_after_assign(nodes, cands, path, e@.uid), path, last_uid)
            == Err::<u64, UidError>(UidError::AlreadyRegistered),
{
    if reusable_uid(nodes, cands, path) is None {
        assert forall|i: int| 0 <= i < nodes.len() implies nodes[i]@.uid != e@.uid by {}
        lemma_fresh_then_refused(nodes, cands, path, e);
    } else {
        lemma_reuse_then_refused(nodes, cands, path, e);
    }
}

proof fn lemma_filter_all_kept(s: Seq<Endpoint>, uid: u64)
    requires
        !uid_in_use(s, uid),
    ensures
        s.filter(|n: Endpoint| n@.uid != uid) == s,
    decreases s.len(),
{
    reveal_with_fuel(Seq::<Endpoint>::filter, 1);
    if s.len() > 0 {
        assert(!uid_in_use(s.drop_last(), uid)) by {
            if uid_in_use(s.drop_last(), uid) {
                let k = choose|k: int| 0 <= k < s.drop_last().len() && s.drop_last()[k]@.uid == uid;
                assert(s[k]@.uid == uid);
            }
        }
        lemma_filter_all_kept(s.drop_last(), uid);
        assert(s.drop_last().push(s.last()) =~= s);
    } else {
        assert(s.filter(|n: Endpoint| n@.uid != uid) =~= s);
    }
}

/// A device that goes away gets its uid back: once it was assigned a uid, registered
/// and unregistered again, assigning to the same key and path gives the same uid.
pub proof fn lemma_returning_device_gets_its_uid(
    nodes: Seq<Endpoint>,
    cands: Seq<u64>,
    path: Seq<char>,
    last_uid: u64,
    e: Endpoint,
)
    requires
        uids_bounded(nodes, last_uid),
        reusable_uid(nodes, cands, path) is None ==> last_uid < u64::MAX,
        spec_assign(nodes, cands, path, last_uid) matches Ok(u) && e@.uid == u,
    ensures
        spec_assign(
            nodes.push(e).filter(|n: Endpoint| n@.uid != e@.uid),
            uids_after_assign(nodes, cands, path, e@.uid),
            path,
            (last_uid + 1) as u64,
        ) == Ok::<u64, UidError>(e@.uid),
{
    let u = e@.uid;
    lemma_assigned_uid_is_unused(nodes, cands, path, last_uid);
    reveal_with_fuel(Seq::<Endpoint>::filter, 1);
    assert(nodes.push(e).drop_last() =~= nodes);
    lemma_filter_all_kept(nodes, u);
    assert(nodes.push(e).filter(|n: Endpoint| n@.uid != u) == nodes);
    if reusable_uid(nodes, cands, path) is None {
        lemma_reusable_none_then_last(nodes, cands, path, u);
    }
}

proof fn lemma_reusable_none_then_last(nodes: Seq<Endpoint>, cands: Seq<u64>, path: Seq<char>, u: u64)
    requires
        reusable_uid(nodes, cands, path) is None,
        !uid_in_use(nodes, u),
    ensures
        reusable_uid(nodes, cands.push(u), path) == Some(u),
    decreases cands.len(),
{
    lemma_first_node_with_uid(nodes, u);
    if cands.len() == 0 {
        assert(cands.push(u) =~= seq![u]);
    } else {
        lemma_first_node_with_uid(nodes, cands[0]);
        assert(cands.push(u).drop_first() =~= cands.drop_first().push(u));
        assert(cands.push(u)[0] == cands[0]);
        lemma_reusable_none_then_last(nodes, cands.drop_first(), path, u);
    }
}

} // verus!
