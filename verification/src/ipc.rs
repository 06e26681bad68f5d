//! Zero-copy message channels: fixed-capacity ring buffers addressed by a
//! channel identifier, gated by the capability store.

use crate::capability::CapabilityRegistry;
use crate::capability::Permission;
use crate::capability::AUDIT_RESULT_DENIED;
use crate::capability::AUDIT_RESULT_NO_STORAGE;
use vstd::prelude::*;

verus! {

/// Maximum payload size in bytes of one message.
pub const MAX_MESSAGE_SIZE: usize = 4096;

/// Maximum number of channels in the channel table.
pub const MAX_IPC_CHANNELS: usize = 1024;

/// Number of slots per ring buffer (a power of two); one slot is always
/// kept empty, so a channel holds at most one less outstanding message.
pub const RING_BUFFER_SIZE: usize = 16;

/// Channel errors.
#[derive(Clone, Copy, PartialEq, Eq, Structural, Debug)]
pub enum IpcError {
    BufferFull,
    BufferEmpty,
    MessageTooLarge,
    InvalidMessage,
    InvalidChannel,
    TooManyChannels,
    PermissionDenied,
}

impl From<crate::capability::CapabilityError> for IpcError {
    /// Any capability failure surfaces to IPC callers as a denial.
    fn from(_e: crate::capability::CapabilityError) -> (r: Self) {
        IpcError::PermissionDenied
    }
}

impl vstd::std_specs::convert::FromSpecImpl<crate::capability::CapabilityError> for IpcError {
    open spec fn obeys_from_spec() -> bool {
        true
    }

    open spec fn from_spec(_e: crate::capability::CapabilityError) -> Self {
        IpcError::PermissionDenied
    }
}

/// Fixed-layout message header; it travels through a channel together with
/// an inline payload of at most [`MAX_MESSAGE_SIZE`] bytes.
#[derive(Clone, Copy, PartialEq, Eq, Structural, Debug)]
pub struct MessageHeader {
    /// Message ID.
    pub id: u64,
    /// Sender process ID.
    pub sender: u32,
    /// Receiver process ID.
    pub receiver: u32,
    /// Payload length in bytes.
    pub length: u32,
    /// Message type tag.
    pub msg_type: u32,
}

/// Single-producer/single-consumer-per-slot ring buffer: a fixed slot
/// array, a write cursor and a read cursor, each advancing modulo the
/// capacity.  Empty iff the cursors are equal; full when advancing the
/// write cursor would reach the read cursor.
pub struct RingBuffer {
    write_idx: usize,
    read_idx: usize,
    messages: Vec<Option<MessageHeader>>,
    data: Vec<Vec<u8>>,
}

impl RingBuffer {
    /// The write cursor.
    pub closed spec fn write_cursor(self) -> int {
        self.write_idx as int
    }

    /// The read cursor.
    pub closed spec fn read_cursor(self) -> int {
        self.read_idx as int
    }

    /// The header slots, indexed by raw slot position.
    pub closed spec fn headers(self) -> Seq<Option<MessageHeader>> {
        self.messages@
    }

    /// The payload slots, indexed by raw slot position.
    pub closed spec fn slots(self) -> Seq<Seq<u8>> {
        Seq::new(self.data@.len(), |i: int| self.data@[i]@)
    }

    /// Number of outstanding (sent, not yet received) messages.
    pub open spec fn pending_len(self) -> int {
        (self.write_cursor() - self.read_cursor() + RING_BUFFER_SIZE as int) % (
        RING_BUFFER_SIZE as int)
    }

    /// Raw slot position of the `k`-th outstanding message.
    pub open spec fn slot_index(self, k: int) -> int {
        (self.read_cursor() + k) % (RING_BUFFER_SIZE as int)
    }

    /// The `k`-th outstanding slot holds a header whose declared length
    /// fits the slot.
    pub open spec fn slot_ok(self, k: int) -> bool {
        &&& self.headers()[self.slot_index(k)] is Some
        &&& self.headers()[self.slot_index(k)]->Some_0.length as int <= MAX_MESSAGE_SIZE as int
    }

    /// Structural invariant.
    pub open spec fn wf(self) -> bool {
        &&& self.headers().len() == RING_BUFFER_SIZE
        &&& self.slots().len() == RING_BUFFER_SIZE
        &&& 0 <= self.read_cursor() < RING_BUFFER_SIZE
        &&& 0 <= self.write_cursor() < RING_BUFFER_SIZE
        &&& forall|i: int|
            0 <= i < RING_BUFFER_SIZE ==> (#[trigger] self.slots()[i]).len() == MAX_MESSAGE_SIZE
        &&& forall|k: int| 0 <= k < self.pending_len() ==> #[trigger] self.slot_ok(k)
    }

    /// The outstanding messages in arrival order: each a header paired
    /// with the full bytes of its slot (the message's payload is the
    /// prefix sized to the header's declared length).
    pub open spec fn pending(self) -> Seq<(MessageHeader, Seq<u8>)> {
        Seq::new(
            self.pending_len() as nat,
            |k: int|
                (
                    self.headers()[self.slot_index(k)]->Some_0,
                    self.slots()[self.slot_index(k)],
                ),
        )
    }

    /// Create an empty ring buffer with zeroed slots.
    pub fn new() -> (rb: Self)
        ensures
            rb.wf(),
            rb.pending_len() == 0,
    {
        let mut messages: Vec<Option<MessageHeader>> = Vec::new();
        let mut data: Vec<Vec<u8>> = Vec::new();
        let mut i: usize = 0;
        while i < RING_BUFFER_SIZE
            invariant
                i <= RING_BUFFER_SIZE,
                messages@.len() == i,
                data@.len() == i,
                forall|j: int| 0 <= j < i ==> (#[trigger] data@[j]@).len() == MAX_MESSAGE_SIZE,
            decreases RING_BUFFER_SIZE - i,
        {
            messages.push(None);
            let slot: Vec<u8> = vec![0u8; MAX_MESSAGE_SIZE];
            data.push(slot);
            i = i + 1;
        }
        Self { write_idx: 0, read_idx: 0, messages, data }
    }

    /// Send: copy the payload once into the next free slot, store the
    /// header alongside it, then advance the write cursor (publishing the
    /// slot).  A payload, or a header-declared length, beyond
    /// [`MAX_MESSAGE_SIZE`] is rejected as too large; a buffer with no
    /// free slot rejects the message as full.  A failed send leaves the
    /// buffer untouched, its cursors included.
    pub fn send(&mut self, header: MessageHeader, data: &[u8]) -> (r: Result<(), IpcError>)
        requires
            old(self).wf(),
        ensures
            final(self).wf(),
            if data@.len() > MAX_MESSAGE_SIZE || header.length as int > MAX_MESSAGE_SIZE as int {
                r == Err::<(), IpcError>(IpcError::MessageTooLarge) && *final(self) == *old(self)
            } else if old(self).pending_len() == RING_BUFFER_SIZE - 1 {
                r == Err::<(), IpcError>(IpcError::BufferFull) && *final(self) == *old(self)
            } else {
                r == Ok::<(), IpcError>(()) && sent(*old(self), *final(self), header, data@)
            },
    {
        if data.len() > MAX_MESSAGE_SIZE || header.length as usize > MAX_MESSAGE_SIZE {
            return Err(IpcError::MessageTooLarge);
        }
        let w = self.write_idx;
        let r = self.read_idx;
        if (w + 1) % RING_BUFFER_SIZE == r {
            return Err(IpcError::BufferFull);
        }
        let ghost pre = *self;

        // Copy the payload into the slot prefix; bytes past the payload
        // keep whatever the slot held before.
        let mut slot: Vec<u8> = Vec::new();
        let mut j: usize = 0;
        while j < MAX_MESSAGE_SIZE
            invariant
                *self == pre,
                pre.wf(),
                w == pre.write_cursor(),
                pre.slots()[w as int].len() == MAX_MESSAGE_SIZE,
                data@.len() <= MAX_MESSAGE_SIZE,
                j <= MAX_MESSAGE_SIZE,
                slot@.len() == j,
                forall|i: int| 0 <= i < j && i < data@.len() ==> (#[trigger] slot@[i]) == data@[i],
                forall|i: int|
                    data@.len() <= i < j ==> (#[trigger] slot@[i]) == pre.slots()[w as int][i],
            decreases MAX_MESSAGE_SIZE - j,
        {
            if j < data.len() {
                slot.push(data[j]);
            } else {
                slot.push(self.data[w][j]);
            }
            j = j + 1;
        }
        self.messages[w] = Some(header);
        self.data[w] = slot;
        self.write_idx = (w + 1) % RING_BUFFER_SIZE;

        proof {
            let oldlen = pre.pending_len();
            assert(self.pending_len() == oldlen + 1);
            assert forall|k: int| 0 <= k < oldlen implies pre.slot_index(k) != w as int by {
                if pre.slot_index(k) == w as int {
                    assert(k == oldlen);
                }
            }
            assert forall|k: int|
                0 <= k < oldlen implies (#[trigger] self.pending()[k]) == pre.pending()[k] by {
                assert(self.slot_index(k) == pre.slot_index(k));
                assert(pre.slot_ok(k));
            }
            assert(self.slot_index(oldlen) == w as int);
            assert forall|i: int|
                0 <= i < RING_BUFFER_SIZE implies (#[trigger] self.slots()[i]).len()
                == MAX_MESSAGE_SIZE by {
                if i != w as int {
                    assert(self.slots()[i] == pre.slots()[i]);
                }
            }
            assert(self.pending().last().1.take(data@.len() as int) =~= data@);
            assert forall|k: int| 0 <= k < self.pending_len() implies #[trigger] self.slot_ok(k) by {
                if k < oldlen {
                    assert(pre.slot_ok(k));
                    assert(self.slot_index(k) == pre.slot_index(k));
                }
            }
        }
        Ok(())
    }

    /// Receive: return the oldest outstanding header and a copy of its
    /// payload bytes (sized to the header's declared length), then advance
    /// the read cursor, freeing the slot for reuse.  An empty buffer
    /// reports `BufferEmpty` and changes nothing.
    pub fn recv(&mut self) -> (r: Result<(MessageHeader, Vec<u8>), IpcError>)
        requires
            old(self).wf(),
        ensures
            final(self).wf(),
            match r {
                Ok((header, payload)) => {
                    &&& old(self).pending_len() > 0
                    &&& received(*old(self), *final(self), header, payload@)
                },
                Err(e) => {
                    &&& e == IpcError::BufferEmpty
                    &&& old(self).pending_len() == 0
                    &&& *final(self) == *old(self)
                },
            },
    {
        let rd = self.read_idx;
        let w = self.write_idx;
        if rd == w {
            return Err(IpcError::BufferEmpty);
        }
        proof {
            assert(self.slot_ok(0));
            assert(self.slot_index(0) == rd as int);
        }
        let header = match self.messages[rd] {
            Some(h) => h,
            None => {
                // Unreachable: every outstanding slot holds a header.
                return Err(IpcError::InvalidMessage);
            },
        };
        let n = header.length as usize;
        let ghost pre = *self;
        let mut payload: Vec<u8> = Vec::new();
        let mut j: usize = 0;
        while j < n
            invariant
                *self == pre,
                pre.wf(),
                rd == pre.read_cursor(),
                pre.slots()[rd as int].len() == MAX_MESSAGE_SIZE,
                n <= MAX_MESSAGE_SIZE,
                j <= n,
                payload@.len() == j,
                forall|i: int| 0 <= i < j ==> (#[trigger] payload@[i]) == pre.slots()[rd as int][i],
            decreases n - j,
        {
            payload.push(self.data[rd][j]);
            j = j + 1;
        }
        self.read_idx = (rd + 1) % RING_BUFFER_SIZE;
        proof {
            let oldlen = pre.pending_len();
            assert(self.pending_len() == oldlen - 1);
            assert forall|k: int|
                0 <= k < oldlen - 1 implies (#[trigger] self.pending()[k]) == pre.pending()[
                k + 1
            ] by {
                assert(self.slot_index(k) == pre.slot_index(k + 1));
                assert(pre.slot_ok(k + 1));
            }
            assert(self.pending() =~= pre.pending().drop_first());
            assert(payload@ =~= pre.pending()[0].1.take(header.length as int));
            assert forall|k: int| 0 <= k < self.pending_len() implies #[trigger] self.slot_ok(k) by {
                assert(pre.slot_ok(k + 1));
                assert(self.slot_index(k) == pre.slot_index(k + 1));
            }
        }
        Ok((header, payload))
    }

    /// Non-blocking check whether a message is outstanding, computed from
    /// the two cursors without consuming anything.
    pub fn poll(&self) -> (b: bool)
        requires
            self.wf(),
        ensures
            b == (self.pending_len() > 0),
    {
        self.read_idx != self.write_idx
    }

    /// Number of outstanding messages.
    pub fn pending_count(&self) -> (n: usize)
        requires
            self.wf(),
        ensures
            n == self.pending_len(),
    {
        (self.write_idx + RING_BUFFER_SIZE - self.read_idx) % RING_BUFFER_SIZE
    }
}

/// Relation between the states of a channel across a successful send: the
/// queue of outstanding messages grows by one at the back, carrying the
/// sent header, and the new slot's bytes start with the sent payload.
pub open spec fn sent(
    pre: RingBuffer,
    post: RingBuffer,
    header: MessageHeader,
    data: Seq<u8>,
) -> bool {
    &&& post.pending().len() == pre.pending().len() + 1
    &&& forall|k: int| 0 <= k < pre.pending().len() ==> (#[trigger] post.pending()[k]) == pre.pending()[k]
    &&& post.pending().last().0 == header
    &&& post.pending().last().1.take(data.len() as int) == data
    &&& post.pending().last().1.len() == MAX_MESSAGE_SIZE
    &&& post.read_cursor() == pre.read_cursor()
}

/// Relation between the states of a channel across a successful receive:
/// the oldest outstanding message leaves the queue, and the caller gets
/// its header together with the slot prefix sized to the header's length.
pub open spec fn received(
    pre: RingBuffer,
    post: RingBuffer,
    header: MessageHeader,
    payload: Seq<u8>,
) -> bool {
    &&& pre.pending().len() > 0
    &&& header == pre.pending()[0].0
    &&& payload == pre.pending()[0].1.take(header.length as int)
    &&& post.pending() == pre.pending().drop_first()
    &&& post.write_cursor() == pre.write_cursor()
}

/// Law (FIFO, receive side): a chain of successful receives returns the
/// outstanding messages of the starting state in arrival order.
pub proof fn lemma_recvs_in_order(
    states: Seq<RingBuffer>,
    headers: Seq<MessageHeader>,
    payloads: Seq<Seq<u8>>,
)
    requires
        states.len() == headers.len() + 1,
        payloads.len() == headers.len(),
        forall|i: int|
            0 <= i < headers.len() ==> received(
                states[i],
                states[i + 1],
                #[trigger] headers[i],
                payloads[i],
            ),
    ensures
        states[0].pending().len() >= headers.len(),
        forall|i: int| 0 <= i < headers.len() ==> #[trigger] headers[i] == states[0].pending()[i].0,
    decreases headers.len(),
{
    if headers.len() > 0 {
        assert(received(states[0], states[1], headers[0], payloads[0]));
        assert forall|i: int|
            0 <= i < headers.len() - 1 implies received(
            states.drop_first()[i],
            states.drop_first()[i + 1],
            #[trigger] headers.drop_first()[i],
            payloads.drop_first()[i],
        ) by {
            assert(received(states[i + 1], states[i + 2], headers[i + 1], payloads[i + 1]));
        }
        lemma_recvs_in_order(states.drop_first(), headers.drop_first(), payloads.drop_first());
        assert forall|i: int|
            0 <= i < headers.len() implies #[trigger] headers[i] == states[0].pending()[i].0 by {
            if i > 0 {
                assert(headers.drop_first()[i - 1] == states.drop_first()[0].pending()[i - 1].0);
                assert(states[1].pending() == states[0].pending().drop_first());
                assert(states[0].pending().drop_first()[i - 1] == states[0].pending()[i]);
            }
        }
    }
}

/// Law (FIFO, send side): a chain of successful sends appends its headers
/// to the outstanding queue in the order the sends completed.
pub proof fn lemma_sends_in_order(
    states: Seq<RingBuffer>,
    headers: Seq<MessageHeader>,
    payloads: Seq<Seq<u8>>,
)
    requires
        states.len() == headers.len() + 1,
        payloads.len() == headers.len(),
        forall|i: int|
            0 <= i < headers.len() ==> sent(
                states[i],
                states[i + 1],
                #[trigger] headers[i],
                payloads[i],
            ),
    ensures
        states.last().pending().len() == states[0].pending().len() + headers.len(),
        forall|i: int|
            0 <= i < headers.len() ==> #[trigger] headers[i] == states.last().pending()[states[0].pending().len() + i].0,
        forall|k: int|
            0 <= k < states[0].pending().len() ==> #[trigger] states.last().pending()[k]
                == states[0].pending()[k],
    decreases headers.len(),
{
    if headers.len() > 0 {
        assert(sent(states[0], states[1], headers[0], payloads[0]));
        assert forall|i: int|
            0 <= i < headers.len() - 1 implies sent(
            states.drop_first()[i],
            states.drop_first()[i + 1],
            #[trigger] headers.drop_first()[i],
            payloads.drop_first()[i],
        ) by {
            assert(sent(states[i + 1], states[i + 2], headers[i + 1], payloads[i + 1]));
        }
        lemma_sends_in_order(states.drop_first(), headers.drop_first(), payloads.drop_first());
        assert(states.drop_first().last() == states.last());
        assert(states.drop_first()[0] == states[1]);
        assert forall|i: int|
            0 <= i < headers.len() implies #[trigger] headers[i] == states.last().pending()[states[0].pending().len()
            + i].0 by {
            if i == 0 {
                if headers.len() == 1 {
                    assert(states[1].pending()[states[0].pending().len() as int].0 == headers[0]);
                } else {
                    assert(states.last().pending()[states[1].pending().len() as int - 1]
                        == states[1].pending()[states[1].pending().len() as int - 1]);
                    assert(states[1].pending()[states[0].pending().len() as int].0 == headers[0]);
                }
            } else {
                assert(headers.drop_first()[i - 1] == states.drop_first().last().pending()[states[1].pending().len()
                    + i - 1].0);
            }
        }
    }
}

/// The channel table: ring buffers created on demand, identified by a
/// monotonically increasing 64-bit id, alive for the kernel's lifetime.
pub struct IpcRegistry {
    channels: Vec<Option<RingBuffer>>,
    next_channel_id: u64,
}

impl IpcRegistry {
    /// The channel slots, indexed by channel id.
    pub closed spec fn channel_slots(self) -> Seq<Option<RingBuffer>> {
        self.channels@
    }

    /// The next channel id to hand out.
    pub closed spec fn next_id(self) -> u64 {
        self.next_channel_id
    }

    /// Structural invariant: ids are handed out sequentially, so exactly
    /// the slots below the next id hold a channel.
    pub open spec fn wf(self) -> bool {
        &&& self.channel_slots().len() == MAX_IPC_CHANNELS
        &&& self.next_id() <= MAX_IPC_CHANNELS as u64
        &&& forall|i: int|
            0 <= i < MAX_IPC_CHANNELS ==> ((#[trigger] self.channel_slots()[i]) is Some <==> i
                < self.next_id())
        &&& forall|i: int|
            0 <= i < MAX_IPC_CHANNELS && (#[trigger] self.channel_slots()[i]) is Some
                ==> self.channel_slots()[i]->Some_0.wf()
    }

    /// True when `channel_id` names a live channel.
    pub open spec fn channel_ok(self, channel_id: u64) -> bool {
        channel_id < MAX_IPC_CHANNELS as u64 && self.channel_slots()[channel_id as int] is Some
    }

    /// The channel behind a live id.
    pub open spec fn channel_at(self, channel_id: u64) -> RingBuffer {
        self.channel_slots()[channel_id as int]->Some_0
    }

    /// Initialize the channel table; channels are created on demand.
    pub fn init() -> (r: Self)
        ensures
            r.wf(),
            r.next_id() == 0,
    {
        let mut channels: Vec<Option<RingBuffer>> = Vec::new();
        let mut i: usize = 0;
        while i < MAX_IPC_CHANNELS
            invariant
                i <= MAX_IPC_CHANNELS,
                channels@.len() == i,
                forall|j: int| 0 <= j < i ==> (#[trigger] channels@[j]) is None,
            decreases MAX_IPC_CHANNELS - i,
        {
            channels.push(None);
            i = i + 1;
        }
        Self { channels, next_channel_id: 0 }
    }

    /// Allocate the next sequential identifier and a fresh, empty ring
    /// buffer; fails with `TooManyChannels` once the table is exhausted.
    pub fn create_channel(&mut self) -> (r: Result<u64, IpcError>)
        requires
            old(self).wf(),
        ensures
            final(self).wf(),
            if old(self).next_id() < MAX_IPC_CHANNELS as u64 {
                &&& r == Ok::<u64, IpcError>(old(self).next_id())
                &&& final(self).next_id() == old(self).next_id() + 1
                &&& final(self).channel_ok(old(self).next_id())
                &&& final(self).channel_at(old(self).next_id()).pending_len() == 0
                &&& forall|q: int|
                    0 <= q < MAX_IPC_CHANNELS && q != old(self).next_id()
                        ==> #[trigger] final(self).channel_slots()[q]
                        == old(self).channel_slots()[q]
            } else {
                r == Err::<u64, IpcError>(IpcError::TooManyChannels) && *final(self) == *old(self)
            },
    {
        let channel_id = self.next_channel_id;
        if channel_id >= MAX_IPC_CHANNELS as u64 {
            return Err(IpcError::TooManyChannels);
        }
        let cid = channel_id as usize;
        self.channels[cid] = Some(RingBuffer::new());
        self.next_channel_id = channel_id + 1;
        Ok(channel_id)
    }

    /// Send a message: the channel must be live, the payload (and the
    /// header's declared length) must fit a slot, the sender must hold
    /// the IPC-send capability, and the ring buffer must have a free
    /// slot — checked in that order, so an oversized message never
    /// touches the cursors and never reaches the permission check.  A
    /// denied send appends an audit entry naming the sender.
    pub fn msg_send(
        &mut self,
        caps: &mut CapabilityRegistry,
        channel_id: u64,
        header: MessageHeader,
        data: &[u8],
        now: u64,
    ) -> (r: Result<(), IpcError>)
        requires
            old(self).wf(),
            old(caps).wf(),
        ensures
            final(self).wf(),
            final(caps).wf(),
            final(self).next_id() == old(self).next_id(),
            final(caps).store_slots() == old(caps).store_slots(),
            if !old(self).channel_ok(channel_id) {
                &&& r == Err::<(), IpcError>(IpcError::InvalidChannel)
                &&& final(self).channel_slots() == old(self).channel_slots()
                &&& final(caps).audit_state() == old(caps).audit_state()
            } else if data@.len() > MAX_MESSAGE_SIZE || header.length as int
                > MAX_MESSAGE_SIZE as int {
                &&& r == Err::<(), IpcError>(IpcError::MessageTooLarge)
                &&& final(self).channel_slots() == old(self).channel_slots()
                &&& final(caps).audit_state() == old(caps).audit_state()
            } else if !old(caps).process_grants(header.sender, Permission::IpcSend) {
                &&& r == Err::<(), IpcError>(IpcError::PermissionDenied)
                &&& final(self).channel_slots() == old(self).channel_slots()
                &&& crate::capability::denial_logged(
                    old(caps).audit_state(),
                    final(caps).audit_state(),
                    now,
                    header.sender,
                    Permission::IpcSend,
                    if old(caps).has_store(header.sender) {
                        AUDIT_RESULT_DENIED
                    } else {
                        AUDIT_RESULT_NO_STORAGE
                    },
                )
            } else if old(self).channel_at(channel_id).pending_len() == RING_BUFFER_SIZE - 1 {
                &&& r == Err::<(), IpcError>(IpcError::BufferFull)
                &&& final(self).channel_slots() == old(self).channel_slots()
                &&& final(caps).audit_state() == old(caps).audit_state()
            } else {
                &&& r == Ok::<(), IpcError>(())
                &&& sent(
                    old(self).channel_at(channel_id),
                    final(self).channel_at(channel_id),
                    header,
                    data@,
                )
                &&& forall|q: int|
                    0 <= q < MAX_IPC_CHANNELS && q != channel_id
                        ==> #[trigger] final(self).channel_slots()[q]
                        == old(self).channel_slots()[q]
                &&& final(caps).audit_state() == old(caps).audit_state()
            },
    {
        if channel_id >= MAX_IPC_CHANNELS as u64 {
            return Err(IpcError::InvalidChannel);
        }
        let cid = channel_id as usize;
        if self.channels[cid].is_none() {
            return Err(IpcError::InvalidChannel);
        }
        if data.len() > MAX_MESSAGE_SIZE || header.length as usize > MAX_MESSAGE_SIZE {
            return Err(IpcError::MessageTooLarge);
        }
        match caps.check_ipc_permission(header.sender, channel_id, now) {
            Ok(()) => {},
            Err(e) => {
                return Err(IpcError::from(e));
            },
        }
        let r = match &mut self.channels[cid] {
            Some(channel) => channel.send(header, data),
            None => Err(IpcError::InvalidChannel),
        };
        proof {
            if r is Err {
                assert(self.channel_slots() =~= old(self).channel_slots());
            }
        }
        r
    }

    /// Receive the oldest message from a live channel; `BufferEmpty` when
    /// nothing is outstanding, `InvalidChannel` for an unknown id.
    pub fn msg_recv(&mut self, channel_id: u64) -> (r: Result<(MessageHeader, Vec<u8>), IpcError>)
        requires
            old(self).wf(),
        ensures
            final(self).wf(),
            final(self).next_id() == old(self).next_id(),
            match r {
                Ok((header, payload)) => {
                    &&& old(self).channel_ok(channel_id)
                    &&& received(
                        old(self).channel_at(channel_id),
                        final(self).channel_at(channel_id),
                        header,
                        payload@,
                    )
                    &&& forall|q: int|
                        0 <= q < MAX_IPC_CHANNELS && q != channel_id
                            ==> #[trigger] final(self).channel_slots()[q]
                            == old(self).channel_slots()[q]
                },
                Err(IpcError::InvalidChannel) => {
                    &&& !old(self).channel_ok(channel_id)
                    &&& final(self).channel_slots() == old(self).channel_slots()
                },
                Err(IpcError::BufferEmpty) => {
                    &&& old(self).channel_ok(channel_id)
                    &&& old(self).channel_at(channel_id).pending_len() == 0
                    &&& final(self).channel_slots() == old(self).channel_slots()
                },
                Err(_) => false,
            },
    {
        if channel_id >= MAX_IPC_CHANNELS as u64 {
            return Err(IpcError::InvalidChannel);
        }
        let cid = channel_id as usize;
        if self.channels[cid].is_none() {
            return Err(IpcError::InvalidChannel);
        }
        let r = match &mut self.channels[cid] {
            Some(channel) => channel.recv(),
            None => Err(IpcError::InvalidChannel),
        };
        proof {
            if r is Err {
                assert(self.channel_slots() =~= old(self).channel_slots());
            }
        }
        r
    }

    /// Non-blocking check whether a message is outstanding on a channel.
    pub fn msg_poll(&self, channel_id: u64) -> (r: Result<bool, IpcError>)
        requires
            self.wf(),
        ensures
            match r {
                Ok(b) => self.channel_ok(channel_id) && b == (self.channel_at(
                    channel_id,
                ).pending_len() > 0),
                Err(e) => e == IpcError::InvalidChannel && !self.channel_ok(channel_id),
            },
    {
        if channel_id >= MAX_IPC_CHANNELS as u64 {
            return Err(IpcError::InvalidChannel);
        }
        let cid = channel_id as usize;
        match &self.channels[cid] {
            Some(channel) => Ok(channel.poll()),
            None => Err(IpcError::InvalidChannel),
        }
    }

    /// Number of outstanding messages on a live channel.
    pub fn channel_pending_count(&self, channel_id: u64) -> (r: Result<usize, IpcError>)
        requires
            self.wf(),
        ensures
            match r {
                Ok(n) => self.channel_ok(channel_id) && n == self.channel_at(
                    channel_id,
                ).pending_len(),
                Err(e) => e == IpcError::InvalidChannel && !self.channel_ok(channel_id),
            },
    {
        if channel_id >= MAX_IPC_CHANNELS as u64 {
            return Err(IpcError::InvalidChannel);
        }
        let cid = channel_id as usize;
        match &self.channels[cid] {
            Some(channel) => Ok(channel.pending_count()),
            None => Err(IpcError::InvalidChannel),
        }
    }
}

} // verus!
