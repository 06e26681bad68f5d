use zen_core::capability::CapabilityRegistry;
use zen_core::capability::Permission;
use zen_core::ipc::IpcError;
use zen_core::ipc::IpcRegistry;
use zen_core::ipc::MessageHeader;
use zen_core::ipc::RingBuffer;
use zen_core::ipc::MAX_MESSAGE_SIZE;
use zen_core::ipc::RING_BUFFER_SIZE;

fn header(id: u64, sender: u32, receiver: u32, length: u32) -> MessageHeader {
    MessageHeader {
        id,
        sender,
        receiver,
        length,
        msg_type: 0,
    }
}

#[test]
fn ring_buffer_fifo_order() {
    let mut rb = RingBuffer::new();
    for id in 0..5u64 {
        let payload = [id as u8; 3];
        rb.send(header(id, 1, 2, 3), &payload).unwrap();
    }
    for id in 0..5u64 {
        let (h, payload) = rb.recv().unwrap();
        assert_eq!(h.id, id);
        assert_eq!(payload, vec![id as u8; 3]);
    }
    assert_eq!(rb.recv().err(), Some(IpcError::BufferEmpty));
}

#[test]
fn ring_buffer_capacity_is_one_less_than_slots() {
    let mut rb = RingBuffer::new();
    for id in 0..(RING_BUFFER_SIZE as u64 - 1) {
        rb.send(header(id, 1, 2, 0), &[]).unwrap();
    }
    assert_eq!(rb.pending_count(), RING_BUFFER_SIZE - 1);
    let overflow = rb.send(header(99, 1, 2, 0), &[]);
    assert_eq!(overflow, Err(IpcError::BufferFull));
    // One receive frees one slot for one more send.
    rb.recv().unwrap();
    rb.send(header(99, 1, 2, 0), &[]).unwrap();
}

#[test]
fn empty_ring_reports_empty_and_polls_false() {
    let mut rb = RingBuffer::new();
    assert_eq!(rb.recv().err(), Some(IpcError::BufferEmpty));
    assert!(!rb.poll());
    rb.send(header(1, 1, 2, 0), &[]).unwrap();
    assert!(rb.poll());
}

#[test]
fn oversized_payload_never_moves_cursors() {
    let mut rb = RingBuffer::new();
    let big = vec![0u8; MAX_MESSAGE_SIZE + 1];
    assert_eq!(
        rb.send(header(1, 1, 2, 0), &big),
        Err(IpcError::MessageTooLarge)
    );
    // A header declaring more than a slot holds is oversized too.
    assert_eq!(
        rb.send(header(1, 1, 2, MAX_MESSAGE_SIZE as u32 + 1), &[]),
        Err(IpcError::MessageTooLarge)
    );
    assert_eq!(rb.pending_count(), 0);
    assert!(!rb.poll());
}

#[test]
fn payload_at_max_size_is_accepted() {
    let mut rb = RingBuffer::new();
    let max = vec![7u8; MAX_MESSAGE_SIZE];
    rb.send(header(1, 1, 2, MAX_MESSAGE_SIZE as u32), &max).unwrap();
    let (h, payload) = rb.recv().unwrap();
    assert_eq!(h.length as usize, MAX_MESSAGE_SIZE);
    assert_eq!(payload, max);
}

#[test]
fn channel_ids_are_sequential() {
    let mut ipc = IpcRegistry::init();
    assert_eq!(ipc.create_channel(), Ok(0));
    assert_eq!(ipc.create_channel(), Ok(1));
    assert_eq!(ipc.create_channel(), Ok(2));
}

#[test]
fn unknown_channel_is_invalid() {
    let mut ipc = IpcRegistry::init();
    let mut caps = CapabilityRegistry::init();
    assert_eq!(ipc.msg_poll(0), Err(IpcError::InvalidChannel));
    assert_eq!(ipc.msg_recv(0).err(), Some(IpcError::InvalidChannel));
    assert_eq!(
        ipc.msg_send(&mut caps, 0, header(1, 0, 2, 0), &[], 0),
        Err(IpcError::InvalidChannel)
    );
    ipc.create_channel().unwrap();
    assert_eq!(ipc.msg_poll(1), Err(IpcError::InvalidChannel));
    assert_eq!(ipc.msg_poll(0), Ok(false));
}

#[test]
fn send_heads_through_capability_check() {
    let mut ipc = IpcRegistry::init();
    let mut caps = CapabilityRegistry::init();
    let channel = ipc.create_channel().unwrap();
    // The root process holds every permission from boot.
    ipc.msg_send(&mut caps, channel, header(1, 0, 2, 0), &[], 0)
        .unwrap();
    assert_eq!(ipc.msg_poll(channel), Ok(true));
}

#[test]
fn end_to_end_grant_send_recv() {
    let mut ipc = IpcRegistry::init();
    let mut caps = CapabilityRegistry::init();
    let channel = ipc.create_channel().unwrap();

    let bit = 1u64 << zen_core::capability::permission_bit(Permission::IpcSend);
    caps.grant(7, bit).unwrap();

    let h = header(1, 7, 9, 5);
    ipc.msg_send(&mut caps, channel, h, &[1, 2, 3, 4, 5], 0)
        .unwrap();

    let (rh, payload) = ipc.msg_recv(channel).unwrap();
    assert_eq!(rh, h);
    assert_eq!(payload, vec![1, 2, 3, 4, 5]);

    assert_eq!(ipc.msg_recv(channel).err(), Some(IpcError::BufferEmpty));
}

#[test]
fn ungranted_sender_is_denied_and_audited() {
    let mut ipc = IpcRegistry::init();
    let mut caps = CapabilityRegistry::init();
    let channel = ipc.create_channel().unwrap();

    let r = ipc.msg_send(&mut caps, channel, header(1, 3, 9, 2), &[1, 2], 55);
    assert_eq!(r, Err(IpcError::PermissionDenied));
    assert_eq!(ipc.channel_pending_count(channel), Ok(0));
    assert_eq!(ipc.msg_poll(channel), Ok(false));

    // The denial is observable in the audit log, naming the sender.
    assert_eq!(caps.audit().write_position(), 1);
    let entry = caps.audit().entry_at(0);
    assert_eq!(entry.process_id, 3);
    assert_eq!(entry.timestamp, 55);
}

#[test]
fn registry_send_is_fifo_across_capacity() {
    let mut ipc = IpcRegistry::init();
    let mut caps = CapabilityRegistry::init();
    let channel = ipc.create_channel().unwrap();
    for id in 0..(RING_BUFFER_SIZE as u64 - 1) {
        ipc.msg_send(&mut caps, channel, header(id, 0, 2, 1), &[id as u8], 0)
            .unwrap();
    }
    assert_eq!(
        ipc.msg_send(&mut caps, channel, header(99, 0, 2, 0), &[], 0),
        Err(IpcError::BufferFull)
    );
    for id in 0..(RING_BUFFER_SIZE as u64 - 1) {
        let (h, payload) = ipc.msg_recv(channel).unwrap();
        assert_eq!(h.id, id);
        assert_eq!(payload, vec![id as u8]);
    }
}

#[test]
fn oversized_send_beats_permission_check() {
    let mut ipc = IpcRegistry::init();
    let mut caps = CapabilityRegistry::init();
    let channel = ipc.create_channel().unwrap();
    let big = vec![0u8; MAX_MESSAGE_SIZE + 1];
    // Sender 3 holds nothing, but the size check comes first and no
    // audit entry is written.
    assert_eq!(
        ipc.msg_send(&mut caps, channel, header(1, 3, 2, 0), &big, 0),
        Err(IpcError::MessageTooLarge)
    );
    assert_eq!(caps.audit().write_position(), 0);
}
