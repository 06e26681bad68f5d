use zen_core::allocator::align_up;
use zen_core::allocator::BumpAllocator;
use zen_core::boot::detect_firmware;
use zen_core::boot::verify_secure_boot;
use zen_core::boot::FirmwareType;
use zen_core::edge_registry::EdgeCase;
use zen_core::edge_registry::EdgeRegistry;
use zen_core::edge_registry::MAX_EDGE_CASES;
use zen_core::gpu::map_to_gpu;
use zen_core::interrupts::InterruptIndex;
use zen_core::interrupts::PIC_1_OFFSET;
use zen_core::interrupts::PIC_2_OFFSET;
use zen_core::memory::BootInfoFrameAllocator;
use zen_core::memory::MemoryRegion;
use zen_core::percpu::current_cpu_id;
use zen_core::percpu::PerCpuData;
use zen_core::percpu::SCRATCH_BUFFER_SIZE;
use zen_core::storage;

#[test]
fn align_up_rounds_to_multiples() {
    assert_eq!(align_up(5, 8), 8);
    assert_eq!(align_up(16, 8), 16);
    assert_eq!(align_up(17, 8), 24);
    assert_eq!(align_up(5, 1), 5);
    assert_eq!(align_up(0, 4096), 0);
    assert_eq!(align_up(1, 4096), 4096);
}

#[test]
fn bump_allocator_places_and_reclaims() {
    let mut a = BumpAllocator::new();
    a.init(1000, 100);
    assert_eq!(a.allocate(10, 8), Some(1000));
    assert_eq!(a.allocate(4, 8), Some(1016));
    // A block that cannot fit the remaining window is refused.
    assert_eq!(a.allocate(1000, 1), None);
    // Returning every allocation reclaims the whole window at once.
    a.dealloc();
    a.dealloc();
    assert_eq!(a.allocate(1, 1), Some(1000));
}

#[test]
fn edge_registry_records_in_order() {
    let mut reg = EdgeRegistry::new();
    assert!(reg.entries().is_empty());
    reg.register(7, 1, 42, 100);
    reg.register(8, 2, 43, 101);
    let entries = reg.entries();
    assert_eq!(entries.len(), 2);
    assert_eq!(entries[0].code, 7);
    assert_eq!(entries[0].line, 42);
    assert_eq!(entries[1].timestamp, 101);
    let e = EdgeCase::new(1, 2, 3, 4);
    assert_eq!(e.file_id, 2);
}

#[test]
fn edge_registry_drops_past_capacity() {
    let mut reg = EdgeRegistry::new();
    for i in 0..(MAX_EDGE_CASES as u32 + 5) {
        reg.register(i, 0, 0, 0);
    }
    assert_eq!(reg.entries().len(), MAX_EDGE_CASES);
    assert_eq!(reg.entries()[MAX_EDGE_CASES - 1].code, MAX_EDGE_CASES as u32 - 1);
}

#[test]
fn boot_detection_defaults() {
    assert_eq!(detect_firmware(), FirmwareType::Uefi);
    assert!(verify_secure_boot().is_ok());
}

#[test]
fn interrupt_vectors() {
    assert_eq!(PIC_1_OFFSET, 32);
    assert_eq!(PIC_2_OFFSET, 40);
    assert_eq!(InterruptIndex::Timer.as_u8(), 32);
    assert_eq!(InterruptIndex::Keyboard.as_u8(), 33);
    assert_eq!(InterruptIndex::Timer.as_usize(), 32);
}

#[test]
fn per_cpu_record() {
    let d = PerCpuData::new(3);
    assert_eq!(d.cpu_id, 3);
    assert_eq!(d.scratch_buffer.len(), SCRATCH_BUFFER_SIZE);
    assert!(d.scratch_buffer.iter().all(|&b| b == 0));
    assert_eq!(d.current_task, 0);
    assert_eq!(current_cpu_id(), 0);
}

#[test]
fn frame_allocator_walks_usable_regions() {
    let regions = vec![
        MemoryRegion { start: 0x1000, end: 0x3000, usable: true },
        MemoryRegion { start: 0x3000, end: 0x8000, usable: false },
        // A partial trailing frame still has a start address inside.
        MemoryRegion { start: 0x10000, end: 0x10001, usable: true },
    ];
    let mut frames = BootInfoFrameAllocator::init(regions);
    assert_eq!(frames.allocate_frame(), Some(0x1000));
    assert_eq!(frames.allocate_frame(), Some(0x2000));
    assert_eq!(frames.allocate_frame(), Some(0x10000));
    assert_eq!(frames.allocate_frame(), None);
    assert_eq!(frames.allocate_frame(), None);
}

#[test]
fn device_stubs_answer_empty_transfers() {
    let mut buffer = vec![1u8, 2, 3];
    assert_eq!(storage::read(0, 0, &mut buffer), Ok(0));
    assert_eq!(buffer, vec![1, 2, 3]);
    assert_eq!(storage::write(0, 0, &[1, 2]), Ok(0));
    assert_eq!(map_to_gpu(&[1, 2, 3]), Ok(0));
}
