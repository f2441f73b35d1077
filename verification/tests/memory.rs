use rikos::mem::frame::{BootInfoFrameAllocator, ElfRegion, FrameSource, MemoryRegion};
use rikos::mem::remap::TinyAllocator;

fn region(start: u64, end: u64, typ: u32) -> MemoryRegion {
    MemoryRegion { start, end, typ }
}

#[test]
fn frames_come_from_available_regions_in_order() {
    let map = vec![
        region(0x1000, 0x3000, 1),
        region(0x3000, 0x5000, 2),
        region(0x5000, 0x6000, 1),
        region(0x8000, 0x9000, 3),
    ];
    let mut a = BootInfoFrameAllocator::init(map, vec![]);
    assert_eq!(a.allocate_frame(), Some(0x1000));
    assert_eq!(a.allocate_frame(), Some(0x2000));
    assert_eq!(a.allocate_frame(), Some(0x5000));
    assert_eq!(a.allocate_frame(), None);
    assert_eq!(a.allocate_frame(), None);
}

#[test]
fn unaligned_region_steps_from_its_start() {
    let map = vec![region(0x1800, 0x3800, 1), region(0x10000, 0x10001, 1)];
    let mut a = BootInfoFrameAllocator::init(map, vec![]);
    assert_eq!(a.allocate_frame(), Some(0x1000));
    assert_eq!(a.allocate_frame(), Some(0x2000));
    assert_eq!(a.allocate_frame(), Some(0x10000));
    assert_eq!(a.allocate_frame(), None);
}

#[test]
fn empty_and_inverted_regions_give_no_frames() {
    let map = vec![region(0x5000, 0x5000, 1), region(0x9000, 0x4000, 1)];
    let mut a = BootInfoFrameAllocator::init(map, vec![]);
    assert_eq!(a.allocate_frame(), None);
}

#[test]
fn frame_clear_of_the_section_is_handed_out() {
    let map = vec![region(0x1000, 0x6000, 1)];
    let sections = vec![ElfRegion { start: 0x3000, end: 0x3800 }];
    let mut a = BootInfoFrameAllocator::init(map, sections);
    assert_eq!(a.allocate_frame(), Some(0x1000));
    // The section is used up after one allocation, so its frame is handed out next.
    assert_eq!(a.allocate_frame(), Some(0x2000));
    assert_eq!(a.allocate_frame(), Some(0x3000));
}

#[test]
fn frames_holding_the_section_are_stepped_past() {
    let map = vec![region(0x1000, 0x6000, 1)];
    let sections = vec![ElfRegion { start: 0x1000, end: 0x1fff }];
    let mut a = BootInfoFrameAllocator::init(map, sections);
    // Frame 0x1000 holds the section; the walk hands out the frame after the
    // first clear one.
    assert_eq!(a.allocate_frame(), Some(0x3000));
    assert_eq!(a.allocate_frame(), Some(0x4000));
    assert_eq!(a.allocate_frame(), Some(0x5000));
    assert_eq!(a.allocate_frame(), None);
}

#[test]
fn section_spanning_frames_and_the_next_section() {
    let map = vec![region(0x0, 0x8000, 1)];
    let sections = vec![
        ElfRegion { start: 0x0, end: 0x1800 },
        ElfRegion { start: 0x5000, end: 0x5100 },
    ];
    let mut a = BootInfoFrameAllocator::init(map, sections);
    // Frames 0x0 and 0x1000 hold an end of the first section; 0x2000 is clear,
    // and the frame after it is handed out.
    assert_eq!(a.allocate_frame(), Some(0x3000));
    // The second section lies in frame 0x5000, not in frame 0x4000.
    assert_eq!(a.allocate_frame(), Some(0x4000));
    assert_eq!(a.allocate_frame(), Some(0x5000));
}

#[test]
fn walking_off_the_end_gives_nothing() {
    let map = vec![region(0x1000, 0x3000, 1)];
    let sections = vec![ElfRegion { start: 0x1000, end: 0x2fff }];
    let mut a = BootInfoFrameAllocator::init(map, sections);
    assert_eq!(a.allocate_frame(), None);
    assert_eq!(a.allocate_frame(), None);
}

#[test]
fn tiny_allocator_takes_three_frames() {
    let map = vec![region(0x1000, 0x3000, 1)];
    let mut boot = BootInfoFrameAllocator::init(map, vec![]);
    let mut tiny = TinyAllocator::new(&mut boot);
    assert_eq!(tiny.allocate_frame(), Some(0x1000));
    assert_eq!(tiny.allocate_frame(), Some(0x2000));
    assert_eq!(tiny.allocate_frame(), None);
    tiny.deallocate_frame(0x9000);
    tiny.deallocate_frame(0xa000);
    tiny.deallocate_frame(0xb000);
    assert_eq!(tiny.allocate_frame(), Some(0x9000));
    assert_eq!(tiny.allocate_frame(), Some(0xa000));
    tiny.deallocate_frame(0xc000);
    assert_eq!(tiny.allocate_frame(), Some(0xc000));
    assert_eq!(tiny.allocate_frame(), Some(0xb000));
    assert_eq!(tiny.allocate_frame(), None);
}

#[test]
fn frames_are_handed_out_once_each() {
    let map = vec![region(0x0, 0x10000, 1), region(0x20000, 0x24000, 1)];
    let sections = vec![
        ElfRegion { start: 0x3000, end: 0x4000 },
        ElfRegion { start: 0x9000, end: 0x9100 },
        ElfRegion { start: 0x21000, end: 0x21fff },
    ];
    let mut a = BootInfoFrameAllocator::init(map, sections);
    let mut seen = Vec::new();
    while let Some(f) = a.allocate_frame() {
        assert_eq!(f % 4096, 0);
        assert!(!seen.contains(&f));
        seen.push(f);
    }
    assert!(!seen.is_empty());
}

#[test]
fn readiness_checks_addresses() {
    let ok = BootInfoFrameAllocator::init(vec![region(0x1000, 0x2000, 1)], vec![]);
    assert!(ok.ready_to_allocate());
    // A region reaching up to the top of the physical address space: only its
    // first address is looked at by the first allocation.
    let reaching = BootInfoFrameAllocator::init(vec![region(0x1000, 1 << 52, 1)], vec![]);
    assert!(reaching.ready_to_allocate());
    // A region starting beyond the physical address space.
    let high = BootInfoFrameAllocator::init(vec![region(1 << 52, (1 << 52) + 0x2000, 1)], vec![]);
    assert!(!high.ready_to_allocate());
    // Reserved regions may lie anywhere.
    let reserved = BootInfoFrameAllocator::init(vec![region(0x1000, u64::MAX, 2)], vec![]);
    assert!(reserved.ready_to_allocate());
    // A section beyond the physical address space.
    let section = BootInfoFrameAllocator::init(
        vec![region(0x1000, 0x2000, 1)],
        vec![ElfRegion { start: 1 << 52, end: (1 << 52) + 8 }],
    );
    assert!(!section.ready_to_allocate());
}

#[test]
fn regions_not_reached_yet_may_lie_high() {
    let map = vec![region(0x1000, 0x2000, 1), region(1 << 52, (1 << 52) + 0x1000, 1)];
    let mut a = BootInfoFrameAllocator::init(map, vec![]);
    assert!(a.ready_to_allocate());
    assert_eq!(a.allocate_frame(), Some(0x1000));
    // The next allocation would look at the address beyond the limit.
    assert!(!a.ready_to_allocate());
}

#[test]
fn last_frame_below_the_limit() {
    let limit: u64 = 1 << 52;
    // Without a section the top frame is handed out.
    let mut plain = BootInfoFrameAllocator::init(vec![region(limit - 0x1000, limit, 1)], vec![]);
    assert!(plain.ready_to_allocate());
    assert_eq!(plain.allocate_frame(), Some(limit - 0x1000));
    // With a section the end of that frame, the limit itself, is computed.
    let stepping = BootInfoFrameAllocator::init(
        vec![region(limit - 0x1000, limit, 1)],
        vec![ElfRegion { start: 0x1000, end: 0x2000 }],
    );
    assert!(!stepping.ready_to_allocate());
}

#[test]
fn walk_past_a_section_looks_one_address_ahead() {
    let limit: u64 = 1 << 52;
    let map = vec![region(0x1000, 0x3000, 1), region(limit, limit + 0x1000, 1)];
    // Frame 0x1000 holds the section, 0x2000 is clear; the walk then takes the
    // next address, which lies beyond the limit.
    let a = BootInfoFrameAllocator::init(map.clone(), vec![ElfRegion { start: 0x1000, end: 0x1800 }]);
    assert!(!a.ready_to_allocate());
    // When the first frame is clear, nothing beyond it is looked at.
    let b = BootInfoFrameAllocator::init(map, vec![ElfRegion { start: 0x8000, end: 0x8800 }]);
    assert!(b.ready_to_allocate());
}

#[test]
fn pool_filled_from_another_pool() {
    let map = vec![region(0x1000, 0x5000, 1)];
    let mut boot = BootInfoFrameAllocator::init(map, vec![]);
    let mut first = TinyAllocator::new(&mut boot);
    // The boot allocator moved on by three frames.
    assert_eq!(boot.allocate_frame(), Some(0x4000));
    let _ = first.allocate_frame();
    let mut second = TinyAllocator::new(&mut first);
    // The second pool holds what the first had left, in order, then nothing.
    assert_eq!(second.allocate_frame(), Some(0x2000));
    assert_eq!(second.allocate_frame(), Some(0x3000));
    assert_eq!(second.allocate_frame(), None);
    assert_eq!(first.allocate_frame(), None);
}
