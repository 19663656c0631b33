use lib::frame_alloc::{FrameAllocator, BITMAP_WORDS, PAGE_SIZE, RAM_SIZE, RAM_START, TOTAL_FRAMES};

#[test]
fn alloc_then_free_reuses_frame() {
    let mut fa = FrameAllocator::new();
    let first = fa.alloc_frame().unwrap();
    let second = fa.alloc_frame().unwrap();
    assert_eq!(second, first + PAGE_SIZE);

    fa.free_frame(first);
    for _ in 0..(TOTAL_FRAMES - 2) {
        let _ = fa.alloc_frame().unwrap();
    }
    let reused = fa.alloc_frame().unwrap();
    assert_eq!(reused, first);
}

#[test]
fn free_ignores_invalid_or_unaligned_address() {
    let mut fa = FrameAllocator::new();
    let frame = fa.alloc_frame().unwrap();

    fa.free_frame(frame + 1);
    assert!(fa.is_set(0));

    fa.free_frame(RAM_START - PAGE_SIZE);
    assert!(fa.is_set(0));
}

#[test]
fn alloc_returns_none_when_exhausted() {
    let mut fa = FrameAllocator::from_bitmap(vec![u64::MAX; BITMAP_WORDS], 0);
    assert_eq!(fa.alloc_frame(), None);
}

#[test]
fn first_frame_is_ram_start() {
    let mut fa = FrameAllocator::new();
    assert_eq!(fa.alloc_frame(), Some(RAM_START));
    assert!(fa.is_set(0));
    assert!(!fa.is_set(1));
}

#[test]
fn init_reserves_the_kernel_image() {
    let mut fa = FrameAllocator::new();
    fa.init(RAM_START + 3 * PAGE_SIZE + 1);
    assert!(fa.is_set(0) && fa.is_set(1) && fa.is_set(2) && fa.is_set(3));
    assert!(!fa.is_set(4));
    assert_eq!(fa.alloc_frame(), Some(RAM_START + 4 * PAGE_SIZE));
}

#[test]
fn scan_wraps_around_to_the_start() {
    let mut bitmap = vec![0u64; BITMAP_WORDS];
    bitmap[BITMAP_WORDS - 1] = 1u64 << 63;
    let mut fa = FrameAllocator::from_bitmap(bitmap, TOTAL_FRAMES - 1);
    assert_eq!(fa.alloc_frame(), Some(RAM_START));
}

#[test]
fn free_of_last_frame_and_end_of_ram() {
    let mut fa = FrameAllocator::from_bitmap(vec![u64::MAX; BITMAP_WORDS], 0);
    fa.free_frame(RAM_START + RAM_SIZE);
    assert_eq!(fa.alloc_frame(), None);
    fa.free_frame(RAM_START + RAM_SIZE - PAGE_SIZE);
    assert_eq!(fa.alloc_frame(), Some(RAM_START + RAM_SIZE - PAGE_SIZE));
}
