use solana_allocator::bump::{
    BumpAllocator, Layout, HEAP_LENGTH, HEAP_START_ADDRESS, PROGRAM_INPUT_ADDRESS,
};

const START: usize = 0x1000;

fn allocator(len: usize) -> BumpAllocator<u64> {
    BumpAllocator::new(START, vec![0u8; len], len, 7u64).expect("header fits")
}

fn layout(size: usize, align: usize) -> Layout {
    Layout::from_size_align(size, align).expect("power of two")
}

#[test]
fn layout_requires_power_of_two() {
    assert!(Layout::from_size_align(8, 3).is_none());
    assert!(Layout::from_size_align(8, 0).is_none());
    assert!(Layout::from_size_align(8, 16).is_some());
}

#[test]
fn header_must_fit_safe_region() {
    assert!(BumpAllocator::new(START, vec![0u8; 64], 4, 0u64).is_none());
    assert!(BumpAllocator::new(START, vec![0u8; HEAP_LENGTH], HEAP_LENGTH, [0u8; 64]).is_some());
}

#[test]
fn global_state_is_kept() {
    let a = allocator(256);
    assert_eq!(*a.global(), 7);
    assert_eq!(a.end_position(), None);
}

#[test]
fn first_allocation_follows_header() {
    let mut a = allocator(256);
    let header = std::mem::size_of::<(Option<usize>, u64)>();
    let p = a.allocate(layout(8, 8)).unwrap();
    assert_eq!(p, START + header);
    assert_eq!(a.end_position(), Some(p + 8));
}

#[test]
fn allocation_rounds_up_to_alignment() {
    let mut a = allocator(256);
    let p = a.allocate(layout(3, 1)).unwrap();
    let q = a.allocate(layout(4, 16)).unwrap();
    assert_eq!(q % 16, 0);
    assert!(q >= p + 3 && q < p + 3 + 16);
}

#[test]
fn free_last_allocation_rolls_back() {
    let mut a = allocator(512);
    let mut ptrs = Vec::new();
    for size in [8usize, 16, 24, 8] {
        ptrs.push(a.allocate(layout(size, 8)).unwrap());
    }
    let before_last = ptrs[2] + 24;
    assert_eq!(a.end_position(), Some(ptrs[3] + 8));
    a.deallocate(ptrs[3], layout(8, 8));
    assert_eq!(a.end_position(), Some(before_last));
    assert_eq!(a.end_position(), Some(ptrs[3]));
}

#[test]
fn free_earlier_allocation_leaks() {
    let mut a = allocator(512);
    let p = a.allocate(layout(16, 8)).unwrap();
    let q = a.allocate(layout(16, 8)).unwrap();
    a.deallocate(p, layout(16, 8));
    assert_eq!(a.end_position(), Some(q + 16));
}

#[test]
fn grow_last_in_place() {
    let mut a = allocator(512);
    let _ = a.allocate(layout(8, 8)).unwrap();
    let p = a.allocate(layout(8, 8)).unwrap();
    let r = a.reallocate(p, layout(8, 8), 64).unwrap();
    assert_eq!(r, p);
    assert_eq!(a.end_position(), Some(p + 64));
    let s = a.reallocate(p, layout(64, 8), 4).unwrap();
    assert_eq!(s, p);
    assert_eq!(a.end_position(), Some(p + 4));
}

#[test]
fn grow_earlier_moves_and_copies() {
    let mut a = allocator(512);
    let p = a.allocate(layout(4, 4)).unwrap();
    a.write(p, &[1, 2, 3, 4]);
    let q = a.allocate(layout(8, 8)).unwrap();
    let r = a.reallocate(p, layout(4, 4), 12).unwrap();
    assert_ne!(r, p);
    assert!(r >= q + 8);
    assert_eq!(a.read(r, 4), &[1, 2, 3, 4]);
    assert_eq!(a.read(p, 4), &[1, 2, 3, 4]);
    assert_eq!(a.end_position(), Some(r + 12));
}

#[test]
fn shrink_earlier_stays() {
    let mut a = allocator(512);
    let p = a.allocate(layout(16, 8)).unwrap();
    let q = a.allocate(layout(8, 8)).unwrap();
    assert_eq!(a.reallocate(p, layout(16, 8), 4), Some(p));
    assert_eq!(a.end_position(), Some(q + 8));
}

#[test]
fn allocation_past_limit_fails_every_time() {
    let mut a = allocator(128);
    let p = a.allocate(layout(16, 8)).unwrap();
    let end = a.end_position();
    assert_eq!(a.allocate(layout(200, 8)), None);
    assert_eq!(a.end_position(), end);
    assert_eq!(a.allocate(layout(200, 8)), None);
    assert_eq!(a.end_position(), end);
    assert_eq!(a.reallocate(p, layout(16, 8), 500), None);
    assert_eq!(a.end_position(), end);
    let rest = a.heap_limit() - end.unwrap();
    assert!(a.allocate(layout(rest, 1)).is_some());
    assert_eq!(a.end_position(), Some(a.heap_limit()));
    assert_eq!(a.allocate(layout(1, 1)), None);
}

#[test]
fn write_then_read() {
    let mut a = allocator(64);
    let p = a.allocate(layout(3, 1)).unwrap();
    a.write(p, &[9, 8, 7]);
    assert_eq!(a.read(p, 3), &[9, 8, 7]);
    assert_eq!(a.heap_start(), START);
}

#[test]
fn runtime_region_takes_header_at_heap_start() {
    let mut a = BumpAllocator::for_runtime(vec![0u8; HEAP_LENGTH], 5u64).unwrap();
    assert_eq!(a.heap_start(), HEAP_START_ADDRESS as usize);
    assert_eq!(a.heap_limit(), HEAP_START_ADDRESS as usize + HEAP_LENGTH);
    assert!((a.heap_limit() as u64) <= PROGRAM_INPUT_ADDRESS);
    assert_eq!(*a.global(), 5);
    let p = a.allocate(layout(HEAP_LENGTH - 64, 8)).unwrap();
    assert!(p > HEAP_START_ADDRESS as usize);
    assert_eq!(a.allocate(layout(64, 8)), None);
}

#[test]
fn runtime_region_refuses_oversized_global() {
    assert!(BumpAllocator::for_runtime(vec![0u8; 2 * HEAP_LENGTH], [0u8; 40000]).is_none());
}
