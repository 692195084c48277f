use diskallocator::{calc_byte_skip_for_alignment, ArenaError, BlockLayout, BumpArena, Op, Plan};

const BASE: usize = 4096;
const STORAGE: usize = 512 * 1024 * 1024 * 1024;

fn layout(size: usize, align: usize) -> BlockLayout {
    BlockLayout { size, align }
}

/// Plans and applies a request with the backing file resized as planned.
fn run(arena: &mut BumpArena, op: Op) -> Result<Plan, ArenaError> {
    let planned = arena.plan(op);
    let applied = arena.apply(op, true);
    assert_eq!(planned, applied);
    applied
}

fn allocate(arena: &mut BumpArena, size: usize, align: usize) -> usize {
    let plan = run(arena, Op::Allocate { layout: layout(size, align) }).unwrap();
    assert_eq!(plan.len, size);
    arena.base() + plan.start.unwrap()
}

#[test]
fn alloc_grow_shrink() {
    let mut arena = BumpArena::new(BASE, STORAGE);
    assert_eq!(arena.size(), 0);
    let _alloc1 = allocate(&mut arena, 64, 8);
    assert_eq!(arena.size(), 64);
    let alloc2 = allocate(&mut arena, 64_000, 16);
    assert_eq!(arena.size(), 64_064);
    let shrunk = run(
        &mut arena,
        Op::Shrink { addr: alloc2, old: layout(64_000, 16), new: layout(64, 16) },
    )
    .unwrap();
    assert_eq!(shrunk.start, None);
    assert_eq!(arena.size(), 128);
    let grown = run(
        &mut arena,
        Op::Grow { addr: alloc2, old: layout(64, 16), new: layout(128_000, 16) },
    )
    .unwrap();
    assert_eq!(grown.start, None);
    assert_eq!(arena.size(), 128_064);
}

#[test]
fn golden_addresses() {
    let mut arena = BumpArena::new(BASE, STORAGE);
    assert_eq!(allocate(&mut arena, 64, 8), BASE);
    assert_eq!(allocate(&mut arena, 64_000, 16), BASE + 64);
    assert_eq!(arena.cap(), STORAGE);
}

#[test]
fn byte_skip_values() {
    assert_eq!(calc_byte_skip_for_alignment(0, 8), 0);
    assert_eq!(calc_byte_skip_for_alignment(5, 8), 3);
    assert_eq!(calc_byte_skip_for_alignment(64, 16), 0);
    assert_eq!(calc_byte_skip_for_alignment(65, 16), 15);
    assert_eq!(calc_byte_skip_for_alignment(7, 1), 0);
}

#[test]
fn allocation_is_padded_to_alignment() {
    let mut arena = BumpArena::new(BASE, STORAGE);
    assert_eq!(allocate(&mut arena, 3, 1), BASE);
    let addr = allocate(&mut arena, 8, 8);
    assert_eq!(addr, BASE + 8);
    assert_eq!(addr % 8, 0);
    assert_eq!(arena.size(), 16);
    let addr = allocate(&mut arena, 1, 64);
    assert_eq!(addr % 64, 0);
    assert_eq!(arena.size(), 65);
}

#[test]
fn failed_resize_keeps_size() {
    let mut arena = BumpArena::new(BASE, STORAGE);
    allocate(&mut arena, 100, 4);
    let op = Op::Allocate { layout: layout(50, 8) };
    assert_eq!(arena.plan(op).unwrap().new_size, 154);
    assert_eq!(arena.apply(op, false), Err(ArenaError::Io));
    assert_eq!(arena.size(), 100);
    let op = Op::Deallocate { addr: BASE, layout: layout(100, 4) };
    assert_eq!(arena.apply(op, false), Err(ArenaError::Io));
    assert_eq!(arena.size(), 100);
}

#[test]
fn no_resize_needs_no_storage() {
    let mut arena = BumpArena::new(BASE, STORAGE);
    allocate(&mut arena, 16, 8);
    let op = Op::Allocate { layout: layout(0, 8) };
    let plan = arena.plan(op).unwrap();
    assert!(!plan.resize);
    assert_eq!(plan.start, Some(16));
    assert_eq!(arena.apply(op, false), Ok(plan));
    assert_eq!(arena.size(), 16);
}

#[test]
fn capacity_boundary() {
    let mut arena = BumpArena::new(BASE, 100);
    allocate(&mut arena, 90, 1);
    let op = Op::Allocate { layout: layout(8, 8) };
    assert_eq!(arena.apply(op, true), Err(ArenaError::CapacityExceeded));
    assert_eq!(arena.size(), 90);
    let op = Op::Allocate { layout: layout(usize::MAX, 1) };
    assert_eq!(arena.apply(op, true), Err(ArenaError::CapacityExceeded));
    assert_eq!(arena.size(), 90);
    let op = Op::Allocate { layout: layout(4, 1024) };
    assert_eq!(arena.apply(op, true), Err(ArenaError::CapacityExceeded));
    assert_eq!(arena.size(), 90);
    assert_eq!(allocate(&mut arena, 10, 1), BASE + 90);
    assert_eq!(arena.size(), 100);
}

#[test]
fn grow_past_cap_fails() {
    let mut arena = BumpArena::new(BASE, 100);
    let addr = allocate(&mut arena, 40, 8);
    let op = Op::Grow { addr, old: layout(40, 8), new: layout(101, 8) };
    assert_eq!(arena.apply(op, true), Err(ArenaError::CapacityExceeded));
    assert_eq!(arena.size(), 40);
}

#[test]
fn grow_across_alignments_unsupported() {
    let mut arena = BumpArena::new(BASE, STORAGE);
    let addr = allocate(&mut arena, 40, 8);
    let op = Op::Grow { addr, old: layout(40, 8), new: layout(80, 16) };
    assert_eq!(arena.plan(op), Err(ArenaError::UnsupportedOperation));
    assert_eq!(arena.apply(op, true), Err(ArenaError::UnsupportedOperation));
    assert_eq!(arena.size(), 40);
}

#[test]
fn grow_non_tail_moves() {
    let mut arena = BumpArena::new(BASE, STORAGE);
    let first = allocate(&mut arena, 40, 8);
    allocate(&mut arena, 4, 4);
    let plan = run(&mut arena, Op::Grow { addr: first, old: layout(40, 8), new: layout(80, 8) })
        .unwrap();
    assert_eq!(plan.start, Some(48));
    assert_eq!(plan.len, 80);
    assert_eq!(arena.size(), 128);
}

#[test]
fn non_tail_shrink_and_deallocate_are_noops() {
    let mut arena = BumpArena::new(BASE, STORAGE);
    let first = allocate(&mut arena, 40, 8);
    allocate(&mut arena, 8, 8);
    let plan = run(&mut arena, Op::Shrink { addr: first, old: layout(40, 8), new: layout(8, 8) })
        .unwrap();
    assert_eq!(plan.start, None);
    assert!(!plan.resize);
    assert_eq!(arena.size(), 48);
    let plan = run(&mut arena, Op::Deallocate { addr: first, layout: layout(40, 8) }).unwrap();
    assert!(!plan.resize);
    assert_eq!(arena.size(), 48);
}

#[test]
fn tail_deallocate_gives_bytes_back() {
    let mut arena = BumpArena::new(BASE, STORAGE);
    allocate(&mut arena, 3, 1);
    let second = allocate(&mut arena, 8, 8);
    assert_eq!(arena.size(), 16);
    let plan = run(&mut arena, Op::Deallocate { addr: second, layout: layout(8, 8) }).unwrap();
    assert!(plan.resize);
    assert_eq!(plan.new_size, 8);
    assert_eq!(arena.size(), 8);
}

#[test]
fn address_below_base_is_never_tail() {
    let mut arena = BumpArena::new(BASE, STORAGE);
    allocate(&mut arena, 64, 8);
    let op = Op::Deallocate { addr: BASE - 16, layout: layout(80, 8) };
    assert!(!run(&mut arena, op).unwrap().resize);
    assert_eq!(arena.size(), 64);
}

#[test]
fn many_allocations_do_not_overlap() {
    let mut arena = BumpArena::new(BASE, STORAGE);
    let mut blocks: Vec<(usize, usize)> = Vec::new();
    let mut padded = 0usize;
    for i in 0..200usize {
        let size = (i * 37) % 101;
        let align = 1usize << (i % 7);
        let before = arena.size();
        let addr = allocate(&mut arena, size, align);
        assert_eq!(addr % align, 0);
        padded += (align - before % align) % align + size;
        blocks.push((addr, addr + size));
    }
    for (i, a) in blocks.iter().enumerate() {
        for b in blocks.iter().skip(i + 1) {
            assert!(a.1 <= b.0);
        }
    }
    assert_eq!(arena.size(), padded);
}
