use fipe::heap::Heap;
use fipe::immix::alloc_size_of;
use fipe::immix::blocks::{
    is_power_of_two, next_power_of_two, Block, BlockList, BlockMeta, BumpBlock, Hole, LargeBlock,
    BLOCK_CAPACITY, LINE_COUNT,
};
use fipe::immix::errors::{AllocError, BlockError, ImmixError};
use fipe::immix::mark::Mark;
use fipe::immix::ptr::{MetaPtr, PairPtr, RawPtr, OR};
use fipe::immix::size::{SizeClass, SizeClassError};
use fipe::immix::Immix;
use fipe::allocator;
use fipe::memory;
use fipe::memory::pointers::tagged_ptr::{Tagged, TaggedPtr, TAG_NUMBER, TAG_OBJECT, TAG_PAIR};
use fipe::object::environment::Environment;
use fipe::object::{Int, Object};

const WORD: usize = usize::BITS as usize / 8;

#[test]
fn alloc_size_rounds_up_to_words() {
    assert_eq!(alloc_size_of(0), 0);
    assert_eq!(alloc_size_of(1), WORD);
    assert_eq!(alloc_size_of(WORD), WORD);
    assert_eq!(alloc_size_of(WORD + 1), 2 * WORD);
}

#[test]
fn size_classes() {
    assert_eq!(SizeClass::from(0), Err(SizeClassError::TooBig));
    assert_eq!(SizeClass::from(1), Ok(SizeClass::Small));
    assert_eq!(SizeClass::from(256), Ok(SizeClass::Small));
    assert_eq!(SizeClass::from(257), Ok(SizeClass::Medium));
    assert_eq!(SizeClass::from(BLOCK_CAPACITY), Ok(SizeClass::Medium));
    assert_eq!(SizeClass::from(BLOCK_CAPACITY + 1), Ok(SizeClass::Large));
}

#[test]
fn powers_of_two() {
    assert!(!is_power_of_two(0));
    assert!(is_power_of_two(1));
    assert!(is_power_of_two(4096));
    assert!(!is_power_of_two(4097));
    assert_eq!(next_power_of_two(0), 1);
    assert_eq!(next_power_of_two(1), 1);
    assert_eq!(next_power_of_two(65281), 65536);
    assert_eq!(next_power_of_two(65537), 131072);
}

#[test]
fn blocks_need_a_power_of_two_size() {
    assert!(matches!(Block::new(100), Err(BlockError::BadSize(100))));
    assert_eq!(Block::new(4096).unwrap().size, 4096);
    assert!(matches!(LargeBlock::new(3), Err(BlockError::BadSize(3))));
    let large = LargeBlock::new(1 << 17).unwrap();
    assert!(large.is_marked() == false && large.is_unmarked() == false);
}

#[test]
fn large_block_marks() {
    let mut large = LargeBlock::new(1 << 17).unwrap();
    large.unmark();
    assert!(large.is_unmarked());
    large.set_mark(&Mark::Marked);
    assert!(large.is_marked());
}

fn expected_status(lines: &[char]) -> String {
    let mut buf = String::new();
    for (idx, flag) in lines.iter().enumerate() {
        buf.push(*flag);
        if (idx + 1) % 8 == 0 {
            buf += " ";
        }
        if (idx + 1) % 64 == 0 {
            buf += &format!(" {idx}\n");
        }
    }
    buf
}

#[test]
fn line_marks_and_their_report() {
    let mut meta = BlockMeta::new();
    assert!(meta.is_fresh());
    meta.mark_range(2, 4);
    meta.set_mark_line(&Mark::Allocated, 70);
    assert!(meta.is_marked(3));
    assert!(meta.is_unmarked(5));
    assert!(!meta.is_fresh());
    let mut flags = vec!['-'; LINE_COUNT];
    flags[2] = 'M';
    flags[3] = 'M';
    flags[4] = 'M';
    flags[70] = 'A';
    assert_eq!(meta.mark_status_str(), expected_status(&flags));
    let rows = meta.mark_status_vec_str();
    assert_eq!(rows.len(), 4);
    assert_eq!(rows[0], "-------- -------- -------- -------- -------- -------- -------- -------- 63".replacen("--------", "--MMM---", 1));
    assert_eq!(rows[3], "-------- -------- -------- -------- -------- -------- -------- -------- 255");
    meta.unmark_range(2, 4);
    meta.unmark_line(70);
    assert!(meta.is_fresh());
}

#[test]
fn hole_search_goes_up_to_a_marked_line() {
    let mut meta = BlockMeta::new();
    // no marked line ends the run: no hole is reported
    assert!(meta.find_hole(0, 300).is_none());
    meta.mark_line(10);
    match meta.find_hole(0, 300) {
        Some(Hole { start, end }) => assert_eq!((start, end), (0, 10)),
        None => panic!("expected a hole"),
    }
    // a run too short for the request is skipped
    meta.mark_line(1);
    match meta.find_hole(0, 300) {
        Some(Hole { start, end }) => assert_eq!((start, end), (2, 10)),
        None => panic!("expected a hole"),
    }
    assert!(meta.find_hole(0, 3000).is_none());
}

#[test]
fn bump_allocations_do_not_overlap() {
    let mut block = BumpBlock::new(7).unwrap();
    assert_eq!(block.id(), 7);
    let (m1, d1) = block.inner_alloc(100).unwrap();
    assert_eq!((m1, d1), (MetaPtr { low: 0, high: 0, block: 7 }, 0));
    let (m2, d2) = block.inner_alloc(300).unwrap();
    assert_eq!((m2, d2), (MetaPtr { low: 1, high: 2, block: 7 }, 256));
    assert!(d1 + 100 <= d2);
    assert!(!block.is_fresh());
    block.unmark();
    assert!(block.is_fresh());
}

#[test]
fn full_bump_block_refuses() {
    let mut block = BumpBlock::new(0).unwrap();
    assert!(block.inner_alloc(BLOCK_CAPACITY).is_ok());
    // the cursor has reached the limit
    assert_eq!(block.current_hole_size(), 0);
    assert!(matches!(block.inner_alloc(1), Err(BlockError::NoSpaceForAllocation)));
}

#[test]
fn block_list_allocates_by_size_class() {
    let mut list = BlockList::default();
    assert!(matches!(list.allocate(0), Err(AllocError::SizeTooBig)));
    let a = list.allocate(100).unwrap();
    assert_eq!(a, PairPtr { meta: OR::L(MetaPtr { low: 0, high: 0, block: 0 }), data: 0 });
    let b = list.allocate(1000).unwrap();
    assert_eq!(b, PairPtr { meta: OR::L(MetaPtr { low: 1, high: 4, block: 0 }), data: 256 });
    let c = list.allocate(BLOCK_CAPACITY + 1).unwrap();
    assert_eq!(c, PairPtr { meta: OR::R(1), data: 0 });
}

#[test]
fn block_list_moves_to_a_new_block_when_full() {
    let mut list = BlockList::new();
    let a = list.allocate(BLOCK_CAPACITY).unwrap();
    assert_eq!(a.meta, OR::L(MetaPtr { low: 0, high: 255, block: 0 }));
    let b = list.allocate(10).unwrap();
    assert_eq!(b, PairPtr { meta: OR::L(MetaPtr { low: 0, high: 0, block: 1 }), data: 0 });
}

#[test]
fn marks_and_sweep_of_a_block_list() {
    let mut list = BlockList::new();
    let small = list.allocate(100).unwrap();
    let large = list.allocate(BLOCK_CAPACITY + 1).unwrap();
    assert!(!list.is_unmarked(&small));
    assert!(!list.is_unmarked(&large));
    list.unmark_all();
    assert!(list.is_unmarked(&small));
    assert!(list.is_unmarked(&large));
    list.set_mark(&small, &Mark::Marked);
    assert!(!small.is_unmarked(&list));
    small.set_mark(&mut list, &Mark::Unmarked);
    assert!(small.is_unmarked(&list));
    list.sweep();
    // the unmarked large block was given back
    assert!(!list.is_unmarked(&large));
}

#[test]
fn immix_refuses_a_key_twice_and_sweep_frees_unmarked_keys() {
    let mut immix: Immix<usize, i64> = Immix::new();
    let p = immix.allocate(1, 5).unwrap();
    assert_eq!(p.data, 0);
    assert!(matches!(immix.allocate(1, 6), Err(ImmixError::DuplicatedKey)));
    let q = immix.allocate(2, 6).unwrap();
    assert_ne!(p.data, q.data);
    // everything is still marked as allocated: sweeping keeps both keys
    immix.sweep();
    assert!(matches!(immix.allocate(1, 7), Err(ImmixError::DuplicatedKey)));
    // once unmarked, sweeping drops them and the key can be allocated again
    immix.unmark_all();
    immix.sweep();
    assert!(immix.allocate(1, 7).is_ok());
}

#[test]
fn heap_binds_enlisted_objects() {
    let mut heap = Heap::new();
    let mut env = Environment::new();
    let raw = heap.enlist(&mut env, "x".to_string(), Object::Int(Int { value: 1 })).unwrap();
    let got = Heap::get(&mut env, "x".to_string()).unwrap();
    assert_eq!(got.as_ptr(), raw.as_addr());
    let raw2 = heap.enlist(&mut env, "y".to_string(), Object::Int(Int { value: 2 })).unwrap();
    assert_ne!(raw.as_addr(), raw2.as_addr());
    assert!(Heap::get(&mut env, "z".to_string()).is_none());
    heap.run_gc();
    assert_eq!(Heap::get(&mut env, "y".to_string()).unwrap().as_ptr(), raw2.as_addr());
}

#[test]
fn raw_pointers_compare_by_block_and_address() {
    let a: RawPtr<i64> = RawPtr::new(1, 64);
    let b: RawPtr<i64> = RawPtr::new(1, 64);
    let c: RawPtr<i64> = RawPtr::new(1, 72);
    let d: RawPtr<i64> = RawPtr::new(2, 64);
    assert!(a == b);
    assert!(a != c);
    assert!(a != d);
    assert_eq!(a.clone().as_ptr(), 64);
    assert_eq!(d.block(), 2);
}

#[test]
fn tagging_and_untagging() {
    let p: RawPtr<i64> = RawPtr::new(3, 0x1000);
    let t = p.tag(TAG_OBJECT);
    assert_eq!(t.as_addr(), 0x1002);
    assert_eq!(t.block(), 3);
    assert_eq!(p.tag(TAG_NUMBER).as_addr(), 0x1003);
    let back: RawPtr<i64> = <RawPtr<i64> as Tagged<i64>>::untag(p.tag(TAG_PAIR));
    assert!(back == p);
    let _t = TaggedPtr::object(p);
}

#[test]
fn enlisted_objects_get_distinct_pointers_across_blocks() {
    let mut heap = Heap::new();
    let mut env = Environment::new();
    let mut seen: Vec<RawPtr<Object>> = Vec::new();
    for i in 0..600 {
        let p = heap.enlist(&mut env, format!("v{i}"), Object::Int(Int { value: i })).unwrap();
        assert!(seen.iter().all(|q| *q != p));
        seen.push(p);
    }
    // more than one block was used
    assert!(seen.iter().any(|q| q.block() != seen[0].block()));
}

#[test]
fn downward_bump_block() {
    let mut block = allocator::immix::memory::bump::BumpBlock::new().unwrap();
    assert_eq!(block.current_hole_size(), allocator::immix::memory::block::BLOCK_CAPACITY);
    assert_eq!(block.inner_alloc(100).unwrap(), 32400);
    assert_eq!(block.inner_alloc(100).unwrap(), 32288);
    assert!(matches!(block.inner_alloc(40000), Err(memory::errors::BlockError::NoSpaceForAllocation)));
    assert_eq!(block.current_hole_size(), 32288);
}

#[test]
fn downward_hole_search() {
    let mut meta = memory::bump::BlockMeta::new();
    match meta.find_next_hole(1280, 100) {
        Some(memory::bump::Hole { cursor, limit }) => assert_eq!((cursor, limit), (1280, 0)),
        None => panic!("expected a hole"),
    }
    meta.mark_line(5);
    match meta.find_next_hole(1280, 100) {
        Some(memory::bump::Hole { cursor, limit }) => assert_eq!((cursor, limit), (1280, 896)),
        None => panic!("expected a hole"),
    }
    meta.reset();
    meta.mark_block(0);
    assert!(meta.find_next_hole(0, 100).is_none());
}

#[test]
fn downward_block_list() {
    let mut list = allocator::immix::memory::blocklist::BlockList::new();
    assert!(matches!(list.find_space(10, SizeClass::Large), Err(memory::errors::AllocError::SizeTooBig)));
    assert_eq!(list.find_space(100, SizeClass::Small).unwrap(), (0, 32400));
    assert_eq!(list.find_space(100, SizeClass::Small).unwrap(), (0, 32288));
    assert_eq!(list.overflow_alloc(1000).unwrap(), (1, 31504));
    let mut immix: memory::immix::Immix<u8> = memory::immix::Immix::new();
    assert_eq!(immix.find_space(16, SizeClass::Small).unwrap(), (0, 32496));
}

#[test]
fn spaces_found_in_a_block_list_never_overlap() {
    let mut list = allocator::immix::memory::blocklist::BlockList::new();
    let mut found: Vec<((usize, usize), usize)> = Vec::new();
    for size in [100usize, 3000, 20000, 8000, 16, 9000, 31000, 1, 500] {
        let space = list.find_space(size, SizeClass::Small).unwrap();
        found.push((space, size));
    }
    // a full block was retired and a new one numbered after it
    assert!(found.iter().any(|f| f.0 .0 != 0));
    for (i, a) in found.iter().enumerate() {
        for b in found.iter().skip(i + 1) {
            let apart = a.0 .0 != b.0 .0 || a.0 .1 + a.1 <= b.0 .1 || b.0 .1 + b.1 <= a.0 .1;
            assert!(apart, "{a:?} {b:?}");
        }
    }
}

#[test]
fn address_overflow_is_reported() {
    let mut block = BumpBlock::new(0).unwrap();
    assert!(matches!(block.inner_alloc(usize::MAX), Err(BlockError::AddressOverflow)));
    let mut down = allocator::immix::memory::bump::BumpBlock::new().unwrap();
    assert!(matches!(down.inner_alloc(usize::MAX), Err(memory::errors::BlockError::NoSpaceForAllocation)));
}

fn disjoint(allocs: &[(usize, usize)]) -> bool {
    allocs.iter().enumerate().all(|(i, a)| {
        allocs.iter().skip(i + 1).all(|b| a.0 + a.1 <= b.0 || b.0 + b.1 <= a.0)
    })
}

#[test]
fn allocations_of_a_block_are_pairwise_disjoint() {
    let mut block = BumpBlock::new(0).unwrap();
    let mut allocs = Vec::new();
    for size in [1usize, 300, 256, 1000, 7, 4096, 255, 512] {
        let (_, d) = block.inner_alloc(size).unwrap();
        allocs.push((d, size));
    }
    assert!(disjoint(&allocs));

    let mut down = allocator::immix::memory::bump::BumpBlock::new().unwrap();
    let mut allocs = Vec::new();
    for size in [1usize, 300, 256, 1000, 7, 4096, 255, 512] {
        let d = down.inner_alloc(size).unwrap();
        allocs.push((d, size));
    }
    assert!(disjoint(&allocs));
}

#[test]
fn word_bump_block_moves_down_to_the_word() {
    let mut block = memory::bump::BumpBlock::new(0).unwrap();
    // 0x7F00 - 8 is already a word boundary
    assert_eq!(block.inner_alloc(8).unwrap(), 32504);
    // 32504 - 3 = 32501, rounded down to the word
    assert_eq!(block.inner_alloc(3).unwrap(), 32501 - 32501 % WORD);
}

#[test]
fn word_bump_block_reports_overflow_and_full_block() {
    let mut block = memory::bump::BumpBlock::new(0).unwrap();
    assert!(matches!(block.inner_alloc(usize::MAX), Err(memory::errors::BlockError::AddressOverflow)));
    let mut high = memory::bump::BumpBlock::new(1000).unwrap();
    assert!(matches!(high.inner_alloc(33000), Err(memory::errors::BlockError::NoSpaceForAllocation)));
    // a refused request leaves the cursor where it was
    assert_eq!(high.inner_alloc(8).unwrap(), 1000 + 32504);
}

#[test]
fn a_mark_is_read_back_through_a_copy() {
    let mut list = BlockList::new();
    let small = list.allocate(100).unwrap();
    let copy = small;
    small.set_mark(&mut list, &Mark::Unmarked);
    assert!(copy.is_unmarked(&list));
    small.set_mark(&mut list, &Mark::Marked);
    assert!(!copy.is_unmarked(&list));
}

#[test]
fn enlisted_objects_get_distinct_pointers() {
    let mut heap = Heap::new();
    let mut env = Environment::new();
    let mut seen: Vec<(usize, usize)> = Vec::new();
    for i in 0..50 {
        let p = heap.enlist(&mut env, format!("v{i}"), Object::Int(Int { value: i })).unwrap();
        let key = (p.block(), p.as_addr());
        assert!(!seen.contains(&key));
        seen.push(key);
    }
}
