use apollo_kernel::memory::physical::{alloc_page, AllocError, PhysicalAllocator, PhysicalPage, PAGE_SIZE};

fn addr(r: Result<PhysicalPage, AllocError>) -> u64 {
    r.unwrap().address()
}

#[test]
fn allocates_lowest_free_pages_in_order() {
    let mut a = PhysicalAllocator::new(200);
    for i in 0..200u64 {
        assert_eq!(addr(a.allocate()), i * PAGE_SIZE);
    }
    assert_eq!(a.allocated_count(), 200);
}

#[test]
fn page_address_is_index_times_page_size() {
    let mut a = PhysicalAllocator::new(3);
    assert_eq!(addr(a.allocate()), 0);
    assert_eq!(addr(a.allocate()), 4096);
    assert_eq!(addr(a.allocate()), 8192);
}

#[test]
fn out_of_memory_past_total_pages() {
    let mut a = PhysicalAllocator::new(2);
    assert!(a.allocate().is_ok());
    assert!(a.allocate().is_ok());
    assert_eq!(a.allocate(), Err(AllocError::OutOfMemory));
    assert_eq!(a.allocated_count(), 2);
}

#[test]
fn full_bitmap_reports_out_of_memory() {
    let mut a = PhysicalAllocator::new(64);
    for _ in 0..64 {
        assert!(a.allocate().is_ok());
    }
    assert_eq!(a.allocate(), Err(AllocError::OutOfMemory));
    assert_eq!(a.allocate(), Err(AllocError::OutOfMemory));
    assert_eq!(a.allocated_count(), 64);
}

#[test]
fn empty_allocator_has_nothing() {
    let mut a = PhysicalAllocator::new(0);
    assert_eq!(a.allocate(), Err(AllocError::OutOfMemory));
    assert_eq!(a.allocated_count(), 0);
}

#[test]
fn freed_page_is_reused_first() {
    let mut a = PhysicalAllocator::new(10);
    let p0 = a.allocate().unwrap();
    let p1 = a.allocate().unwrap();
    let _p2 = a.allocate().unwrap();
    assert_eq!(a.free(p1), Ok(()));
    assert_eq!(a.allocated_count(), 2);
    assert_eq!(a.allocate(), Ok(p1));
    assert_eq!(a.free(p0), Ok(()));
    assert_eq!(a.allocate(), Ok(p0));
    assert_eq!(a.allocated_count(), 3);
}

#[test]
fn allocation_never_repeats_a_page() {
    let mut a = PhysicalAllocator::new(100);
    let mut seen = Vec::new();
    while let Ok(p) = a.allocate() {
        assert!(!seen.contains(&p));
        seen.push(p);
    }
    assert_eq!(seen.len(), 100);
}

#[test]
fn double_free_is_prevented() {
    let mut a = PhysicalAllocator::new(10);
    let p = a.allocate().unwrap();
    assert_eq!(a.free(p), Ok(()));
    assert_eq!(a.free(p), Err(AllocError::DoubleFreePrevented));
    assert_eq!(a.allocated_count(), 0);
}

#[test]
fn free_of_page_outside_bitmap_is_invalid() {
    let mut big = PhysicalAllocator::new(200);
    let mut far = big.allocate().unwrap();
    for _ in 0..130 {
        far = big.allocate().unwrap();
    }
    let mut small = PhysicalAllocator::new(64);
    assert_eq!(small.free(far), Err(AllocError::InvalidPage));
    assert_eq!(small.allocated_count(), 0);
}

#[test]
fn free_of_never_allocated_page_is_refused() {
    let mut big = PhysicalAllocator::new(10);
    let _ = big.allocate().unwrap();
    let p = big.allocate().unwrap();
    let mut other = PhysicalAllocator::new(10);
    assert_eq!(other.free(p), Err(AllocError::DoubleFreePrevented));
}

#[test]
fn free_undoes_allocate() {
    let mut a = PhysicalAllocator::new(70);
    for _ in 0..65 {
        a.allocate().unwrap();
    }
    let before = a.allocated_count();
    let p = a.allocate().unwrap();
    assert_eq!(a.free(p), Ok(()));
    assert_eq!(a.allocated_count(), before);
    assert_eq!(a.allocate(), Ok(p));
}

#[test]
fn free_of_page_past_total_is_invalid() {
    // 70 pages use two bitmap words; bits 70..127 exist but lie past the total.
    let mut a = PhysicalAllocator::new(70);
    for _ in 0..70 {
        a.allocate().unwrap();
    }
    assert_eq!(a.allocate(), Err(AllocError::OutOfMemory));
    assert_eq!(a.allocated_count(), 70);
    let mut big = PhysicalAllocator::new(128);
    let mut p = big.allocate().unwrap();
    for _ in 0..70 {
        p = big.allocate().unwrap();
    }
    // p is page 70, inside the bitmap but past the total.
    assert_eq!(p.address(), 70 * PAGE_SIZE);
    assert_eq!(a.free(p), Err(AllocError::InvalidPage));
    assert_eq!(a.allocated_count(), 70);
}

#[test]
fn counter_never_drifts_from_foreign_pages() {
    let mut src = PhysicalAllocator::new(2);
    let first = src.allocate().unwrap();
    let second = src.allocate().unwrap();
    let mut d = PhysicalAllocator::new(1);
    assert_eq!(d.allocate(), Ok(first));
    assert_eq!(d.allocate(), Err(AllocError::OutOfMemory));
    assert_eq!(d.free(second), Err(AllocError::InvalidPage));
    assert_eq!(d.allocated_count(), 1);
    assert_eq!(d.free(first), Ok(()));
    assert_eq!(d.allocated_count(), 0);
    assert_eq!(d.free(first), Err(AllocError::DoubleFreePrevented));
    assert_eq!(d.allocated_count(), 0);
}

#[test]
fn alloc_page_without_allocator_is_out_of_memory() {
    let mut none: Option<PhysicalAllocator> = None;
    assert_eq!(alloc_page(&mut none), Err(AllocError::OutOfMemory));
    assert!(none.is_none());
}

#[test]
fn alloc_page_uses_installed_allocator() {
    let mut slot = Some(PhysicalAllocator::new(4));
    assert_eq!(addr(alloc_page(&mut slot)), 0);
    assert_eq!(addr(alloc_page(&mut slot)), PAGE_SIZE);
    assert_eq!(slot.as_ref().unwrap().allocated_count(), 2);
}

#[test]
fn allocated_page_not_handed_out_across_other_frees() {
    let mut a = PhysicalAllocator::new(8);
    let p0 = a.allocate().unwrap();
    let p1 = a.allocate().unwrap();
    let p2 = a.allocate().unwrap();
    assert_eq!(a.free(p1), Ok(()));
    let mut got = Vec::new();
    while let Ok(p) = a.allocate() {
        assert!(p != p0 && p != p2);
        got.push(p);
    }
    assert_eq!(got.len(), 6);
    assert_eq!(a.free(got[2]), Ok(()));
    assert_eq!(a.allocate(), Ok(got[2]));
}

#[test]
fn counter_tracks_pages_in_use_over_a_history() {
    let mut a = PhysicalAllocator::new(100);
    let mut live = Vec::new();
    for round in 0..20u64 {
        for _ in 0..5 {
            live.push(a.allocate().unwrap());
        }
        if round % 2 == 1 {
            let p = live.remove(0);
            assert_eq!(a.free(p), Ok(()));
            let q = live.remove(live.len() / 2);
            assert_eq!(a.free(q), Ok(()));
        }
        assert_eq!(a.allocated_count(), live.len() as u64);
    }
}
