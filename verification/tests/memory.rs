use std::cell::RefCell;

use cydia_substrate::error::HookError;
use cydia_substrate::memory::{protection_result, Access, MemoryProtection, MemoryRegion, MemoryRequest};

#[test]
fn page_aligned_regions() {
    let region = |base: usize, len: usize| Some(MemoryRegion { base, len });
    assert_eq!(MemoryRegion::page_aligned(0x1234, 0x10, 0x1000), region(0x1000, 0x1000));
    assert_eq!(MemoryRegion::page_aligned(0x1000, 0x1000, 0x1000), region(0x1000, 0x1000));
    assert_eq!(MemoryRegion::page_aligned(0x1000, 0x1001, 0x1000), region(0x1000, 0x2000));
    assert_eq!(MemoryRegion::page_aligned(0x1ff8, 0x10, 0x1000), region(0x1000, 0x2000));
    assert_eq!(MemoryRegion::page_aligned(0x1fff, 1, 0x1000), region(0x1000, 0x1000));
    assert_eq!(MemoryRegion::page_aligned(5, 20, 7), region(0, 28));
    assert_eq!(MemoryRegion::page_aligned(0, 1, 1), region(0, 1));
}

#[test]
fn page_aligned_empty_ranges() {
    let region = |base: usize, len: usize| Some(MemoryRegion { base, len });
    assert_eq!(MemoryRegion::page_aligned(0x2000, 0, 0x1000), region(0x2000, 0));
    assert_eq!(MemoryRegion::page_aligned(0x2001, 0, 0x1000), region(0x2000, 0x1000));
    assert_eq!(MemoryRegion::page_aligned(0, 0, 0x1000), None);
}

#[test]
fn page_aligned_at_the_limits() {
    assert_eq!(MemoryRegion::page_aligned(0x1000, 0x10, 0), None);
    assert_eq!(
        MemoryRegion::page_aligned(usize::MAX, 1, 0x1000),
        Some(MemoryRegion { base: usize::MAX - 0xfff, len: 0x1000 })
    );
    assert_eq!(MemoryRegion::page_aligned(usize::MAX, 2, 0x1000), None);
    assert_eq!(MemoryRegion::page_aligned(1, usize::MAX, 0x1000), None);
    // every page there is: the length does not fit
    assert_eq!(MemoryRegion::page_aligned(0, usize::MAX, 0x1000), None);
    assert_eq!(
        MemoryRegion::page_aligned(0x1000, usize::MAX - 0xfff, 0x1000),
        Some(MemoryRegion { base: 0x1000, len: usize::MAX - 0xfff })
    );
}

#[test]
fn status_zero_is_success() {
    assert_eq!(protection_result(0), Ok(()));
    assert_eq!(protection_result(-1), Err(HookError::ProtectionFailure));
    assert_eq!(protection_result(1), Err(HookError::ProtectionFailure));
}

#[test]
fn guard_passes_the_aligned_region_on() {
    let log: RefCell<Vec<MemoryRequest>> = RefCell::new(Vec::new());
    let guard = MemoryProtection::new(0x1000, |request: &MemoryRequest| {
        log.borrow_mut().push(*request);
        0
    });
    assert_eq!(guard.page_size(), 0x1000);
    assert_eq!(guard.make_writable(0x40_1ffc, 8), Ok(()));
    assert_eq!(guard.make_executable(0x40_1ffc, 8), Ok(()));
    guard.clear_cache(0x50_0000, 32);
    assert_eq!(
        *log.borrow(),
        vec![
            MemoryRequest::Protect {
                region: MemoryRegion { base: 0x40_1000, len: 0x2000 },
                access: Access::ReadWriteExecute,
            },
            MemoryRequest::Protect {
                region: MemoryRegion { base: 0x40_1000, len: 0x2000 },
                access: Access::ReadExecute,
            },
            MemoryRequest::FlushCache { addr: 0x40_1ffc, len: 8 },
            MemoryRequest::FlushCache { addr: 0x50_0000, len: 32 },
        ]
    );
}

#[test]
fn guard_reports_a_refusal_and_does_not_flush() {
    let log: RefCell<Vec<MemoryRequest>> = RefCell::new(Vec::new());
    let guard = MemoryProtection::new(0x1000, |request: &MemoryRequest| {
        log.borrow_mut().push(*request);
        -1
    });
    assert_eq!(guard.make_writable(0x40_1000, 8), Err(HookError::ProtectionFailure));
    assert_eq!(guard.make_executable(0x40_1000, 8), Err(HookError::ProtectionFailure));
    assert_eq!(log.borrow().len(), 2);
}

#[test]
fn guard_does_not_ask_for_a_range_without_region() {
    let log: RefCell<Vec<MemoryRequest>> = RefCell::new(Vec::new());
    let guard = MemoryProtection::new(0, |request: &MemoryRequest| {
        log.borrow_mut().push(*request);
        0
    });
    assert_eq!(guard.make_writable(0x40_1000, 8), Err(HookError::ProtectionFailure));
    assert_eq!(guard.make_executable(0x40_1000, 8), Err(HookError::ProtectionFailure));
    assert!(log.borrow().is_empty());
}
