//! Page protection around code writes.
//!
//! Code pages are made writable before a patch and executable again after
//! it. The two transitions are requests to the platform; this module works
//! out the page-aligned region of each request and turns the platform's
//! status into a result.

use vstd::prelude::*;
use crate::error::HookError;

verus! {

/// A range of addresses: `len` bytes from `base` on.
#[derive(Debug, Clone, Copy, PartialEq, Eq, Structural)]
pub struct MemoryRegion {
    pub base: usize,
    pub len: usize,
}

/// What a page may be used for after a protection change.
#[derive(Debug, Clone, Copy, PartialEq, Eq, Structural)]
pub enum Access {
    /// Read, write and execute: the state in which code is patched.
    ReadWriteExecute,
    /// Read and execute: the state in which code runs.
    ReadExecute,
}

/// One request to the platform.
#[derive(Debug, Clone, Copy, PartialEq, Eq, Structural)]
pub enum MemoryRequest {
    /// Change the protection of every page of `region` to `access`. The
    /// platform answers 0 where it did, and anything else where it did not.
    Protect { region: MemoryRegion, access: Access },
    /// Invalidate the instruction cache for `len` bytes from `addr` on. The
    /// answer carries no meaning.
    FlushCache { addr: usize, len: usize },
}

impl MemoryRegion {
    /// The pages that hold the bytes `[addr, addr + size)`, as one region:
    /// from the start of the page of `addr` to the end of the page of the
    /// last byte. There is none where the page size is zero, where the range
    /// starts and ends at address 0, where its last byte lies beyond the
    /// address space, or where the length of the region does not fit a
    /// `usize`.
    pub open spec fn spec_page_aligned(addr: usize, size: usize, page_size: usize) -> Option<
        MemoryRegion,
    > {
        if page_size == 0 || addr + size == 0 || addr + size - 1 > usize::MAX {
            None
        } else {
            let base = addr as int / page_size as int * page_size;
            let end = ((addr + size - 1) / page_size as int + 1) * page_size;
            if end - base > usize::MAX {
                None
            } else {
                Some(MemoryRegion { base: base as usize, len: (end - base) as usize })
            }
        }
    }

    /// Whether the region is the smallest run of whole pages that holds
    /// `[addr, addr + size)`.
    pub open spec fn is_page_cover(self, addr: usize, size: usize, page_size: usize) -> bool {
        &&& page_size > 0
        &&& self.base % page_size == 0
        &&& self.len % page_size == 0
        &&& self.base <= addr < self.base + page_size
        &&& addr + size <= self.base + self.len < addr + size + page_size
    }

    /// The pages that hold `[addr, addr + size)`.
    pub fn page_aligned(addr: usize, size: usize, page_size: usize) -> (region: Option<MemoryRegion>)
        ensures
            region == Self::spec_page_aligned(addr, size, page_size),
            region matches Some(r) ==> r.is_page_cover(addr, size, page_size),
    {
        if page_size == 0 {
            return None;
        }
        let last = if size == 0 {
            if addr == 0 {
                return None;
            }
            addr - 1
        } else {
            match addr.checked_add(size - 1) {
                Some(last) => last,
                None => {
                    return None;
                },
            }
        };
        let first_page = addr / page_size;
        let last_page = last / page_size;
        proof {
            lemma_page_bounds(addr as int, last as int, page_size as int);
        }
        let base = first_page * page_size;
        if last_page < first_page {
            return Some(MemoryRegion { base, len: 0 });
        }
        let len = match (last_page - first_page).checked_mul(page_size) {
            Some(whole) => match whole.checked_add(page_size) {
                Some(len) => len,
                None => {
                    return None;
                },
            },
            None => {
                return None;
            },
        };
        Some(MemoryRegion { base, len })
    }
}

/// What a protection request has come to, given the platform's status: 0 is
/// success, every other status a failure.
pub open spec fn spec_protection_result(status: i32) -> Result<(), HookError> {
    if status == 0 {
        Ok(())
    } else {
        Err(HookError::ProtectionFailure)
    }
}

/// Turns the platform's status for a protection request into a result.
pub fn protection_result(status: i32) -> (r: Result<(), HookError>)
    ensures
        r == spec_protection_result(status),
{
    if status == 0 {
        Ok(())
    } else {
        Err(HookError::ProtectionFailure)
    }
}

/// The guard that moves code pages between the writable and the executable
/// state. It knows the page size and holds the platform primitive that
/// carries a request out and answers with a status.
pub struct MemoryProtection<H: Fn(&MemoryRequest) -> i32> {
    page_size: usize,
    platform: H,
}

impl<H: Fn(&MemoryRequest) -> i32> MemoryProtection<H> {
    #[verifier::type_invariant]
    spec fn accepts_every_request(&self) -> bool {
        forall|request: MemoryRequest| self.platform.requires((&request,))
    }

    /// The page size that regions are aligned to.
    pub closed spec fn spec_page_size(&self) -> usize {
        self.page_size
    }

    /// Whether `status` is an answer that the platform may give to
    /// `request`.
    pub closed spec fn answers(&self, request: MemoryRequest, status: i32) -> bool {
        self.platform.ensures((&request,), status)
    }

    /// Whether `r` is a result that a protection change of the pages of
    /// `[addr, addr + size)` to `access` may have: a failure where the range
    /// has no page-aligned region, and else what the platform's answer to
    /// the request for that region comes to.
    pub open spec fn may_protect(&self, addr: usize, size: usize, access: Access, r: Result<(), HookError>) -> bool {
        match MemoryRegion::spec_page_aligned(addr, size, self.spec_page_size()) {
            None => r == Err::<(), HookError>(HookError::ProtectionFailure),
            Some(region) => exists|status: i32|
                #[trigger] self.answers(MemoryRequest::Protect { region, access }, status) && r
                    == spec_protection_result(status),
        }
    }

    /// Whether `r` is a result that `make_writable` may have for the bytes
    /// `[addr, addr + size)`.
    pub open spec fn may_make_writable(&self, addr: usize, size: usize, r: Result<(), HookError>) -> bool {
        self.may_protect(addr, size, Access::ReadWriteExecute, r)
    }

    /// Whether the platform has an answer to the request to invalidate the
    /// instruction cache for the bytes `[addr, addr + size)`.
    pub open spec fn may_flush(&self, addr: usize, size: usize) -> bool {
        exists|status: i32| #[trigger] self.answers(MemoryRequest::FlushCache { addr, len: size }, status)
    }

    /// Whether `r` is a result that `make_executable` may have for the bytes
    /// `[addr, addr + size)`: that of the protection change, after which, on
    /// success, the platform was asked to invalidate the instruction cache
    /// for the bytes.
    pub open spec fn may_make_executable(&self, addr: usize, size: usize, r: Result<(), HookError>) -> bool {
        &&& self.may_protect(addr, size, Access::ReadExecute, r)
        &&& r is Ok ==> self.may_flush(addr, size)
    }

    /// A guard for pages of `page_size` bytes over `platform`, which must be
    /// callable with every request.
    pub fn new(page_size: usize, platform: H) -> (guard: Self)
        requires
            forall|request: MemoryRequest| platform.requires((&request,)),
        ensures
            guard.spec_page_size() == page_size,
            forall|request: MemoryRequest, status: i32|
                guard.answers(request, status) == platform.ensures((&request,), status),
    {
        MemoryProtection { page_size, platform }
    }

    /// The page size that regions are aligned to.
    pub fn page_size(&self) -> (size: usize)
        ensures
            size == self.spec_page_size(),
    {
        self.page_size
    }

    /// Asks the platform to make the pages of `[addr, addr + size)` readable,
    /// writable and executable. Execute is kept so that code on the same
    /// pages can go on running while a patch is written.
    pub fn make_writable(&self, addr: usize, size: usize) -> (r: Result<(), HookError>)
        ensures
            self.may_make_writable(addr, size, r),
    {
        proof {
            use_type_invariant(self);
        }
        match MemoryRegion::page_aligned(addr, size, self.page_size) {
            None => Err(HookError::ProtectionFailure),
            Some(region) => {
                let request = MemoryRequest::Protect { region, access: Access::ReadWriteExecute };
                let status = (self.platform)(&request);
                assert(self.answers(request, status));
                protection_result(status)
            },
        }
    }

    /// Asks the platform to make the pages of `[addr, addr + size)` readable
    /// and executable only and, where it did, to invalidate the instruction
    /// cache for the range.
    pub fn make_executable(&self, addr: usize, size: usize) -> (r: Result<(), HookError>)
        ensures
            self.may_make_executable(addr, size, r),
    {
        proof {
            use_type_invariant(self);
        }
        match MemoryRegion::page_aligned(addr, size, self.page_size) {
            None => Err(HookError::ProtectionFailure),
            Some(region) => {
                let request = MemoryRequest::Protect { region, access: Access::ReadExecute };
                let status = (self.platform)(&request);
                assert(self.answers(request, status));
                if status == 0 {
                    self.clear_cache(addr, size);
                    Ok(())
                } else {
                    Err(HookError::ProtectionFailure)
                }
            },
        }
    }

    /// Asks the platform to invalidate the instruction cache for the bytes
    /// `[addr, addr + size)`.
    pub fn clear_cache(&self, addr: usize, size: usize)
        ensures
            self.may_flush(addr, size),
    {
        proof {
            use_type_invariant(self);
        }
        let request = MemoryRequest::FlushCache { addr, len: size };
        let status = (self.platform)(&request);
        assert(self.answers(request, status));
    }
}

/// The arithmetic of page bounds: `first` is an address and `last` the last
/// byte of a range that starts there, or the byte before `first` where the
/// range is empty.
proof fn lemma_page_bounds(first: int, last: int, page: int)
    requires
        page > 0,
        0 <= first,
        first - 1 <= last,
        0 <= last,
    ensures
        0 <= first / page * page <= first < first / page * page + page,
        (first / page * page) % page == 0,
        ((last / page + 1) * page - first / page * page) % page == 0,
        last < (last / page + 1) * page <= last + page,
        (last / page + 1) * page - first / page * page == (last / page - first / page) * page + page,
        last / page < first / page ==> (last / page + 1) * page - first / page * page == 0,
        last / page >= first / page - 1,
{
    vstd::arithmetic::div_mod::lemma_fundamental_div_mod(first, page);
    vstd::arithmetic::div_mod::lemma_fundamental_div_mod(last, page);
    vstd::arithmetic::div_mod::lemma_mod_bound(first, page);
    vstd::arithmetic::div_mod::lemma_mod_bound(last, page);
    let fp = first / page;
    let lp = last / page;
    assert(fp * page == page * fp) by (nonlinear_arith);
    assert(lp * page == page * lp) by (nonlinear_arith);
    assert((lp + 1) * page == lp * page + page) by (nonlinear_arith);
    assert((lp - fp) * page + page == (lp + 1) * page - fp * page) by (nonlinear_arith);
    vstd::arithmetic::div_mod::lemma_mod_multiples_basic(fp, page);
    vstd::arithmetic::div_mod::lemma_mod_multiples_basic(lp + 1 - fp, page);
    assert((lp + 1 - fp) * page == (lp + 1) * page - fp * page) by (nonlinear_arith);
    assert(lp >= fp - 1) by {
        if lp < fp - 1 {
            assert((lp + 2) * page <= fp * page) by (nonlinear_arith)
                requires
                    lp + 2 <= fp,
                    page > 0,
            ;
            assert((lp + 2) * page == lp * page + 2 * page) by (nonlinear_arith);
        }
    }
    if lp < fp {
        assert(lp == fp - 1);
        assert((fp - 1 + 1) * page == fp * page);
    }
}

} // verus!
