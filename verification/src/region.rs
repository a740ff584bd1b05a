//! When a read of process memory may be attempted.

use vstd::prelude::*;

verus! {

/// Lowest address that a read is attempted at.
pub const USER_SPACE_MIN: usize = 0x10000;

/// Highest address that a read is attempted at (top of the user-mode range).
pub const USER_SPACE_MAX: u64 = 0x7FFF_FFFF_FFFF;

/// Region state of committed pages (Win32 `MEM_COMMIT`).
pub const MEM_COMMIT: u32 = 0x1000;

/// Protection of pages that cannot be accessed (Win32 `PAGE_NOACCESS`).
pub const PAGE_NOACCESS: u32 = 0x01;

/// Protection flag of guard pages (Win32 `PAGE_GUARD`).
pub const PAGE_GUARD: u32 = 0x100;

/// What a query of the virtual memory map reports about the region holding an address.
#[derive(Clone, Copy, Debug, PartialEq, Eq, Structural)]
pub struct RegionInfo {
    pub base_address: usize,
    pub region_size: usize,
    pub state: u32,
    pub protect: u32,
}

pub open spec fn spec_in_user_range(addr: usize) -> bool {
    USER_SPACE_MIN <= addr && addr as u64 <= USER_SPACE_MAX
}

/// `a + b`, held at `usize::MAX`.
pub open spec fn saturating_sum(a: usize, b: usize) -> int {
    if a + b > usize::MAX {
        usize::MAX as int
    } else {
        a + b
    }
}

/// The region is committed, neither inaccessible nor guarded, and reaches past `addr + size`.
pub open spec fn region_permits(addr: usize, size: usize, info: RegionInfo) -> bool {
    &&& info.state == MEM_COMMIT
    &&& info.protect & (PAGE_NOACCESS | PAGE_GUARD) == 0
    &&& saturating_sum(addr, size) <= saturating_sum(info.base_address, info.region_size)
}

/// `size` bytes at `addr` may be read: the address is in the user range and the
/// query (`None` where it reported nothing) describes a region that permits it.
pub open spec fn spec_is_readable(addr: usize, size: usize, region: Option<RegionInfo>) -> bool {
    &&& spec_in_user_range(addr)
    &&& match region {
        Some(info) => region_permits(addr, size, info),
        None => false,
    }
}

/// Whether `addr` lies in the range in which reads are attempted; outside it no
/// query of the memory map is made.
#[verifier::when_used_as_spec(spec_in_user_range)]
pub fn in_user_range(addr: usize) -> (r: bool)
    ensures
        r == spec_in_user_range(addr),
        r == (0x10000 <= addr && addr as int <= 0x7FFF_FFFF_FFFF),
{
    USER_SPACE_MIN <= addr && addr as u64 <= USER_SPACE_MAX
}

/// Whether `size` bytes at `addr` may be read, given what the memory map query
/// reported for `addr` (`None` where it reported nothing).
pub fn is_readable(addr: usize, size: usize, region: Option<RegionInfo>) -> (r: bool)
    ensures
        r == spec_is_readable(addr, size, region),
        r == (0x10000 <= addr && addr as int <= 0x7FFF_FFFF_FFFF && region is Some && ({
            let info = region->0;
            &&& info.state == 0x1000
            &&& info.protect & 0x101 == 0
            &&& (if addr + size > usize::MAX {
                usize::MAX as int
            } else {
                addr + size
            }) <= (if info.base_address + info.region_size > usize::MAX {
                usize::MAX as int
            } else {
                info.base_address + info.region_size
            })
        })),
{
    if !in_user_range(addr) {
        return false;
    }
    let info = match region {
        Some(info) => info,
        None => return false,
    };
    if info.state != MEM_COMMIT {
        return false;
    }
    let bad: u32 = PAGE_NOACCESS | PAGE_GUARD;
    assert(bad == 0x101) by (bit_vector)
        requires
            bad == 0x01u32 | 0x100u32,
    ;
    if info.protect & bad != 0 {
        return false;
    }
    let region_end = info.base_address.saturating_add(info.region_size);
    if addr.saturating_add(size) > region_end {
        return false;
    }
    true
}

/// A range that may be read stays readable when fewer bytes are read from the
/// same address, and never starts outside the user range.
pub proof fn lemma_readable_prefix(addr: usize, size: usize, shorter: usize, region: Option<RegionInfo>)
    requires
        spec_is_readable(addr, size, region),
        shorter <= size,
    ensures
        spec_is_readable(addr, shorter, region),
        spec_in_user_range(addr),
{
}

} // verus!
