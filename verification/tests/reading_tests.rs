use nova_mod::probe::{Probe, Reading};
use nova_mod::region::{in_user_range, is_readable, RegionInfo, MEM_COMMIT, PAGE_GUARD, PAGE_NOACCESS};

fn committed(base: usize, size: usize, protect: u32) -> Option<RegionInfo> {
    Some(RegionInfo { base_address: base, region_size: size, state: MEM_COMMIT, protect })
}

#[test]
fn user_range_edges() {
    assert!(!in_user_range(0xFFFF));
    assert!(in_user_range(0x10000));
    assert!(in_user_range(0x7FFF_FFFF_FFFF));
    assert!(!in_user_range(0x8000_0000_0000));
}

#[test]
fn readable_inside_committed_region() {
    assert!(is_readable(0x20000, 8, committed(0x20000, 0x1000, 0x04)));
    assert!(is_readable(0x20FF8, 8, committed(0x20000, 0x1000, 0x04)));
}

#[test]
fn read_past_region_end_refused() {
    assert!(!is_readable(0x20FFC, 8, committed(0x20000, 0x1000, 0x04)));
    assert!(is_readable(0x20FFC, 4, committed(0x20000, 0x1000, 0x04)));
}

#[test]
fn low_address_refused_even_with_region() {
    assert!(!is_readable(0x8000, 4, committed(0x0, 0x100000, 0x04)));
}

#[test]
fn missing_or_uncommitted_region_refused() {
    assert!(!is_readable(0x20000, 8, None));
    let reserved = Some(RegionInfo { base_address: 0x20000, region_size: 0x1000, state: 0x2000, protect: 0x04 });
    assert!(!is_readable(0x20000, 8, reserved));
}

#[test]
fn guarded_or_inaccessible_pages_refused() {
    assert!(!is_readable(0x20000, 8, committed(0x20000, 0x1000, PAGE_NOACCESS)));
    assert!(!is_readable(0x20000, 8, committed(0x20000, 0x1000, 0x04 | PAGE_GUARD)));
}

#[test]
fn region_end_saturates() {
    assert!(is_readable(0x7FFF_FFFF_FFF0, 8, committed(0x7FFF_FFFF_0000, usize::MAX, 0x02)));
}

#[test]
fn probe_widths_and_zero_readings() {
    assert_eq!(Probe::Ptr(0x40).address(), 0x40);
    assert_eq!(Probe::Ptr(0x40).width(), 8);
    assert_eq!(Probe::I32(0x44).width(), 4);
    assert_eq!(Probe::Ptr(0x40).unreadable(), Reading::Ptr(0));
    assert_eq!(Probe::I32(0x44).unreadable(), Reading::I32(0));
}

#[test]
fn win32_protection_values_are_used() {
    // the commit state and protection flags carry the Win32 values
    let rw = Some(RegionInfo { base_address: 0x20000, region_size: 0x1000, state: 0x1000, protect: 0x04 });
    assert!(is_readable(0x20000, 8, rw));
    let guarded = Some(RegionInfo { base_address: 0x20000, region_size: 0x1000, state: 0x1000, protect: 0x104 });
    assert!(!is_readable(0x20000, 8, guarded));
    let no_access = Some(RegionInfo { base_address: 0x20000, region_size: 0x1000, state: 0x1000, protect: 0x01 });
    assert!(!is_readable(0x20000, 8, no_access));
}
