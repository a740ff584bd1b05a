use std::collections::HashMap;

use nova_mod::actors::{find_best_actors, ActorSearch};
use nova_mod::memory::{get_actor, get_gworld, location_slot, root_component_slot, ActorArray, GWORLD_OFFSET};
use nova_mod::probe::{Probe, Reading, Step};
use nova_mod::scan::{scan_offsets, OffsetScan};

#[derive(Default)]
struct Image {
    ptrs: HashMap<usize, usize>,
    ints: HashMap<usize, i32>,
}

impl Image {
    fn read(&self, p: Probe) -> Reading {
        match p {
            Probe::Ptr(a) => Reading::Ptr(*self.ptrs.get(&a).unwrap_or(&0)),
            Probe::I32(a) => Reading::I32(*self.ints.get(&a).unwrap_or(&0)),
        }
    }
}

fn drive_search(world: usize, mem: &Image) -> ((usize, ActorArray), usize) {
    let (mut search, mut step): (ActorSearch, Step<(usize, ActorArray)>) = find_best_actors(world);
    let mut reads = 0;
    loop {
        match step {
            Step::Done(t) => return (t, reads),
            Step::Read(p) => {
                assert_eq!(search.pending_probe(), Some(p));
                let r = mem.read(p);
                assert!(search.accepts(r));
                reads += 1;
                step = search.advance(r);
            }
        }
    }
}

fn drive_scan(world: usize, mem: &Image) -> [(usize, usize, i32); 12] {
    let (mut scan, mut step): (OffsetScan, Step<[(usize, usize, i32); 12]>) = scan_offsets(world);
    loop {
        match step {
            Step::Done(t) => return t,
            Step::Read(p) => {
                let r = mem.read(p);
                assert!(scan.accepts(r));
                step = scan.advance(r);
            }
        }
    }
}

#[test]
fn null_world_finds_nothing_without_reading() {
    let mem = Image::default();
    assert_eq!(drive_search(0, &mem), ((0, ActorArray { data: 0, count: 0 }), 0));
}

#[test]
fn all_levels_null_reads_three_pointers() {
    let mem = Image::default();
    assert_eq!(drive_search(0x1000_0000, &mem), ((0, ActorArray { data: 0, count: 0 }), 3));
}

#[test]
fn first_plausible_candidate_wins() {
    let world = 0x1000_0000usize;
    let mut mem = Image::default();
    // level candidate 0x30 is null, 0x38 holds a level
    let level = 0x2000_0000usize;
    mem.ptrs.insert(world + 0x38, level);
    // array candidate 0x98: data but count too large
    mem.ptrs.insert(level + 0x98, 0x3000_0000);
    mem.ints.insert(level + 0x98 + 8, 50_000);
    // array candidate 0xA0: count fine but null data
    mem.ints.insert(level + 0xA0 + 8, 12);
    // array candidate 0xA8: live
    mem.ptrs.insert(level + 0xA8, 0x4000_0000);
    mem.ints.insert(level + 0xA8 + 8, 321);
    // array candidate 0xB0 also live, but later
    mem.ptrs.insert(level + 0xB0, 0x5000_0000);
    mem.ints.insert(level + 0xB0 + 8, 7);
    let (found, reads) = drive_search(world, &mem);
    assert_eq!(found, (level, ActorArray { data: 0x4000_0000, count: 321 }));
    // level 0x30, level 0x38, then data + count for three array candidates
    assert_eq!(reads, 2 + 3 * 2);
}

#[test]
fn count_bounds_are_exclusive() {
    let world = 0x1000_0000usize;
    let level = 0x2000_0000usize;
    let mut mem = Image::default();
    mem.ptrs.insert(world + 0x30, level);
    mem.ptrs.insert(level + 0x98, 0x3000_0000);
    mem.ints.insert(level + 0x98 + 8, 0);
    mem.ptrs.insert(level + 0xA0, 0x3000_0000);
    mem.ints.insert(level + 0xA0 + 8, -5);
    mem.ptrs.insert(level + 0xA8, 0x3000_0000);
    mem.ints.insert(level + 0xA8 + 8, 49_999);
    assert_eq!(drive_search(world, &mem).0, (level, ActorArray { data: 0x3000_0000, count: 49_999 }));
}

#[test]
fn no_live_array_anywhere_gives_empty() {
    let world = 0x1000_0000usize;
    let mut mem = Image::default();
    for (i, off) in [0x30usize, 0x38, 0x150].iter().enumerate() {
        let level = 0x2000_0000 + i * 0x1000;
        mem.ptrs.insert(world + off, level);
        mem.ints.insert(level + 0x98 + 8, 10);
    }
    let (found, reads) = drive_search(world, &mem);
    assert_eq!(found, (0, ActorArray { data: 0, count: 0 }));
    assert_eq!(reads, 3 * (1 + 4 * 2));
}

#[test]
fn search_refuses_overflowing_level() {
    let world = 0x1000_0000usize;
    let mut mem = Image::default();
    mem.ptrs.insert(world + 0x30, usize::MAX - 0x10);
    let (mut search, step) = find_best_actors(world);
    let p = match step {
        Step::Read(p) => p,
        Step::Done(_) => panic!("expected a read"),
    };
    assert_eq!(p, Probe::Ptr(world + 0x30));
    let r = mem.read(p);
    assert!(!search.accepts(r));
    assert!(!search.accepts(Reading::I32(5)));
    assert!(search.accepts(Reading::Ptr(0)));
    let _ = search.advance(Reading::Ptr(0));
    assert_eq!(search.pending_probe(), Some(Probe::Ptr(world + 0x38)));
}

#[test]
fn scan_of_null_world_is_blank() {
    let mem = Image::default();
    assert_eq!(drive_scan(0, &mem), [(0, 0, 0); 12]);
}

#[test]
fn scan_lists_every_candidate() {
    let world = 0x1000_0000usize;
    let level = 0x2000_0000usize;
    let mut mem = Image::default();
    mem.ptrs.insert(world + 0x38, level);
    mem.ints.insert(level + 0x98 + 8, 4);
    mem.ints.insert(level + 0xA0 + 8, -7);
    mem.ints.insert(level + 0xB0 + 8, 900);
    let rows = drive_scan(world, &mem);
    let expected = [
        (0x30, 0x98, -1),
        (0x30, 0xA0, -1),
        (0x30, 0xA8, -1),
        (0x30, 0xB0, -1),
        (0x38, 0x98, 4),
        (0x38, 0xA0, -7),
        (0x38, 0xA8, 0),
        (0x38, 0xB0, 900),
        (0x150, 0x98, -1),
        (0x150, 0xA0, -1),
        (0x150, 0xA8, -1),
        (0x150, 0xB0, -1),
    ];
    assert_eq!(rows, expected);
}

#[test]
fn gworld_is_read_at_its_offset() {
    assert_eq!(get_gworld(0), Step::Done(0));
    assert_eq!(get_gworld(0x1_4000_0000), Step::Read(Probe::Ptr(0x1_4000_0000 + GWORLD_OFFSET)));
    assert_eq!(GWORLD_OFFSET, 0x58BE190);
}

#[test]
fn actor_index_is_checked() {
    let array = ActorArray { data: 0x5000, count: 3 };
    assert_eq!(get_actor(&array, -1), Step::Done(0));
    assert_eq!(get_actor(&array, 3), Step::Done(0));
    assert_eq!(get_actor(&array, 0), Step::Read(Probe::Ptr(0x5000)));
    assert_eq!(get_actor(&array, 2), Step::Read(Probe::Ptr(0x5010)));
    let missing = ActorArray { data: 0, count: 3 };
    assert_eq!(get_actor(&missing, 1), Step::Done(0));
}

#[test]
fn location_chain_offsets() {
    assert_eq!(root_component_slot(0), None);
    assert_eq!(root_component_slot(0x1000), Some(0x11A0));
    assert_eq!(location_slot(0), None);
    assert_eq!(location_slot(0x2000), Some(0x21D8));
}
