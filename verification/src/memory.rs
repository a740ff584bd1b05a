//! Engine offsets and the single-read lookups: the world pointer, an actor of
//! the actor array, and the chain from an actor to its location.

use vstd::prelude::*;
use crate::probe::{Probe, Step};

verus! {

/// Offset of the `GWorld` pointer from the module base.
pub const GWORLD_OFFSET: usize = 0x58BE190;

/// Offset of `RootComponent` in an actor.
pub const ACTOR_ROOT_COMPONENT_OFFSET: usize = 0x1A0;

/// Offset of the world location in a scene component.
pub const COMPONENT_LOCATION_OFFSET: usize = 0x1D8;

/// Offset of the element count behind the data pointer of an engine array.
pub const ARRAY_COUNT_OFFSET: usize = 8;

/// Size of one actor pointer in the actor array.
pub const ACTOR_POINTER_SIZE: usize = 8;

/// Actor counts at or above this are taken for garbage.
pub const MAX_PLAUSIBLE_ACTORS: i32 = 50_000;

/// Number of candidate offsets of the persistent level in the world.
pub const LEVEL_CANDIDATES: usize = 3;

/// Number of candidate offsets of the actor array in a level.
pub const ARRAY_CANDIDATES: usize = 4;

/// Candidate offsets of the persistent level in the world, in the order they are tried.
pub open spec fn level_offsets() -> Seq<usize> {
    seq![0x30usize, 0x38usize, 0x150usize]
}

/// Candidate offsets of the actor array in a level, in the order they are tried.
pub open spec fn array_offsets() -> Seq<usize> {
    seq![0x98usize, 0xA0usize, 0xA8usize, 0xB0usize]
}

/// The `i`-th candidate offset of the level in the world.
pub fn candidate_level_offset(i: usize) -> (r: usize)
    requires
        i < LEVEL_CANDIDATES,
    ensures
        r == level_offsets()[i as int],
{
    if i == 0 {
        0x30
    } else if i == 1 {
        0x38
    } else {
        0x150
    }
}

/// The `j`-th candidate offset of the actor array in a level.
pub fn candidate_array_offset(j: usize) -> (r: usize)
    requires
        j < ARRAY_CANDIDATES,
    ensures
        r == array_offsets()[j as int],
{
    if j == 0 {
        0x98
    } else if j == 1 {
        0xA0
    } else if j == 2 {
        0xA8
    } else {
        0xB0
    }
}

/// The level pointer that candidate `i` reads from the world, in a memory image.
pub open spec fn level_at(world: usize, i: int, ptr_at: spec_fn(usize) -> usize) -> usize {
    ptr_at((world + level_offsets()[i]) as usize)
}

/// The actor data pointer that array candidate `j` reads from `level`.
pub open spec fn data_at(level: usize, j: int, ptr_at: spec_fn(usize) -> usize) -> usize {
    ptr_at((level + array_offsets()[j]) as usize)
}

/// The actor count that array candidate `j` reads from `level`.
pub open spec fn count_at(level: usize, j: int, i32_at: spec_fn(usize) -> i32) -> i32 {
    i32_at((level + array_offsets()[j] + ARRAY_COUNT_OFFSET) as usize)
}

/// Every address that a walk over the candidates of `world` may compute in the
/// memory image fits in a `usize`.
pub open spec fn candidate_addresses_fit(world: usize, ptr_at: spec_fn(usize) -> usize) -> bool {
    world == 0 || {
        &&& world + level_offsets()[2] <= usize::MAX
        &&& forall|i: int|
            0 <= i < 3 ==> #[trigger] level_at(world, i, ptr_at) == 0 || level_at(world, i, ptr_at)
                + array_offsets()[3] + ARRAY_COUNT_OFFSET <= usize::MAX
    }
}

/// A data pointer and a count that look like a live actor array.
pub open spec fn plausible_array(data: usize, count: i32) -> bool {
    data != 0 && 0 < count && count < MAX_PLAUSIBLE_ACTORS
}

/// The actor array of a level: where its pointers start and how many there are.
#[derive(Clone, Copy, Debug, PartialEq, Eq, Structural)]
pub struct ActorArray {
    pub data: usize,
    pub count: i32,
}

impl ActorArray {
    /// The array that stands for "no actors".
    pub open spec fn spec_empty() -> ActorArray {
        ActorArray { data: 0, count: 0 }
    }

    /// The array that stands for "no actors".
    pub fn empty() -> (r: ActorArray)
        ensures
            r == ActorArray::spec_empty(),
    {
        ActorArray { data: 0, count: 0 }
    }
}

pub open spec fn spec_get_gworld(base: usize) -> Step<usize> {
    if base == 0 {
        Step::Done(0)
    } else {
        Step::Read(Probe::Ptr((base + GWORLD_OFFSET) as usize))
    }
}

/// The world pointer of the module loaded at `base`: none without a base, else
/// the pointer read at `base + GWORLD_OFFSET`, which is the answer.
pub fn get_gworld(base: usize) -> (r: Step<usize>)
    requires
        base == 0 || base + GWORLD_OFFSET <= usize::MAX,
    ensures
        r == spec_get_gworld(base),
        base == 0 ==> r == Step::<usize>::Done(0),
        base != 0 ==> r == Step::<usize>::Read(Probe::Ptr((base + 0x58BE190) as usize)),
{
    if base == 0 {
        return Step::Done(0);
    }
    Step::Read(Probe::Ptr(base + GWORLD_OFFSET))
}

/// `index` does not name an actor of `array`.
pub open spec fn actor_out_of_range(array: ActorArray, index: i32) -> bool {
    array.data == 0 || index < 0 || index >= array.count
}

pub open spec fn spec_get_actor(array: ActorArray, index: i32) -> Step<usize> {
    if actor_out_of_range(array, index) {
        Step::Done(0)
    } else {
        Step::Read(Probe::Ptr((array.data + index * ACTOR_POINTER_SIZE) as usize))
    }
}

/// The `index`-th actor of `array`: null when the array is missing or the index
/// is outside it, else the pointer read from the `index`-th slot, which is the answer.
pub fn get_actor(array: &ActorArray, index: i32) -> (r: Step<usize>)
    requires
        actor_out_of_range(*array, index) || array.data + index * ACTOR_POINTER_SIZE <= usize::MAX,
    ensures
        r == spec_get_actor(*array, index),
        (array.data == 0 || index < 0 || index >= array.count) ==> r == Step::<usize>::Done(0),
        !(array.data == 0 || index < 0 || index >= array.count) ==> r == Step::<usize>::Read(
            Probe::Ptr((array.data + 8 * index) as usize),
        ),
{
    if array.data == 0 || index < 0 || index >= array.count {
        return Step::Done(0);
    }
    let offset: usize = index as usize * ACTOR_POINTER_SIZE;
    Step::Read(Probe::Ptr(array.data + offset))
}

/// Where the root component pointer of `actor` is read: nowhere for a null actor.
pub fn root_component_slot(actor: usize) -> (r: Option<usize>)
    requires
        actor == 0 || actor + ACTOR_ROOT_COMPONENT_OFFSET <= usize::MAX,
    ensures
        r == (if actor == 0 {
            None
        } else {
            Some((actor + 0x1A0) as usize)
        }),
{
    if actor == 0 {
        return None;
    }
    Some(actor + ACTOR_ROOT_COMPONENT_OFFSET)
}

/// Where the location vector of a root component is read: nowhere for a null component.
pub fn location_slot(root: usize) -> (r: Option<usize>)
    requires
        root == 0 || root + COMPONENT_LOCATION_OFFSET <= usize::MAX,
    ensures
        r == (if root == 0 {
            None
        } else {
            Some((root + 0x1D8) as usize)
        }),
{
    if root == 0 {
        return None;
    }
    Some(root + COMPONENT_LOCATION_OFFSET)
}

/// The world pointer is read at the module base plus 0x58BE190, and a null base
/// gives a null world without a read.
pub proof fn lemma_gworld_read_at_base_offset(base: usize)
    requires
        base + 0x58BE190 <= usize::MAX,
    ensures
        base == 0 ==> spec_get_gworld(base) == Step::<usize>::Done(0),
        base != 0 ==> spec_get_gworld(base) == Step::<usize>::Read(Probe::Ptr((base + 0x58BE190) as usize)),
        base != 0 ==> (spec_get_gworld(base)->Read_0).spec_address() - base == 0x58BE190,
{
}

/// Actor `index` of an array is read from the `index`-th 8-byte slot after its
/// data pointer; an index outside `0..count`, or a missing array, gives null.
pub proof fn lemma_actor_slot(array: ActorArray, index: i32)
    requires
        array.data + 8 * 0x8000_0000 <= usize::MAX,
    ensures
        (array.data == 0 || index < 0 || index >= array.count) ==> spec_get_actor(array, index)
            == Step::<usize>::Done(0),
        !(array.data == 0 || index < 0 || index >= array.count) ==> spec_get_actor(array, index)
            == Step::<usize>::Read(Probe::Ptr((array.data + 8 * index) as usize)),
{
}

/// The level candidate offsets written out: 0x30, 0x38, 0x150.
pub open spec fn level_offset_value(i: int) -> int {
    if i == 0 {
        0x30
    } else if i == 1 {
        0x38
    } else {
        0x150
    }
}

/// The array candidate offsets written out: 0x98, 0xA0, 0xA8, 0xB0.
pub open spec fn array_offset_value(j: int) -> int {
    if j == 0 {
        0x98
    } else if j == 1 {
        0xA0
    } else if j == 2 {
        0xA8
    } else {
        0xB0
    }
}

/// The pointer read at `world + level_offset_value(i)`.
pub open spec fn candidate_level(world: usize, i: int, ptr_at: spec_fn(usize) -> usize) -> usize {
    ptr_at((world + level_offset_value(i)) as usize)
}

/// The pointer read at `level + array_offset_value(j)` of candidate level `i`.
pub open spec fn candidate_data(world: usize, i: int, j: int, ptr_at: spec_fn(usize) -> usize) -> usize {
    ptr_at((candidate_level(world, i, ptr_at) + array_offset_value(j)) as usize)
}

/// The 32-bit integer read 8 bytes past the data pointer's slot of candidate (`i`, `j`).
pub open spec fn candidate_count(
    world: usize,
    i: int,
    j: int,
    ptr_at: spec_fn(usize) -> usize,
    i32_at: spec_fn(usize) -> i32,
) -> i32 {
    i32_at((candidate_level(world, i, ptr_at) + array_offset_value(j) + 8) as usize)
}

/// Candidate (`i`, `j`) has a non-null level, a non-null data pointer, and a
/// count strictly between 0 and 50 000.
pub open spec fn candidate_live(
    world: usize,
    i: int,
    j: int,
    ptr_at: spec_fn(usize) -> usize,
    i32_at: spec_fn(usize) -> i32,
) -> bool {
    &&& candidate_level(world, i, ptr_at) != 0
    &&& candidate_data(world, i, j, ptr_at) != 0
    &&& 0 < candidate_count(world, i, j, ptr_at, i32_at)
    &&& candidate_count(world, i, j, ptr_at, i32_at) < 50_000
}

/// The search's own view of a candidate agrees with the written-out one.
pub proof fn lemma_candidate_agrees(
    world: usize,
    i: int,
    j: int,
    ptr_at: spec_fn(usize) -> usize,
    i32_at: spec_fn(usize) -> i32,
)
    requires
        0 <= i < 3,
        0 <= j < 4,
    ensures
        level_offsets()[i] == level_offset_value(i),
        array_offsets()[j] == array_offset_value(j),
        level_at(world, i, ptr_at) == candidate_level(world, i, ptr_at),
        data_at(level_at(world, i, ptr_at), j, ptr_at) == candidate_data(world, i, j, ptr_at),
        count_at(level_at(world, i, ptr_at), j, i32_at) == candidate_count(world, i, j, ptr_at, i32_at),
        (level_at(world, i, ptr_at) != 0 && plausible_array(
            data_at(level_at(world, i, ptr_at), j, ptr_at),
            count_at(level_at(world, i, ptr_at), j, i32_at),
        )) == candidate_live(world, i, j, ptr_at, i32_at),
{
}

} // verus!
