//! The search for the level's actor array: the candidate offsets are tried in
//! order, and the first candidate whose data pointer and count look like a live
//! actor array wins.

use vstd::prelude::*;
use crate::memory::{
    candidate_level, candidate_data, candidate_count, candidate_live, lemma_candidate_agrees,
    candidate_addresses_fit, ActorArray, level_offsets, array_offsets, level_at, data_at, count_at, plausible_array,
    candidate_level_offset, candidate_array_offset, LEVEL_CANDIDATES, ARRAY_CANDIDATES,
    ARRAY_COUNT_OFFSET, MAX_PLAUSIBLE_ACTORS,
};
use crate::probe::{Probe, Reading, Step, answer};

verus! {

/// Which read an [`ActorSearch`] waits for.
#[derive(Clone, Copy, Debug, PartialEq, Eq, Structural)]
pub enum SearchPhase {
    /// The level pointer of level candidate `lv`.
    Level,
    /// The data pointer of array candidate `arr` in the current level.
    Data,
    /// The element count of array candidate `arr` in the current level.
    Count,
    /// Nothing: the search has answered.
    Finished,
}

/// A search for the actor array of the world `world`, in progress.
#[derive(Clone, Copy, Debug, PartialEq, Eq, Structural)]
pub struct ActorSearch {
    pub world: usize,
    pub lv: usize,
    pub arr: usize,
    pub phase: SearchPhase,
    pub level: usize,
    pub data: usize,
}

/// What the search answers when no candidate looks live.
pub open spec fn no_actors() -> (usize, ActorArray) {
    (0, ActorArray::spec_empty())
}

impl ActorSearch {
    /// The search's fields are in range and the address it waits on was computed without overflow.
    pub open spec fn wf(self) -> bool {
        &&& self.lv < LEVEL_CANDIDATES
        &&& self.arr < ARRAY_CANDIDATES
        &&& match self.phase {
            SearchPhase::Level => self.world + level_offsets()[self.lv as int] <= usize::MAX,
            SearchPhase::Data => self.level != 0 && self.level + array_offsets()[self.arr as int]
                <= usize::MAX,
            SearchPhase::Count => self.level != 0 && self.level + array_offsets()[self.arr as int]
                + ARRAY_COUNT_OFFSET <= usize::MAX,
            SearchPhase::Finished => true,
        }
    }

    /// The read that the search waits for.
    pub open spec fn pending(self) -> Probe {
        match self.phase {
            SearchPhase::Level => Probe::Ptr((self.world + level_offsets()[self.lv as int]) as usize),
            SearchPhase::Data => Probe::Ptr((self.level + array_offsets()[self.arr as int]) as usize),
            SearchPhase::Count => Probe::I32(
                (self.level + array_offsets()[self.arr as int] + ARRAY_COUNT_OFFSET) as usize,
            ),
            SearchPhase::Finished => Probe::Ptr(0),
        }
    }

    /// Moving on from level candidate `lv`: to the next one, or the answer "none".
    pub open spec fn after_level(self) -> (ActorSearch, Step<(usize, ActorArray)>) {
        if self.lv + 1 < LEVEL_CANDIDATES {
            let s = ActorSearch { lv: (self.lv + 1) as usize, arr: 0, phase: SearchPhase::Level, ..self };
            (s, Step::Read(s.pending()))
        } else {
            (ActorSearch { phase: SearchPhase::Finished, ..self }, Step::Done(no_actors()))
        }
    }

    /// The next level candidate's address fits, where there is one.
    pub open spec fn next_level_fits(self) -> bool {
        self.lv + 1 < LEVEL_CANDIDATES ==> self.world + level_offsets()[self.lv + 1] <= usize::MAX
    }

    /// `r` is of the kind the search waits for, and the address it computes from
    /// `r` fits in a `usize`.
    pub open spec fn spec_accepts(&self, r: Reading) -> bool {
        match (self.phase, r) {
            (SearchPhase::Level, Reading::Ptr(level)) => if level == 0 {
                self.next_level_fits()
            } else {
                level + array_offsets()[0] <= usize::MAX
            },
            (SearchPhase::Data, Reading::Ptr(_)) => self.level + array_offsets()[self.arr as int]
                + ARRAY_COUNT_OFFSET <= usize::MAX,
            (SearchPhase::Count, Reading::I32(count)) => plausible_array(self.data, count) || if self.arr
                + 1 < ARRAY_CANDIDATES {
                self.level + array_offsets()[self.arr + 1] <= usize::MAX
            } else {
                self.next_level_fits()
            },
            _ => false,
        }
    }

    /// The search after it is handed `r`, and what it asks for next.
    pub open spec fn next(self, r: Reading) -> (ActorSearch, Step<(usize, ActorArray)>) {
        match (self.phase, r) {
            (SearchPhase::Level, Reading::Ptr(level)) => if level == 0 {
                self.after_level()
            } else {
                let s = ActorSearch { level, arr: 0, phase: SearchPhase::Data, ..self };
                (s, Step::Read(s.pending()))
            },
            (SearchPhase::Data, Reading::Ptr(data)) => {
                let s = ActorSearch { data, phase: SearchPhase::Count, ..self };
                (s, Step::Read(s.pending()))
            },
            (SearchPhase::Count, Reading::I32(count)) => if plausible_array(self.data, count) {
                (
                    ActorSearch { phase: SearchPhase::Finished, ..self },
                    Step::Done((self.level, ActorArray { data: self.data, count })),
                )
            } else if self.arr + 1 < ARRAY_CANDIDATES {
                let s = ActorSearch { arr: (self.arr + 1) as usize, phase: SearchPhase::Data, ..self };
                (s, Step::Read(s.pending()))
            } else {
                self.after_level()
            },
            _ => (self, Step::Done(no_actors())),
        }
    }

    /// An upper bound on the reads that the search may still ask for.
    pub open spec fn measure(self) -> nat {
        match self.phase {
            SearchPhase::Level => ((3 - self.lv) * 9) as nat,
            SearchPhase::Data => ((2 - self.lv) * 9 + (4 - self.arr) * 2) as nat,
            SearchPhase::Count => ((2 - self.lv) * 9 + (4 - self.arr) * 2 - 1) as nat,
            SearchPhase::Finished => 0,
        }
    }

    /// The answer the search reaches when every read is answered from the memory
    /// image (`ptr_at`, `i32_at`); `None` where an address computation would overflow.
    pub open spec fn outcome(
        self,
        ptr_at: spec_fn(usize) -> usize,
        i32_at: spec_fn(usize) -> i32,
    ) -> Option<(usize, ActorArray)>
        decreases self.measure(),
    {
        if !self.wf() || self.phase == SearchPhase::Finished {
            None
        } else {
            let r = answer(self.pending(), ptr_at, i32_at);
            if !self.spec_accepts(r) {
                None
            } else {
                match self.next(r).1 {
                    Step::Done(t) => Some(t),
                    Step::Read(_) => self.next(r).0.outcome(ptr_at, i32_at),
                }
            }
        }
    }

    /// Whether handing `r` to the search is in order: it waits for a read of
    /// that kind and the address it then computes fits in a `usize`.
    #[verifier::when_used_as_spec(spec_accepts)]
    pub fn accepts(&self, r: Reading) -> (b: bool)
        requires
            self.wf(),
        ensures
            b == self.spec_accepts(r),
    {
        match (self.phase, r) {
            (SearchPhase::Level, Reading::Ptr(level)) => if level == 0 {
                self.lv + 1 >= LEVEL_CANDIDATES || self.world <= usize::MAX - candidate_level_offset(
                    self.lv + 1,
                )
            } else {
                level <= usize::MAX - candidate_array_offset(0)
            },
            (SearchPhase::Data, Reading::Ptr(_)) => {
                let a = candidate_array_offset(self.arr);
                self.level + a <= usize::MAX - ARRAY_COUNT_OFFSET
            },
            (SearchPhase::Count, Reading::I32(count)) => {
                if self.data != 0 && 0 < count && count < MAX_PLAUSIBLE_ACTORS {
                    true
                } else if self.arr + 1 < ARRAY_CANDIDATES {
                    self.level <= usize::MAX - candidate_array_offset(self.arr + 1)
                } else {
                    self.lv + 1 >= LEVEL_CANDIDATES || self.world <= usize::MAX
                        - candidate_level_offset(self.lv + 1)
                }
            },
            _ => false,
        }
    }

    /// The read that the search waits for, or `None` once it has answered.
    pub fn pending_probe(&self) -> (p: Option<Probe>)
        requires
            self.wf(),
        ensures
            p == (if self.phase == SearchPhase::Finished {
                None
            } else {
                Some(self.pending())
            }),
    {
        match self.phase {
            SearchPhase::Level => Some(
                Probe::Ptr(self.world + candidate_level_offset(self.lv)),
            ),
            SearchPhase::Data => Some(Probe::Ptr(self.level + candidate_array_offset(self.arr))),
            SearchPhase::Count => Some(
                Probe::I32(self.level + candidate_array_offset(self.arr) + ARRAY_COUNT_OFFSET),
            ),
            SearchPhase::Finished => None,
        }
    }

    fn leave_level(&mut self) -> (st: Step<(usize, ActorArray)>)
        requires
            old(self).wf(),
            old(self).phase != SearchPhase::Finished,
            old(self).next_level_fits(),
        ensures
            (*final(self), st) == old(self).after_level(),
            final(self).wf(),
    {
        if self.lv + 1 < LEVEL_CANDIDATES {
            self.lv = self.lv + 1;
            self.arr = 0;
            self.phase = SearchPhase::Level;
            Step::Read(Probe::Ptr(self.world + candidate_level_offset(self.lv)))
        } else {
            self.phase = SearchPhase::Finished;
            Step::Done((0, ActorArray::empty()))
        }
    }

    /// Hands the search the value its pending read produced; returns the next
    /// read it asks for, or its answer.
    pub fn advance(&mut self, r: Reading) -> (st: Step<(usize, ActorArray)>)
        requires
            old(self).wf(),
            old(self).phase != SearchPhase::Finished,
            old(self).spec_accepts(r),
        ensures
            (*final(self), st) == old(self).next(r),
            final(self).wf(),
    {
        match (self.phase, r) {
            (SearchPhase::Level, Reading::Ptr(level)) => {
                if level == 0 {
                    self.leave_level()
                } else {
                    self.level = level;
                    self.arr = 0;
                    self.phase = SearchPhase::Data;
                    Step::Read(Probe::Ptr(level + candidate_array_offset(0)))
                }
            },
            (SearchPhase::Data, Reading::Ptr(data)) => {
                self.data = data;
                self.phase = SearchPhase::Count;
                Step::Read(
                    Probe::I32(self.level + candidate_array_offset(self.arr) + ARRAY_COUNT_OFFSET),
                )
            },
            (SearchPhase::Count, Reading::I32(count)) => {
                if self.data != 0 && 0 < count && count < MAX_PLAUSIBLE_ACTORS {
                    self.phase = SearchPhase::Finished;
                    Step::Done((self.level, ActorArray { data: self.data, count }))
                } else if self.arr + 1 < ARRAY_CANDIDATES {
                    self.arr = self.arr + 1;
                    self.phase = SearchPhase::Data;
                    Step::Read(Probe::Ptr(self.level + candidate_array_offset(self.arr)))
                } else {
                    self.leave_level()
                }
            },
            _ => {
                proof {
                    assert(false);
                }
                Step::Done((0, ActorArray::empty()))
            },
        }
    }
}

/// The search for `world` as it starts, with its first request.
pub open spec fn spec_find_best_actors(world: usize) -> (ActorSearch, Step<(usize, ActorArray)>) {
    let s = ActorSearch {
        world,
        lv: 0,
        arr: 0,
        phase: if world == 0 {
            SearchPhase::Finished
        } else {
            SearchPhase::Level
        },
        level: 0,
        data: 0,
    };
    if world == 0 {
        (s, Step::Done(no_actors()))
    } else {
        (s, Step::Read(s.pending()))
    }
}

/// Starts the search for the actor array of `world`: with a null world the
/// answer is "none" at once; otherwise the first read is the first level candidate.
pub fn find_best_actors(world: usize) -> (r: (ActorSearch, Step<(usize, ActorArray)>))
    requires
        world == 0 || world + level_offsets()[0] <= usize::MAX,
    ensures
        r == spec_find_best_actors(world),
        r.0.wf(),
{
    if world == 0 {
        let s = ActorSearch { world, lv: 0, arr: 0, phase: SearchPhase::Finished, level: 0, data: 0 };
        return (s, Step::Done((0, ActorArray::empty())));
    }
    let s = ActorSearch { world, lv: 0, arr: 0, phase: SearchPhase::Level, level: 0, data: 0 };
    (s, Step::Read(Probe::Ptr(world + candidate_level_offset(0))))
}

/// What a search started by [`find_best_actors`] answers when every read is
/// answered from the memory image; `None` where an address would overflow.
pub open spec fn run_search(
    start: (ActorSearch, Step<(usize, ActorArray)>),
    ptr_at: spec_fn(usize) -> usize,
    i32_at: spec_fn(usize) -> i32,
) -> Option<(usize, ActorArray)> {
    match start.1 {
        Step::Done(t) => Some(t),
        Step::Read(_) => start.0.outcome(ptr_at, i32_at),
    }
}

/// The first candidate, from level candidate `i` and array candidate `j` on, whose
/// level is non-null and whose array looks live; "none" past the last.
pub open spec fn first_hit_from(
    world: usize,
    i: int,
    j: int,
    ptr_at: spec_fn(usize) -> usize,
    i32_at: spec_fn(usize) -> i32,
) -> (usize, ActorArray)
    decreases 3 - i, 4 - j,
{
    if !(0 <= i < 3) {
        no_actors()
    } else if j >= 4 {
        first_hit_from(world, i + 1, 0, ptr_at, i32_at)
    } else {
        let level = level_at(world, i, ptr_at);
        let data = data_at(level, j, ptr_at);
        let count = count_at(level, j, i32_at);
        if level != 0 && plausible_array(data, count) {
            (level, ActorArray { data, count })
        } else {
            first_hit_from(world, i, j + 1, ptr_at, i32_at)
        }
    }
}

/// The level and actor array that the search finds in a memory image: "none"
/// for a null world, else the first live-looking candidate in order.
pub open spec fn best_actors(
    world: usize,
    ptr_at: spec_fn(usize) -> usize,
    i32_at: spec_fn(usize) -> i32,
) -> (usize, ActorArray) {
    if world == 0 {
        no_actors()
    } else {
        first_hit_from(world, 0, 0, ptr_at, i32_at)
    }
}

/// The search's fields agree with the memory image: the level and data it holds
/// are the values read at its candidate.
pub open spec fn consistent(
    s: ActorSearch,
    ptr_at: spec_fn(usize) -> usize,
    i32_at: spec_fn(usize) -> i32,
) -> bool {
    s.world != 0 && match s.phase {
        SearchPhase::Level => s.arr == 0,
        SearchPhase::Data => s.level == level_at(s.world, s.lv as int, ptr_at),
        SearchPhase::Count => s.level == level_at(s.world, s.lv as int, ptr_at) && s.data == data_at(
            s.level,
            s.arr as int,
            ptr_at,
        ),
        SearchPhase::Finished => true,
    }
}

proof fn lemma_outcome_is_first_hit(
    s: ActorSearch,
    ptr_at: spec_fn(usize) -> usize,
    i32_at: spec_fn(usize) -> i32,
)
    requires
        s.wf(),
        s.phase != SearchPhase::Finished,
        consistent(s, ptr_at, i32_at),
    ensures
        s.outcome(ptr_at, i32_at) matches Some(t) ==> t == first_hit_from(
            s.world,
            s.lv as int,
            s.arr as int,
            ptr_at,
            i32_at,
        ),
        candidate_addresses_fit(s.world, ptr_at) ==> s.outcome(ptr_at, i32_at) is Some,
    decreases s.measure(),
{
    let r = answer(s.pending(), ptr_at, i32_at);
    let w = s.world;
    let lv = s.lv as int;
    let arr = s.arr as int;
    if candidate_addresses_fit(w, ptr_at) {
        assert(level_at(w, lv, ptr_at) == 0 || level_at(w, lv, ptr_at) + array_offsets()[3]
            + ARRAY_COUNT_OFFSET <= usize::MAX);
        assert(s.spec_accepts(r));
    }
    if s.spec_accepts(r) {
        let (s2, st) = s.next(r);
        match s.phase {
            SearchPhase::Level => {
                let level = level_at(w, lv, ptr_at);
                if level == 0 {
                    assert(first_hit_from(w, lv, 0, ptr_at, i32_at) == first_hit_from(w, lv, 1, ptr_at, i32_at));
                    assert(first_hit_from(w, lv, 1, ptr_at, i32_at) == first_hit_from(w, lv, 2, ptr_at, i32_at));
                    assert(first_hit_from(w, lv, 2, ptr_at, i32_at) == first_hit_from(w, lv, 3, ptr_at, i32_at));
                    assert(first_hit_from(w, lv, 3, ptr_at, i32_at) == first_hit_from(w, lv, 4, ptr_at, i32_at));
                    assert(first_hit_from(w, lv, 4, ptr_at, i32_at) == first_hit_from(w, lv + 1, 0, ptr_at, i32_at));
                    if lv + 1 < 3 {
                        lemma_outcome_is_first_hit(s2, ptr_at, i32_at);
                    } else {
                        assert(first_hit_from(w, lv + 1, 0, ptr_at, i32_at) == no_actors());
                    }
                } else {
                    lemma_outcome_is_first_hit(s2, ptr_at, i32_at);
                }
            },
            SearchPhase::Data => {
                lemma_outcome_is_first_hit(s2, ptr_at, i32_at);
            },
            SearchPhase::Count => {
                let count = count_at(s.level, arr, i32_at);
                if plausible_array(s.data, count) {
                } else if arr + 1 < 4 {
                    assert(first_hit_from(w, lv, arr, ptr_at, i32_at) == first_hit_from(w, lv, arr + 1, ptr_at, i32_at));
                    lemma_outcome_is_first_hit(s2, ptr_at, i32_at);
                } else {
                    assert(first_hit_from(w, lv, arr, ptr_at, i32_at) == first_hit_from(w, lv, 4, ptr_at, i32_at));
                    assert(first_hit_from(w, lv, 4, ptr_at, i32_at) == first_hit_from(w, lv + 1, 0, ptr_at, i32_at));
                    if lv + 1 < 3 {
                        lemma_outcome_is_first_hit(s2, ptr_at, i32_at);
                    } else {
                        assert(first_hit_from(w, lv + 1, 0, ptr_at, i32_at) == no_actors());
                    }
                }
            },
            SearchPhase::Finished => {},
        }
    }
}

/// Driven with reads from one memory image, the search answers exactly
/// [`best_actors`]: the first candidate in order whose level is non-null and whose
/// data pointer is non-null with a count in `1..50_000`, else level 0 and an empty
/// array. It answers whenever no address it computes overflows.
pub proof fn lemma_find_best_actors_follows_memory(
    world: usize,
    ptr_at: spec_fn(usize) -> usize,
    i32_at: spec_fn(usize) -> i32,
)
    requires
        world == 0 || world + level_offsets()[0] <= usize::MAX,
    ensures
        run_search(spec_find_best_actors(world), ptr_at, i32_at) matches Some(t) ==> t == best_actors(
            world,
            ptr_at,
            i32_at,
        ),
        candidate_addresses_fit(world, ptr_at) ==> run_search(
            spec_find_best_actors(world),
            ptr_at,
            i32_at,
        ) is Some,
{
    if world != 0 {
        lemma_outcome_is_first_hit(spec_find_best_actors(world).0, ptr_at, i32_at);
    }
}

/// Every read the search takes brings it closer to its answer: after an
/// accepted reading it either answers (and then waits for nothing) or asks for
/// another read with fewer reads left, and it starts with at most 27 reads left.
pub proof fn lemma_search_progress(s: ActorSearch, r: Reading, world: usize)
    requires
        s.wf(),
        s.phase != SearchPhase::Finished,
        s.spec_accepts(r),
    ensures
        s.next(r).1 is Read ==> s.next(r).0.measure() < s.measure() && s.next(r).0.phase
            != SearchPhase::Finished && s.next(r).1 == Step::<(usize, ActorArray)>::Read(
            s.next(r).0.pending(),
        ),
        s.next(r).1 is Done ==> s.next(r).0.phase == SearchPhase::Finished,
        spec_find_best_actors(world).0.measure() <= 27,
{
}

/// The answer for candidate (`a`, `b`): its level, data pointer and count.
pub open spec fn candidate_answer(
    world: usize,
    a: int,
    b: int,
    ptr_at: spec_fn(usize) -> usize,
    i32_at: spec_fn(usize) -> i32,
) -> (usize, ActorArray) {
    (
        candidate_level(world, a, ptr_at),
        ActorArray {
            data: candidate_data(world, a, b, ptr_at),
            count: candidate_count(world, a, b, ptr_at, i32_at),
        },
    )
}

proof fn lemma_first_hit_is_first_live(
    world: usize,
    i: int,
    j: int,
    ptr_at: spec_fn(usize) -> usize,
    i32_at: spec_fn(usize) -> i32,
)
    requires
        0 <= i <= 3,
        0 <= j <= 4,
    ensures
        ({
            let t = first_hit_from(world, i, j, ptr_at, i32_at);
            ||| exists|a: int, b: int|
                #![trigger candidate_live(world, a, b, ptr_at, i32_at)]
                0 <= a < 3 && 0 <= b < 4 && (a > i || (a == i && b >= j)) && candidate_live(
                    world,
                    a,
                    b,
                    ptr_at,
                    i32_at,
                ) && t == candidate_answer(world, a, b, ptr_at, i32_at) && forall|c: int, d: int|
                    0 <= c < 3 && 0 <= d < 4 && (c > i || (c == i && d >= j)) && (c < a || (c == a
                        && d < b)) ==> !#[trigger] candidate_live(world, c, d, ptr_at, i32_at)
            ||| (forall|c: int, d: int|
                0 <= c < 3 && 0 <= d < 4 && (c > i || (c == i && d >= j)) ==> !#[trigger] candidate_live(
                    world,
                    c,
                    d,
                    ptr_at,
                    i32_at,
                )) && t == (0usize, ActorArray { data: 0, count: 0 })
        }),
    decreases 3 - i, 4 - j,
{
    let t = first_hit_from(world, i, j, ptr_at, i32_at);
    if i >= 3 {
    } else if j >= 4 {
        lemma_first_hit_is_first_live(world, i + 1, 0, ptr_at, i32_at);
    } else {
        lemma_candidate_agrees(world, i, j, ptr_at, i32_at);
        if candidate_live(world, i, j, ptr_at, i32_at) {
            assert(t == candidate_answer(world, i, j, ptr_at, i32_at));
        } else {
            lemma_first_hit_is_first_live(world, i, j + 1, ptr_at, i32_at);
            assert(t == first_hit_from(world, i, j + 1, ptr_at, i32_at));
            if exists|a: int, b: int|
                #![trigger candidate_live(world, a, b, ptr_at, i32_at)]
                0 <= a < 3 && 0 <= b < 4 && (a > i || (a == i && b >= j + 1)) && candidate_live(
                    world,
                    a,
                    b,
                    ptr_at,
                    i32_at,
                ) && t == candidate_answer(world, a, b, ptr_at, i32_at) && forall|c: int, d: int|
                    0 <= c < 3 && 0 <= d < 4 && (c > i || (c == i && d >= j + 1)) && (c < a || (c
                        == a && d < b)) ==> !#[trigger] candidate_live(world, c, d, ptr_at, i32_at) {
                let (a, b) = choose|a: int, b: int|
                    #![trigger candidate_live(world, a, b, ptr_at, i32_at)]
                    0 <= a < 3 && 0 <= b < 4 && (a > i || (a == i && b >= j + 1)) && candidate_live(
                        world,
                        a,
                        b,
                        ptr_at,
                        i32_at,
                    ) && t == candidate_answer(world, a, b, ptr_at, i32_at) && forall|c: int, d: int|
                        0 <= c < 3 && 0 <= d < 4 && (c > i || (c == i && d >= j + 1)) && (c < a || (
                        c == a && d < b)) ==> !#[trigger] candidate_live(world, c, d, ptr_at, i32_at);
                assert(candidate_live(world, a, b, ptr_at, i32_at));
            }
        }
    }
}

/// Driven with reads from one memory image, the search for the actor array
/// answers the first candidate, in the order level offset 0x30, 0x38, 0x150 and
/// within each array offset 0x98, 0xA0, 0xA8, 0xB0, whose level pointer and data
/// pointer are non-null and whose 32-bit count `c` has `0 < c < 50_000`; where
/// no candidate is like that, and for a null world, it answers level 0 and an
/// empty array. In particular a count of 50 000 or more is never answered.
pub proof fn lemma_find_best_actors_answer(
    world: usize,
    ptr_at: spec_fn(usize) -> usize,
    i32_at: spec_fn(usize) -> i32,
)
    requires
        world == 0 || world + 0x30 <= usize::MAX,
    ensures
        run_search(spec_find_best_actors(world), ptr_at, i32_at) matches Some(t) ==> {
            ||| world == 0 && t == (0usize, ActorArray { data: 0, count: 0 })
            ||| world != 0 && exists|a: int, b: int|
                #![trigger candidate_live(world, a, b, ptr_at, i32_at)]
                0 <= a < 3 && 0 <= b < 4 && candidate_live(world, a, b, ptr_at, i32_at) && t
                    == candidate_answer(world, a, b, ptr_at, i32_at) && forall|c: int, d: int|
                    0 <= c < 3 && 0 <= d < 4 && (c < a || (c == a && d < b)) ==> !#[trigger] candidate_live(
                        world,
                        c,
                        d,
                        ptr_at,
                        i32_at,
                    )
            ||| world != 0 && (forall|c: int, d: int|
                0 <= c < 3 && 0 <= d < 4 ==> !#[trigger] candidate_live(world, c, d, ptr_at, i32_at))
                && t == (0usize, ActorArray { data: 0, count: 0 })
        },
        run_search(spec_find_best_actors(world), ptr_at, i32_at) matches Some(t) ==> t.1.count < 50_000,
{
    assert(level_offsets()[0] == 0x30);
    lemma_find_best_actors_follows_memory(world, ptr_at, i32_at);
    if world != 0 {
        lemma_first_hit_is_first_live(world, 0, 0, ptr_at, i32_at);
    }
}

} // verus!
