//! The survey of all candidate offsets: for every level candidate and array
//! candidate, the element count found there (or -1 where the level is null).

use vstd::prelude::*;
use crate::memory::{
    candidate_level, candidate_count, level_offset_value, array_offset_value,
    lemma_candidate_agrees, candidate_addresses_fit, level_offsets, array_offsets, level_at, count_at, candidate_level_offset,
    candidate_array_offset, LEVEL_CANDIDATES, ARRAY_CANDIDATES, ARRAY_COUNT_OFFSET,
};
use crate::probe::{Probe, Reading, Step, answer};

verus! {

/// Number of rows in the survey: one per level candidate and array candidate.
pub const SCAN_ROWS: usize = 12;

/// One row of the survey: level offset, array offset, count (-1 for a null level).
pub type ScanRow = (usize, usize, i32);

/// Which read an [`OffsetScan`] waits for.
#[derive(Clone, Copy, Debug, PartialEq, Eq, Structural)]
pub enum ScanPhase {
    /// The level pointer of level candidate `lv`.
    Level,
    /// The element count of array candidate `arr` in the current level.
    Count,
    /// Nothing: the survey is complete.
    Finished,
}

/// A survey of the candidate offsets of the world `world`, in progress.
#[derive(Clone, Copy, Debug, PartialEq, Eq)]
pub struct OffsetScan {
    pub world: usize,
    pub lv: usize,
    pub arr: usize,
    pub phase: ScanPhase,
    pub level: usize,
    pub rows: [ScanRow; 12],
}

/// The abstract state of an [`OffsetScan`]: its rows as a sequence.
pub struct ScanView {
    pub world: usize,
    pub lv: usize,
    pub arr: usize,
    pub phase: ScanPhase,
    pub level: usize,
    pub rows: Seq<ScanRow>,
}

impl View for OffsetScan {
    type V = ScanView;

    open spec fn view(&self) -> ScanView {
        ScanView {
            world: self.world,
            lv: self.lv,
            arr: self.arr,
            phase: self.phase,
            level: self.level,
            rows: self.rows@,
        }
    }
}

/// A step of the survey with its rows taken as a sequence.
pub open spec fn step_view(st: Step<[ScanRow; 12]>) -> Step<Seq<ScanRow>> {
    match st {
        Step::Read(p) => Step::Read(p),
        Step::Done(rows) => Step::Done(rows@),
    }
}

/// The row of level candidate `i`, array candidate `j`, with count `count`.
pub open spec fn row(i: int, j: int, count: i32) -> ScanRow {
    (level_offsets()[i], array_offsets()[j], count)
}

impl ScanView {
    pub open spec fn wf(self) -> bool {
        &&& self.lv < LEVEL_CANDIDATES
        &&& self.arr < ARRAY_CANDIDATES
        &&& self.rows.len() == SCAN_ROWS
        &&& match self.phase {
            ScanPhase::Level => self.world + level_offsets()[self.lv as int] <= usize::MAX,
            ScanPhase::Count => self.level != 0 && self.level + array_offsets()[self.arr as int]
                + ARRAY_COUNT_OFFSET <= usize::MAX,
            ScanPhase::Finished => true,
        }
    }

    /// The read that the survey waits for.
    pub open spec fn pending(self) -> Probe {
        match self.phase {
            ScanPhase::Level => Probe::Ptr((self.world + level_offsets()[self.lv as int]) as usize),
            ScanPhase::Count => Probe::I32(
                (self.level + array_offsets()[self.arr as int] + ARRAY_COUNT_OFFSET) as usize,
            ),
            ScanPhase::Finished => Probe::Ptr(0),
        }
    }

    pub open spec fn next_level_fits(self) -> bool {
        self.lv + 1 < LEVEL_CANDIDATES ==> self.world + level_offsets()[self.lv + 1] <= usize::MAX
    }

    /// Moving on from level candidate `lv` with the rows `rows`.
    pub open spec fn after_level(self, rows: Seq<ScanRow>) -> (ScanView, Step<Seq<ScanRow>>) {
        if self.lv + 1 < LEVEL_CANDIDATES {
            let s = ScanView {
                lv: (self.lv + 1) as usize,
                arr: 0,
                phase: ScanPhase::Level,
                rows,
                ..self
            };
            (s, Step::Read(s.pending()))
        } else {
            (ScanView { phase: ScanPhase::Finished, rows, ..self }, Step::Done(rows))
        }
    }

    /// The rows with the four rows of level candidate `lv` marked as a null level.
    pub open spec fn null_level_rows(self) -> Seq<ScanRow> {
        let base = 4 * self.lv;
        self.rows.update(base, row(self.lv as int, 0, -1i32)).update(base + 1, row(self.lv as int, 1, -1i32)).update(
            base + 2,
            row(self.lv as int, 2, -1i32),
        ).update(base + 3, row(self.lv as int, 3, -1i32))
    }

    /// `r` is of the kind the survey waits for, and the address computed from it fits.
    pub open spec fn accepts(self, r: Reading) -> bool {
        match (self.phase, r) {
            (ScanPhase::Level, Reading::Ptr(level)) => if level == 0 {
                self.next_level_fits()
            } else {
                level + array_offsets()[0] + ARRAY_COUNT_OFFSET <= usize::MAX
            },
            (ScanPhase::Count, Reading::I32(_)) => if self.arr + 1 < ARRAY_CANDIDATES {
                self.level + array_offsets()[self.arr + 1] + ARRAY_COUNT_OFFSET <= usize::MAX
            } else {
                self.next_level_fits()
            },
            _ => false,
        }
    }

    /// The survey after it is handed `r`, and what it asks for next.
    pub open spec fn next(self, r: Reading) -> (ScanView, Step<Seq<ScanRow>>) {
        match (self.phase, r) {
            (ScanPhase::Level, Reading::Ptr(level)) => if level == 0 {
                self.after_level(self.null_level_rows())
            } else {
                let s = ScanView { level, arr: 0, phase: ScanPhase::Count, ..self };
                (s, Step::Read(s.pending()))
            },
            (ScanPhase::Count, Reading::I32(count)) => {
                let rows = self.rows.update(
                    4 * self.lv + self.arr,
                    row(self.lv as int, self.arr as int, count),
                );
                if self.arr + 1 < ARRAY_CANDIDATES {
                    let s = ScanView { arr: (self.arr + 1) as usize, rows, ..self };
                    (s, Step::Read(s.pending()))
                } else {
                    self.after_level(rows)
                }
            },
            _ => (self, Step::Done(self.rows)),
        }
    }

    pub open spec fn measure(self) -> nat {
        match self.phase {
            ScanPhase::Level => ((3 - self.lv) * 5) as nat,
            ScanPhase::Count => ((2 - self.lv) * 5 + (4 - self.arr)) as nat,
            ScanPhase::Finished => 0,
        }
    }

    /// The rows the survey reaches when every read is answered from the memory
    /// image; `None` where an address computation would overflow.
    pub open spec fn outcome(
        self,
        ptr_at: spec_fn(usize) -> usize,
        i32_at: spec_fn(usize) -> i32,
    ) -> Option<Seq<ScanRow>>
        decreases self.measure(),
    {
        if !self.wf() || self.phase == ScanPhase::Finished {
            None
        } else {
            let r = answer(self.pending(), ptr_at, i32_at);
            if !self.accepts(r) {
                None
            } else {
                match self.next(r).1 {
                    Step::Done(t) => Some(t),
                    Step::Read(_) => self.next(r).0.outcome(ptr_at, i32_at),
                }
            }
        }
    }
}

impl OffsetScan {
    /// Whether handing `r` to the survey is in order: it waits for a read of
    /// that kind and the address it then computes fits in a `usize`.
    pub fn accepts(&self, r: Reading) -> (b: bool)
        requires
            self@.wf(),
        ensures
            b == self@.accepts(r),
    {
        match (self.phase, r) {
            (ScanPhase::Level, Reading::Ptr(level)) => if level == 0 {
                self.lv + 1 >= LEVEL_CANDIDATES || self.world <= usize::MAX - candidate_level_offset(
                    self.lv + 1,
                )
            } else {
                level <= usize::MAX - candidate_array_offset(0) - ARRAY_COUNT_OFFSET
            },
            (ScanPhase::Count, Reading::I32(_)) => if self.arr + 1 < ARRAY_CANDIDATES {
                self.level <= usize::MAX - candidate_array_offset(self.arr + 1) - ARRAY_COUNT_OFFSET
            } else {
                self.lv + 1 >= LEVEL_CANDIDATES || self.world <= usize::MAX - candidate_level_offset(
                    self.lv + 1,
                )
            },
            _ => false,
        }
    }

    /// The read that the survey waits for, or `None` once it is complete.
    pub fn pending_probe(&self) -> (p: Option<Probe>)
        requires
            self@.wf(),
        ensures
            p == (if self.phase == ScanPhase::Finished {
                None
            } else {
                Some(self@.pending())
            }),
    {
        match self.phase {
            ScanPhase::Level => Some(Probe::Ptr(self.world + candidate_level_offset(self.lv))),
            ScanPhase::Count => Some(
                Probe::I32(self.level + candidate_array_offset(self.arr) + ARRAY_COUNT_OFFSET),
            ),
            ScanPhase::Finished => None,
        }
    }

    fn leave_level(&mut self) -> (st: Step<[ScanRow; 12]>)
        requires
            old(self)@.wf(),
            old(self).phase != ScanPhase::Finished,
            old(self)@.next_level_fits(),
        ensures
            (final(self)@, step_view(st)) == old(self)@.after_level(old(self)@.rows),
            final(self)@.wf(),
    {
        if self.lv + 1 < LEVEL_CANDIDATES {
            self.lv = self.lv + 1;
            self.arr = 0;
            self.phase = ScanPhase::Level;
            Step::Read(Probe::Ptr(self.world + candidate_level_offset(self.lv)))
        } else {
            self.phase = ScanPhase::Finished;
            Step::Done(self.rows)
        }
    }

    /// Hands the survey the value its pending read produced; returns the next
    /// read it asks for, or the complete rows.
    pub fn advance(&mut self, r: Reading) -> (st: Step<[ScanRow; 12]>)
        requires
            old(self)@.wf(),
            old(self).phase != ScanPhase::Finished,
            old(self)@.accepts(r),
        ensures
            (final(self)@, step_view(st)) == old(self)@.next(r),
            final(self)@.wf(),
    {
        match (self.phase, r) {
            (ScanPhase::Level, Reading::Ptr(level)) => {
                if level == 0 {
                    let lv_off = candidate_level_offset(self.lv);
                    let base = 4 * self.lv;
                    self.rows[base] = (lv_off, candidate_array_offset(0), -1);
                    self.rows[base + 1] = (lv_off, candidate_array_offset(1), -1);
                    self.rows[base + 2] = (lv_off, candidate_array_offset(2), -1);
                    self.rows[base + 3] = (lv_off, candidate_array_offset(3), -1);
                    self.leave_level()
                } else {
                    self.level = level;
                    self.arr = 0;
                    self.phase = ScanPhase::Count;
                    Step::Read(Probe::I32(level + candidate_array_offset(0) + ARRAY_COUNT_OFFSET))
                }
            },
            (ScanPhase::Count, Reading::I32(count)) => {
                self.rows[4 * self.lv + self.arr] = (
                    candidate_level_offset(self.lv),
                    candidate_array_offset(self.arr),
                    count,
                );
                if self.arr + 1 < ARRAY_CANDIDATES {
                    self.arr = self.arr + 1;
                    Step::Read(
                        Probe::I32(self.level + candidate_array_offset(self.arr) + ARRAY_COUNT_OFFSET),
                    )
                } else {
                    self.leave_level()
                }
            },
            _ => {
                proof {
                    assert(false);
                }
                Step::Done(self.rows)
            },
        }
    }
}

/// Twelve empty rows.
pub open spec fn blank_rows() -> Seq<ScanRow> {
    Seq::new(12, |k: int| (0usize, 0usize, 0i32))
}

/// The survey of `world` as it starts, with its first request.
pub open spec fn spec_scan_offsets(world: usize) -> (ScanView, Step<Seq<ScanRow>>) {
    let s = ScanView {
        world,
        lv: 0,
        arr: 0,
        phase: if world == 0 {
            ScanPhase::Finished
        } else {
            ScanPhase::Level
        },
        level: 0,
        rows: blank_rows(),
    };
    if world == 0 {
        (s, Step::Done(blank_rows()))
    } else {
        (s, Step::Read(s.pending()))
    }
}

/// Starts the survey of the candidate offsets of `world`: with a null world the
/// answer is twelve empty rows at once; otherwise the first read is the first
/// level candidate.
pub fn scan_offsets(world: usize) -> (r: (OffsetScan, Step<[ScanRow; 12]>))
    requires
        world == 0 || world + level_offsets()[0] <= usize::MAX,
    ensures
        (r.0@, step_view(r.1)) == spec_scan_offsets(world),
        r.0@.wf(),
{
    let rows: [ScanRow; 12] = [(0usize, 0usize, 0i32); 12];
    assert(rows@ =~= blank_rows());
    if world == 0 {
        let s = OffsetScan { world, lv: 0, arr: 0, phase: ScanPhase::Finished, level: 0, rows };
        return (s, Step::Done(rows));
    }
    let s = OffsetScan { world, lv: 0, arr: 0, phase: ScanPhase::Level, level: 0, rows };
    (s, Step::Read(Probe::Ptr(world + candidate_level_offset(0))))
}

/// Row `k` of the survey of a memory image: its level and array candidate, and
/// the count read there, or -1 where the level pointer is null.
pub open spec fn scan_entry(
    world: usize,
    k: int,
    ptr_at: spec_fn(usize) -> usize,
    i32_at: spec_fn(usize) -> i32,
) -> ScanRow {
    let i = k / 4;
    let j = k % 4;
    let level = level_at(world, i, ptr_at);
    row(i, j, if level == 0 { -1i32 } else { count_at(level, j, i32_at) })
}

/// The survey of a memory image: twelve empty rows for a null world, else row
/// `4 * i + j` for level candidate `i` and array candidate `j`.
pub open spec fn scan_table(
    world: usize,
    ptr_at: spec_fn(usize) -> usize,
    i32_at: spec_fn(usize) -> i32,
) -> Seq<ScanRow> {
    if world == 0 {
        blank_rows()
    } else {
        Seq::new(12, |k: int| scan_entry(world, k, ptr_at, i32_at))
    }
}

/// What a survey started by [`scan_offsets`] answers when every read is answered
/// from the memory image; `None` where an address would overflow.
pub open spec fn run_scan(
    start: (ScanView, Step<Seq<ScanRow>>),
    ptr_at: spec_fn(usize) -> usize,
    i32_at: spec_fn(usize) -> i32,
) -> Option<Seq<ScanRow>> {
    match start.1 {
        Step::Done(t) => Some(t),
        Step::Read(_) => start.0.outcome(ptr_at, i32_at),
    }
}

/// The survey's fields agree with the memory image: the rows before its
/// position are those of [`scan_entry`], and the level it holds is the one read.
pub open spec fn scan_consistent(
    s: ScanView,
    ptr_at: spec_fn(usize) -> usize,
    i32_at: spec_fn(usize) -> i32,
) -> bool {
    &&& s.world != 0
    &&& s.phase == ScanPhase::Level ==> s.arr == 0
    &&& s.phase == ScanPhase::Count ==> s.level == level_at(s.world, s.lv as int, ptr_at)
    &&& forall|k: int|
        0 <= k < 4 * s.lv + s.arr ==> #[trigger] s.rows[k] == scan_entry(s.world, k, ptr_at, i32_at)
}

proof fn lemma_row_index(i: int, j: int)
    requires
        0 <= i,
        0 <= j < 4,
    ensures
        (4 * i + j) / 4 == i,
        (4 * i + j) % 4 == j,
{
    vstd::arithmetic::div_mod::lemma_fundamental_div_mod_converse(4 * i + j, 4, i, j);
}

proof fn lemma_scan_outcome(
    s: ScanView,
    ptr_at: spec_fn(usize) -> usize,
    i32_at: spec_fn(usize) -> i32,
)
    requires
        s.wf(),
        s.phase != ScanPhase::Finished,
        scan_consistent(s, ptr_at, i32_at),
    ensures
        s.outcome(ptr_at, i32_at) matches Some(t) ==> t == scan_table(s.world, ptr_at, i32_at),
        candidate_addresses_fit(s.world, ptr_at) ==> s.outcome(ptr_at, i32_at) is Some,
    decreases s.measure(),
{
    let r = answer(s.pending(), ptr_at, i32_at);
    let w = s.world;
    let lv = s.lv as int;
    let arr = s.arr as int;
    if candidate_addresses_fit(w, ptr_at) {
        assert(level_at(w, lv, ptr_at) == 0 || level_at(w, lv, ptr_at) + array_offsets()[3]
            + ARRAY_COUNT_OFFSET <= usize::MAX);
        assert(s.accepts(r));
    }
    if s.accepts(r) {
        let (s2, st) = s.next(r);
        let rows = match s.phase {
            ScanPhase::Level => s.null_level_rows(),
            _ => s.rows.update(4 * s.lv + s.arr, row(lv, arr, count_at(s.level, arr, i32_at))),
        };
        let level = level_at(w, lv, ptr_at);
        if s.phase == ScanPhase::Level && level != 0 {
            lemma_scan_outcome(s2, ptr_at, i32_at);
        } else {
            let filled = if s.phase == ScanPhase::Level { 4 * lv + 4 } else { 4 * lv + arr + 1 };
            assert forall|k: int| 0 <= k < filled implies #[trigger] rows[k] == scan_entry(
                w,
                k,
                ptr_at,
                i32_at,
            ) by {
                if k >= 4 * lv + arr {
                    lemma_row_index(lv, k - 4 * lv);
                }
            }
            if filled == 4 * lv + 4 && lv + 1 >= 3 {
                assert(rows =~= scan_table(w, ptr_at, i32_at));
            } else {
                assert(forall|k: int| 0 <= k < 4 * s2.lv + s2.arr ==> #[trigger] s2.rows[k] == rows[k]);
                lemma_scan_outcome(s2, ptr_at, i32_at);
            }
        }
    }
}

/// Driven with reads from one memory image, the survey answers exactly
/// [`scan_table`]: for each level candidate and array candidate in order, the
/// offsets and the count read there, -1 where the level pointer is null, and
/// twelve empty rows for a null world. It answers whenever no address it
/// computes overflows.
pub proof fn lemma_scan_offsets_follows_memory(
    world: usize,
    ptr_at: spec_fn(usize) -> usize,
    i32_at: spec_fn(usize) -> i32,
)
    requires
        world == 0 || world + level_offsets()[0] <= usize::MAX,
    ensures
        run_scan(spec_scan_offsets(world), ptr_at, i32_at) matches Some(t) ==> t == scan_table(
            world,
            ptr_at,
            i32_at,
        ),
        candidate_addresses_fit(world, ptr_at) ==> run_scan(spec_scan_offsets(world), ptr_at, i32_at) is Some,
{
    if world != 0 {
        lemma_scan_outcome(spec_scan_offsets(world).0, ptr_at, i32_at);
    }
}

/// Every read the survey takes brings it closer to completion: after an
/// accepted reading it either answers (and then waits for nothing) or asks for
/// another read with fewer reads left, and it starts with at most 15 reads left.
pub proof fn lemma_scan_progress(s: ScanView, r: Reading, world: usize)
    requires
        s.wf(),
        s.phase != ScanPhase::Finished,
        s.accepts(r),
    ensures
        s.next(r).1 is Read ==> s.next(r).0.measure() < s.measure() && s.next(r).0.phase
            != ScanPhase::Finished && s.next(r).1 == Step::<Seq<ScanRow>>::Read(s.next(r).0.pending()),
        s.next(r).1 is Done ==> s.next(r).0.phase == ScanPhase::Finished,
        spec_scan_offsets(world).0.measure() <= 15,
{
}

/// Driven with reads from one memory image, the survey answers twelve rows; row
/// `4 * i + j` holds level offset `i` (0x30, 0x38, 0x150), array offset `j`
/// (0x98, 0xA0, 0xA8, 0xB0), and the 32-bit count read at the level pointer
/// plus the array offset plus 8, or -1 where the level pointer is null. A null
/// world gives twelve rows of zeros.
pub proof fn lemma_scan_offsets_answer(
    world: usize,
    ptr_at: spec_fn(usize) -> usize,
    i32_at: spec_fn(usize) -> i32,
)
    requires
        world == 0 || world + 0x30 <= usize::MAX,
    ensures
        run_scan(spec_scan_offsets(world), ptr_at, i32_at) matches Some(t) ==> {
            &&& t.len() == 12
            &&& forall|i: int, j: int|
                0 <= i < 3 && 0 <= j < 4 ==> #[trigger] t[4 * i + j] == (if world == 0 {
                    (0usize, 0usize, 0i32)
                } else {
                    (
                        level_offset_value(i) as usize,
                        array_offset_value(j) as usize,
                        if candidate_level(world, i, ptr_at) == 0 {
                            -1i32
                        } else {
                            candidate_count(world, i, j, ptr_at, i32_at)
                        },
                    )
                })
        },
{
    assert(level_offsets()[0] == 0x30);
    lemma_scan_offsets_follows_memory(world, ptr_at, i32_at);
    let t = scan_table(world, ptr_at, i32_at);
    assert forall|i: int, j: int| 0 <= i < 3 && 0 <= j < 4 implies #[trigger] t[4 * i + j] == (if world
        == 0 {
        (0usize, 0usize, 0i32)
    } else {
        (
            level_offset_value(i) as usize,
            array_offset_value(j) as usize,
            if candidate_level(world, i, ptr_at) == 0 {
                -1i32
            } else {
                candidate_count(world, i, j, ptr_at, i32_at)
            },
        )
    }) by {
        lemma_row_index(i, j);
        lemma_candidate_agrees(world, i, j, ptr_at, i32_at);
    }
}

} // verus!
