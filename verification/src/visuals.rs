//! Decisions of the overlay that need no floating point: which classes the
//! user picked, and the per-class tally of live actors shown in the class list.

use vstd::prelude::*;

verus! {

/// Whether the manual class filter is in force: it is switched on and at least
/// one class is picked.
pub fn manual_filter_on(active: bool, selected: &[usize]) -> (r: bool)
    ensures
        r == (active && exists|i: int| 0 <= i < selected@.len() && selected@[i] != 0),
{
    if !active {
        return false;
    }
    let mut i: usize = 0;
    while i < selected.len()
        invariant
            active,
            i <= selected@.len(),
            forall|k: int| 0 <= k < i ==> selected@[k] == 0,
        decreases selected@.len() - i,
    {
        if selected[i] != 0 {
            assert(selected@[i as int] != 0);
            return true;
        }
        i = i + 1;
    }
    false
}

/// Whether an actor of class `class_ptr` is shown by the manual filter: the
/// filter is in force and the class is one of those picked.
pub fn manual_match(filter_on: bool, selected: &[usize], class_ptr: usize) -> (r: bool)
    ensures
        r == (filter_on && selected@.contains(class_ptr)),
{
    if !filter_on {
        return false;
    }
    let mut i: usize = 0;
    while i < selected.len()
        invariant
            filter_on,
            i <= selected@.len(),
            forall|k: int| 0 <= k < i ==> selected@[k] != class_ptr,
        decreases selected@.len() - i,
    {
        if selected[i] == class_ptr {
            assert(selected@[i as int] == class_ptr);
            assert(selected@.contains(class_ptr));
            return true;
        }
        i = i + 1;
    }
    false
}

/// One line of the class list: a class and how many live actors of it were seen.
#[derive(Clone, Copy, Debug, PartialEq, Eq, Structural)]
pub struct ClassGroup {
    pub class_ptr: usize,
    pub count: u32,
}

impl ClassGroup {
    pub open spec fn spec_empty() -> ClassGroup {
        ClassGroup { class_ptr: 0, count: 0 }
    }

    /// An unused line of the class list.
    pub fn empty() -> (g: ClassGroup)
        ensures
            g == ClassGroup::spec_empty(),
    {
        ClassGroup { class_ptr: 0, count: 0 }
    }
}

/// Index of the first group of class `c` at or after `i`, or `gs.len()` where there is none.
pub open spec fn class_slot_from(gs: Seq<ClassGroup>, c: usize, i: int) -> int
    decreases gs.len() - i,
{
    if i < 0 || i >= gs.len() {
        gs.len() as int
    } else if gs[i].class_ptr == c {
        i
    } else {
        class_slot_from(gs, c, i + 1)
    }
}

/// Index of the first group of class `c`, or `gs.len()` where there is none.
pub open spec fn class_slot(gs: Seq<ClassGroup>, c: usize) -> int {
    class_slot_from(gs, c, 0)
}

/// The groups after one more live actor of class `c` was seen: the null class is
/// not listed; a listed class counts one more; a new class is appended with one.
pub open spec fn spec_record_class(gs: Seq<ClassGroup>, c: usize) -> Seq<ClassGroup> {
    let i = class_slot(gs, c);
    if c == 0 {
        gs
    } else if i < gs.len() {
        gs.update(i, ClassGroup { class_ptr: c, count: (gs[i].count + 1) as u32 })
    } else {
        gs.push(ClassGroup { class_ptr: c, count: 1 })
    }
}

/// How many live actors of class `d` the groups count (0 where it is not listed).
pub open spec fn count_of(gs: Seq<ClassGroup>, d: usize) -> int {
    let i = class_slot(gs, d);
    if i < gs.len() {
        gs[i].count as int
    } else {
        0
    }
}

proof fn lemma_slot_in_range(gs: Seq<ClassGroup>, c: usize, i: int)
    requires
        0 <= i,
    ensures
        i <= class_slot_from(gs, c, i) <= gs.len() || (i > gs.len() && class_slot_from(gs, c, i)
            == gs.len()),
        class_slot_from(gs, c, i) < gs.len() ==> gs[class_slot_from(gs, c, i)].class_ptr == c,
    decreases gs.len() - i,
{
    if 0 <= i < gs.len() && gs[i].class_ptr != c {
        lemma_slot_in_range(gs, c, i + 1);
    }
}

/// Counts one more live actor of class `class_ptr` in the class list; the null
/// class is not listed.
pub fn record_class(groups: &mut Vec<ClassGroup>, class_ptr: usize)
    requires
        class_ptr == 0 || count_of(old(groups)@, class_ptr) < u32::MAX,
    ensures
        final(groups)@ == spec_record_class(old(groups)@, class_ptr),
{
    if class_ptr == 0 {
        return;
    }
    let ghost gs = groups@;
    let mut i: usize = 0;
    while i < groups.len() && groups[i].class_ptr != class_ptr
        invariant
            gs == groups@,
            i <= gs.len(),
            class_slot_from(gs, class_ptr, 0) == class_slot_from(gs, class_ptr, i as int),
        decreases gs.len() - i,
    {
        i = i + 1;
    }
    proof {
        lemma_slot_in_range(gs, class_ptr, 0);
    }
    if i < groups.len() {
        let count = groups[i].count;
        groups.set(i, ClassGroup { class_ptr, count: count + 1 });
    } else {
        groups.push(ClassGroup { class_ptr, count: 1 });
    }
}

proof fn lemma_slot_update(gs: Seq<ClassGroup>, c: usize, i: int, k: int, g: ClassGroup)
    requires
        0 <= k < gs.len(),
        g.class_ptr == gs[k].class_ptr,
    ensures
        class_slot_from(gs.update(k, g), c, i) == class_slot_from(gs, c, i),
    decreases gs.len() - i,
{
    if 0 <= i < gs.len() && gs[i].class_ptr != c {
        lemma_slot_update(gs, c, i + 1, k, g);
    }
}

proof fn lemma_slot_push(gs: Seq<ClassGroup>, c: usize, i: int, g: ClassGroup)
    requires
        0 <= i <= gs.len(),
    ensures
        class_slot_from(gs.push(g), c, i) == (if class_slot_from(gs, c, i) < gs.len() {
            class_slot_from(gs, c, i)
        } else if g.class_ptr == c {
            gs.len() as int
        } else {
            gs.len() + 1int
        }),
    decreases gs.len() - i,
{
    if i < gs.len() && gs[i].class_ptr != c {
        lemma_slot_push(gs, c, i + 1, g);
    } else if i == gs.len() {
        assert(gs.push(g)[i] == g);
        assert(class_slot_from(gs.push(g), c, i + 1) == gs.len() + 1);
    } else {
        assert(gs.push(g)[i] == gs[i]);
    }
}

/// Recording class `c` counts one more actor of class `c` (unless `c` is null)
/// and leaves the count of every other class as it was.
pub proof fn lemma_record_counts(gs: Seq<ClassGroup>, c: usize, d: usize)
    requires
        c == 0 || count_of(gs, c) < u32::MAX,
    ensures
        count_of(spec_record_class(gs, c), d) == count_of(gs, d) + (if c != 0 && d == c {
            1int
        } else {
            0int
        }),
{
    lemma_slot_in_range(gs, c, 0);
    lemma_slot_in_range(gs, d, 0);
    if c != 0 {
        let i = class_slot(gs, c);
        if i < gs.len() {
            let g = ClassGroup { class_ptr: c, count: (gs[i].count + 1) as u32 };
            lemma_slot_update(gs, d, 0, i, g);
        } else {
            lemma_slot_push(gs, d, 0, ClassGroup { class_ptr: c, count: 1 });
        }
    }
}

/// The class list after the live actors of classes `cs` were recorded in order.
pub open spec fn tally(cs: Seq<usize>) -> Seq<ClassGroup>
    decreases cs.len(),
{
    if cs.len() == 0 {
        Seq::empty()
    } else {
        spec_record_class(tally(cs.drop_last()), cs.last())
    }
}

/// How often `d` occurs in `cs`.
pub open spec fn occurrences(cs: Seq<usize>, d: usize) -> int
    decreases cs.len(),
{
    if cs.len() == 0 {
        0
    } else {
        occurrences(cs.drop_last(), d) + (if cs.last() == d {
            1int
        } else {
            0int
        })
    }
}

/// Recording the classes of a sequence of actors one by one counts, for every
/// non-null class, exactly the actors of that class; the null class is never listed.
pub proof fn lemma_tally_counts(cs: Seq<usize>, d: usize)
    requires
        cs.len() < u32::MAX,
    ensures
        count_of(tally(cs), d) == (if d == 0 {
            0
        } else {
            occurrences(cs, d)
        }),
        0 <= count_of(tally(cs), d) <= cs.len(),
    decreases cs.len(),
{
    if cs.len() > 0 {
        let init = cs.drop_last();
        let c = cs.last();
        lemma_tally_counts(init, d);
        lemma_tally_counts(init, c);
        lemma_record_counts(tally(init), c, d);
    } else {
        assert(class_slot(Seq::<ClassGroup>::empty(), d) == 0);
    }
}

/// `a` (at index `ia` of the unsorted list) comes before `b` (at `ib`): it has
/// more actors, or as many and was listed first.
pub open spec fn ranked_before(a: ClassGroup, ia: int, b: ClassGroup, ib: int) -> bool {
    a.count > b.count || (a.count == b.count && ia < ib)
}

/// `out` lists the first `k` groups of `gs`, group `p[i]` of `gs` at place `i`,
/// busiest first and, among equally busy ones, in the order of `gs`.
pub open spec fn ranking_of_prefix(gs: Seq<ClassGroup>, out: Seq<ClassGroup>, p: Seq<int>, k: int) -> bool {
    &&& p.len() == k
    &&& out.len() == k
    &&& forall|i: int| 0 <= i < k ==> 0 <= #[trigger] p[i] < k
    &&& forall|i: int, j: int| 0 <= i < j < k ==> p[i] != p[j]
    &&& forall|i: int| 0 <= i < k ==> #[trigger] out[i] == gs[p[i]]
    &&& forall|i: int, j: int| 0 <= i < j < k ==> ranked_before(out[i], p[i], out[j], p[j])
}

/// `out` is `gs` ordered by count, busiest first, with equally busy groups kept
/// in the order of `gs` (the order in which their classes were first seen).
pub open spec fn is_stable_ranking(gs: Seq<ClassGroup>, out: Seq<ClassGroup>) -> bool {
    exists|p: Seq<int>| ranking_of_prefix(gs, out, p, gs.len() as int)
}

/// Orders the class list busiest first; classes with as many actors keep their order.
pub fn sort_class_groups(groups: &mut Vec<ClassGroup>)
    ensures
        is_stable_ranking(old(groups)@, final(groups)@),
{
    let ghost gs = groups@;
    let n = groups.len();
    let mut out: Vec<ClassGroup> = Vec::new();
    let ghost mut p: Seq<int> = Seq::empty();
    for k in 0..n
        invariant
            n == gs.len(),
            gs == groups@,
            ranking_of_prefix(gs, out@, p, k as int),
    {
        let g = groups[k];
        let mut pos: usize = 0;
        while pos < out.len() && out[pos].count >= g.count
            invariant
                pos <= out@.len(),
                forall|i: int| 0 <= i < pos ==> out@[i].count >= g.count,
            decreases out@.len() - pos,
        {
            pos = pos + 1;
        }
        let ghost old_out = out@;
        let ghost old_p = p;
        assert(forall|j: int| pos <= j < old_out.len() ==> old_out[j].count < g.count) by {
            if pos < old_out.len() {
                assert forall|j: int| pos <= j < old_out.len() implies old_out[j].count < g.count by {
                    if j > pos {
                        assert(ranked_before(old_out[pos as int], old_p[pos as int], old_out[j], old_p[j]));
                    }
                }
            }
        }
        out.insert(pos, g);
        proof {
            p = p.insert(pos as int, k as int);
            old_out.insert_ensures(pos as int, g);
            old_p.insert_ensures(pos as int, k as int);
            assert forall|i: int, j: int| 0 <= i < j < k + 1 implies ranked_before(
                out@[i],
                p[i],
                out@[j],
                p[j],
            ) by {
                if j < pos {
                } else if j == pos {
                    assert(old_p[i] < k);
                } else if i < pos {
                    assert(ranked_before(old_out[i], old_p[i], old_out[j - 1], old_p[j - 1]));
                } else if i == pos {
                } else {
                    assert(ranked_before(old_out[i - 1], old_p[i - 1], old_out[j - 1], old_p[j - 1]));
                }
            }
            assert forall|i: int, j: int| 0 <= i < j < k + 1 implies p[i] != p[j] by {
                if i < pos && j > pos {
                    assert(old_p[i] != old_p[j - 1]);
                } else if i > pos {
                    assert(old_p[i - 1] != old_p[j - 1]);
                } else if j < pos {
                    assert(old_p[i] != old_p[j]);
                } else if i == pos {
                    assert(old_p[j - 1] < k);
                } else {
                    assert(old_p[i] < k);
                }
            }
            assert forall|i: int| 0 <= i < k + 1 implies 0 <= #[trigger] p[i] < k + 1 by {
                if i < pos {
                    assert(old_p[i] < k);
                } else if i > pos {
                    assert(old_p[i - 1] < k);
                }
            }
            assert forall|i: int| 0 <= i < k + 1 implies #[trigger] out@[i] == gs[p[i]] by {
                if i < pos {
                    assert(old_out[i] == gs[old_p[i]]);
                } else if i > pos {
                    assert(old_out[i - 1] == gs[old_p[i - 1]]);
                }
            }
        }
    }
    *groups = out;
}

/// Fills the class list shown to the user: place `i` holds the `i`-th ranked
/// group, and the places past the last group are emptied.
pub fn fill_class_slots(slots: &mut Vec<ClassGroup>, ranked: &Vec<ClassGroup>)
    ensures
        final(slots)@.len() == old(slots)@.len(),
        forall|i: int|
            0 <= i < old(slots)@.len() ==> #[trigger] final(slots)@[i] == (if i < ranked@.len() {
                ranked@[i]
            } else {
                ClassGroup::spec_empty()
            }),
{
    let n = slots.len();
    for i in 0..n
        invariant
            n == old(slots)@.len(),
            slots@.len() == n,
            forall|k: int|
                0 <= k < i ==> #[trigger] slots@[k] == (if k < ranked@.len() {
                    ranked@[k]
                } else {
                    ClassGroup::spec_empty()
                }),
    {
        if i < ranked.len() {
            slots.set(i, ranked[i]);
        } else {
            slots.set(i, ClassGroup::empty());
        }
    }
}

/// Recording keeps every listed class at its place; a class not yet listed is
/// appended at the end with a count of one, and the null class changes nothing.
pub proof fn lemma_record_keeps_places(gs: Seq<ClassGroup>, c: usize)
    ensures
        spec_record_class(gs, c).len() >= gs.len(),
        forall|i: int|
            0 <= i < gs.len() ==> #[trigger] spec_record_class(gs, c)[i].class_ptr == gs[i].class_ptr,
        c == 0 ==> spec_record_class(gs, c) == gs,
        c != 0 && (forall|i: int| 0 <= i < gs.len() ==> #[trigger] gs[i].class_ptr != c) ==> spec_record_class(
            gs,
            c,
        ) == gs.push(ClassGroup { class_ptr: c, count: 1 }),
        c != 0 && (exists|i: int| 0 <= i < gs.len() && #[trigger] gs[i].class_ptr == c) ==> spec_record_class(
            gs,
            c,
        ).len() == gs.len(),
{
    lemma_slot_in_range(gs, c, 0);
    if c != 0 {
        if forall|i: int| 0 <= i < gs.len() ==> #[trigger] gs[i].class_ptr != c {
            lemma_slot_absent(gs, c, 0);
        } else {
            let w = choose|i: int| 0 <= i < gs.len() && #[trigger] gs[i].class_ptr == c;
            lemma_slot_present(gs, c, 0, w);
        }
    }
}

proof fn lemma_slot_absent(gs: Seq<ClassGroup>, c: usize, i: int)
    requires
        0 <= i,
        forall|k: int| 0 <= k < gs.len() ==> #[trigger] gs[k].class_ptr != c,
    ensures
        class_slot_from(gs, c, i) == gs.len(),
    decreases gs.len() - i,
{
    if i < gs.len() {
        lemma_slot_absent(gs, c, i + 1);
    }
}

proof fn lemma_slot_present(gs: Seq<ClassGroup>, c: usize, i: int, w: int)
    requires
        0 <= i <= w < gs.len(),
        gs[w].class_ptr == c,
    ensures
        class_slot_from(gs, c, i) <= w,
    decreases gs.len() - i,
{
    if i < w && gs[i].class_ptr != c {
        lemma_slot_present(gs, c, i + 1, w);
    }
}

} // verus!
