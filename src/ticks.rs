use vstd::prelude::*;

use crate::geometry::BlockPos;
use crate::world::PlotWorld;

verus! {

/// Among ticks that are due at the same time, `High` fires first and `Low` last.
#[derive(Clone, Copy, Debug, PartialEq, Eq, Structural)]
pub enum TickPriority {
    High,
    Normal,
    Low,
}

/// A block update waiting `ticks_left` more ticks.
#[derive(Clone, Copy, Debug, PartialEq, Eq, Structural)]
pub struct TickEntry {
    pub pos: BlockPos,
    pub ticks_left: u32,
    pub tick_priority: TickPriority,
}

/// Position of a priority in firing order.
pub open spec fn priority_rank(p: TickPriority) -> int {
    match p {
        TickPriority::High => 0,
        TickPriority::Normal => 1,
        TickPriority::Low => 2,
    }
}

/// Whether `a` fires no later than `b` when both are due: ordered by
/// `(ticks_left, priority)`.
pub open spec fn tick_key_le(a: TickEntry, b: TickEntry) -> bool {
    a.ticks_left < b.ticks_left || (a.ticks_left == b.ticks_left && priority_rank(a.tick_priority)
        <= priority_rank(b.tick_priority))
}

/// Where `e` goes in `s` so that it follows every entry at or before its key
/// that ends `s`: scanning from the back, past the entries whose key is greater.
pub open spec fn insert_pos(s: Seq<TickEntry>, e: TickEntry) -> int
    decreases s.len(),
{
    if s.len() == 0 {
        0
    } else if tick_key_le(s.last(), e) {
        s.len() as int
    } else {
        insert_pos(s.drop_last(), e)
    }
}

/// `s` stably sorted by `(ticks_left, priority)`: equal keys keep their order.
pub open spec fn stable_sorted(s: Seq<TickEntry>) -> Seq<TickEntry>
    decreases s.len(),
{
    if s.len() == 0 {
        Seq::empty()
    } else {
        let r = stable_sorted(s.drop_last());
        r.insert(insert_pos(r, s.last()), s.last())
    }
}

/// Every entry with one tick less, stopping at zero.
pub open spec fn decremented(s: Seq<TickEntry>) -> Seq<TickEntry> {
    Seq::new(
        s.len(),
        |i: int| TickEntry { ticks_left: if s[i].ticks_left > 0 { (s[i].ticks_left - 1) as u32 } else { 0 }, ..s[i] },
    )
}

/// How many entries at the front of `s` have no ticks left.
pub open spec fn leading_due(s: Seq<TickEntry>) -> int
    decreases s.len(),
{
    if s.len() > 0 && s[0].ticks_left == 0 {
        1 + leading_due(s.subrange(1, s.len() as int))
    } else {
        0
    }
}

/// The queue after one tick: sorted, every entry one tick closer.
pub open spec fn advanced(s: Seq<TickEntry>) -> Seq<TickEntry> {
    decremented(stable_sorted(s))
}

/// What the next tick fires, in firing order.
pub open spec fn fired(s: Seq<TickEntry>) -> Seq<TickEntry> {
    advanced(s).subrange(0, leading_due(advanced(s)))
}

/// What still waits after the next tick, in queue order.
pub open spec fn still_waiting(s: Seq<TickEntry>) -> Seq<TickEntry> {
    advanced(s).subrange(leading_due(advanced(s)), advanced(s).len() as int)
}

/// Whether `s` is ordered by `(ticks_left, priority)`.
pub open spec fn tick_sorted(s: Seq<TickEntry>) -> bool {
    forall|i: int, j: int| 0 <= i < j < s.len() ==> tick_key_le(#[trigger] s[i], #[trigger] s[j])
}

proof fn lemma_insert_pos(s: Seq<TickEntry>, e: TickEntry)
    ensures
        0 <= insert_pos(s, e) <= s.len(),
        insert_pos(s, e) > 0 ==> tick_key_le(s[insert_pos(s, e) - 1], e),
        forall|k: int| insert_pos(s, e) <= k < s.len() ==> !tick_key_le(#[trigger] s[k], e),
    decreases s.len(),
{
    if s.len() > 0 && !tick_key_le(s.last(), e) {
        lemma_insert_pos(s.drop_last(), e);
        assert forall|k: int| insert_pos(s, e) <= k < s.len() implies !tick_key_le(#[trigger] s[k], e) by {
            if k < s.len() - 1 {
                assert(s[k] == s.drop_last()[k]);
            }
        }
    }
}

proof fn lemma_stable_sorted(s: Seq<TickEntry>)
    ensures
        tick_sorted(stable_sorted(s)),
        stable_sorted(s).len() == s.len(),
    decreases s.len(),
{
    if s.len() > 0 {
        let r = stable_sorted(s.drop_last());
        let e = s.last();
        lemma_stable_sorted(s.drop_last());
        lemma_insert_pos(r, e);
        let p = insert_pos(r, e);
        let t = r.insert(p, e);
        assert forall|i: int, j: int| 0 <= i < j < t.len() implies tick_key_le(#[trigger] t[i], #[trigger] t[j]) by {
            if j < p {
                assert(t[i] == r[i] && t[j] == r[j]);
            } else if j == p {
                assert(t[i] == r[i]);
                assert(tick_key_le(r[i], r[p - 1]) || i == p - 1);
            } else if i > p {
                assert(t[i] == r[i - 1] && t[j] == r[j - 1]);
            } else if i == p {
                assert(t[j] == r[j - 1]);
                assert(tick_key_le(r[p], r[j - 1]) || j - 1 == p);
            } else {
                assert(t[i] == r[i] && t[j] == r[j - 1]);
            }
        }
    }
}

/// Sorting keeps exactly the entries of the queue.
proof fn lemma_stable_sorted_same_entries(s: Seq<TickEntry>)
    ensures
        forall|e: TickEntry| s.contains(e) <==> #[trigger] stable_sorted(s).contains(e),
    decreases s.len(),
{
    if s.len() > 0 {
        let t = s.drop_last();
        let r = stable_sorted(t);
        let x = s.last();
        lemma_stable_sorted_same_entries(t);
        lemma_insert_pos(r, x);
        let p = insert_pos(r, x);
        let u = r.insert(p, x);
        assert forall|e: TickEntry| s.contains(e) <==> #[trigger] stable_sorted(s).contains(e) by {
            assert(stable_sorted(s) == u);
            if s.contains(e) {
                let k = choose|k: int| 0 <= k < s.len() && s[k] == e;
                if k == s.len() - 1 {
                    assert(u[p] == e);
                } else {
                    assert(t[k] == e);
                    assert(t.contains(e));
                    assert(stable_sorted(t).contains(e));
                    let m = choose|m: int| 0 <= m < r.len() && r[m] == e;
                    assert(0 <= m < r.len() && r[m] == e);
                    if m < p {
                        assert(u[m] == e);
                    } else {
                        assert(u[m + 1] == e);
                    }
                }
            }
            if u.contains(e) {
                let k = choose|k: int| 0 <= k < u.len() && u[k] == e;
                if k == p {
                    assert(s[s.len() - 1] == e);
                } else {
                    let m = if k < p { k } else { k - 1 };
                    assert(r[m] == e);
                    assert(r.contains(e));
                    let j = choose|j: int| 0 <= j < t.len() && t[j] == e;
                    assert(s[j] == e);
                }
            }
        }
    }
}

proof fn lemma_leading_due(s: Seq<TickEntry>, n: int)
    requires
        0 <= n <= s.len(),
        forall|k: int| 0 <= k < n ==> (#[trigger] s[k]).ticks_left == 0,
        n == s.len() || s[n].ticks_left != 0,
    ensures
        leading_due(s) == n,
    decreases n,
{
    if n > 0 {
        let t = s.subrange(1, s.len() as int);
        assert forall|k: int| 0 <= k < n - 1 implies (#[trigger] t[k]).ticks_left == 0 by {
            assert(t[k] == s[k + 1]);
        }
        if n < s.len() {
            assert(t[n - 1] == s[n]);
        }
        lemma_leading_due(t, n - 1);
    }
}

/// One tick sorts the queue stably by `(ticks_left, priority)`: what it fires
/// comes out in that order, what it keeps stays in that order, and every entry
/// fired had at most one tick left.
pub proof fn lemma_fired_in_order(s: Seq<TickEntry>)
    ensures
        fired(s).len() + still_waiting(s).len() == s.len(),
        forall|i: int| 0 <= i < fired(s).len() ==> (#[trigger] fired(s)[i]).ticks_left == 0
            && stable_sorted(s)[i].ticks_left <= 1,
        forall|i: int, j: int|
            0 <= i < j < fired(s).len() ==> tick_key_le(#[trigger] stable_sorted(s)[i], #[trigger] stable_sorted(s)[j]),
        tick_sorted(still_waiting(s)),
        forall|k: int|
            0 <= k < s.len() && (#[trigger] s[k]).ticks_left <= 1 ==> fired(s).contains(TickEntry { ticks_left: 0, ..s[k] }),
        forall|i: int| 0 <= i < fired(s).len() ==> s.contains(#[trigger] stable_sorted(s)[i]),
{
    lemma_stable_sorted(s);
    lemma_stable_sorted_same_entries(s);
    let a = advanced(s);
    let r = stable_sorted(s);
    lemma_leading_due_bounds(a);
    let n = leading_due(a);
    assert forall|i: int| 0 <= i < fired(s).len() implies (#[trigger] fired(s)[i]).ticks_left == 0
        && stable_sorted(s)[i].ticks_left <= 1 by {
        assert(fired(s)[i] == a[i]);
    }
    let w = still_waiting(s);
    assert forall|i: int, j: int| 0 <= i < j < w.len() implies tick_key_le(#[trigger] w[i], #[trigger] w[j]) by {
        assert(w[i] == a[i + n] && w[j] == a[j + n]);
        assert(tick_key_le(r[i + n], r[j + n]));
        assert(a[n].ticks_left != 0);
        assert(r[n].ticks_left >= 2);
        if i > 0 {
            assert(tick_key_le(r[n], r[i + n]));
        }
    }
    assert forall|k: int| 0 <= k < s.len() && (#[trigger] s[k]).ticks_left <= 1 implies fired(s).contains(
        TickEntry { ticks_left: 0, ..s[k] },
    ) by {
        assert(s.contains(s[k]));
        assert(r.contains(s[k]));
        let m = choose|m: int| 0 <= m < r.len() && r[m] == s[k];
        if m >= n {
            assert(a[n].ticks_left != 0);
            if m > n {
                assert(tick_key_le(r[n], r[m]));
            }
        }
        assert(fired(s)[m] == a[m]);
    }
    assert forall|i: int| 0 <= i < fired(s).len() implies s.contains(#[trigger] stable_sorted(s)[i]) by {
        assert(r.contains(r[i]));
    }
}

proof fn lemma_leading_due_bounds(s: Seq<TickEntry>)
    ensures
        0 <= leading_due(s) <= s.len(),
        forall|k: int| 0 <= k < leading_due(s) ==> (#[trigger] s[k]).ticks_left == 0,
        leading_due(s) < s.len() ==> s[leading_due(s)].ticks_left != 0,
    decreases s.len(),
{
    if s.len() > 0 && s[0].ticks_left == 0 {
        let t = s.subrange(1, s.len() as int);
        lemma_leading_due_bounds(t);
        if leading_due(t) < t.len() {
            assert(s[leading_due(s)] == t[leading_due(t)]);
        }
        assert forall|k: int| 0 <= k < leading_due(s) implies (#[trigger] s[k]).ticks_left == 0 by {
            if k > 0 {
                assert(s[k] == t[k - 1]);
            }
        }
    }
}

fn key_le(a: &TickEntry, b: &TickEntry) -> (r: bool)
    ensures
        r == tick_key_le(*a, *b),
{
    let ra: u8 = match a.tick_priority {
        TickPriority::High => 0,
        TickPriority::Normal => 1,
        TickPriority::Low => 2,
    };
    let rb: u8 = match b.tick_priority {
        TickPriority::High => 0,
        TickPriority::Normal => 1,
        TickPriority::Low => 2,
    };
    a.ticks_left < b.ticks_left || (a.ticks_left == b.ticks_left && ra <= rb)
}

/// A copy of `v` stably sorted by `(ticks_left, priority)`, by insertion.
fn stable_sort(v: &Vec<TickEntry>) -> (r: Vec<TickEntry>)
    ensures
        r@ == stable_sorted(v@),
{
    let mut r: Vec<TickEntry> = Vec::new();
    let mut i: usize = 0;
    while i < v.len()
        invariant
            0 <= i <= v@.len(),
            r@ == stable_sorted(v@.subrange(0, i as int)),
        decreases v@.len() - i,
    {
        let e = v[i];
        proof {
            assert(v@.subrange(0, i + 1).drop_last() =~= v@.subrange(0, i as int));
        }
        let mut j = r.len();
        proof {
            assert(r@.subrange(0, j as int) =~= r@);
        }
        while j > 0 && !key_le(&r[j - 1], &e)
            invariant
                0 <= j <= r@.len(),
                insert_pos(r@, e) == insert_pos(r@.subrange(0, j as int), e),
            decreases j,
        {
            proof {
                assert(r@.subrange(0, j as int).drop_last() =~= r@.subrange(0, j - 1));
            }
            j -= 1;
        }
        proof {
            if j > 0 {
                assert(r@.subrange(0, j as int).last() == r@[j - 1]);
            }
        }
        r.insert(j, e);
        i += 1;
    }
    proof {
        assert(v@.subrange(0, v@.len() as int) =~= v@);
    }
    r
}

impl PlotWorld {
    /// Queues a block update at `pos` in `delay` ticks.
    pub fn schedule_tick(&mut self, pos: BlockPos, delay: u32, priority: TickPriority)
        ensures
            final(self).to_be_ticked@ == old(self).to_be_ticked@.push(
                TickEntry { pos, ticks_left: delay, tick_priority: priority },
            ),
            final(self).x == old(self).x,
            final(self).z == old(self).z,
            final(self).chunks@ == old(self).chunks@,
    {
        self.to_be_ticked.push(TickEntry { pos, ticks_left: delay, tick_priority: priority });
    }

    /// Whether an update is queued at `pos`.
    pub fn pending_tick_at(&self, pos: BlockPos) -> (r: bool)
        ensures
            r == exists|k: int| 0 <= k < self.to_be_ticked@.len() && (#[trigger] self.to_be_ticked@[k]).pos == pos,
    {
        let mut i: usize = 0;
        while i < self.to_be_ticked.len()
            invariant
                0 <= i <= self.to_be_ticked@.len(),
                forall|k: int| 0 <= k < i ==> (#[trigger] self.to_be_ticked@[k]).pos != pos,
            decreases self.to_be_ticked@.len() - i,
        {
            if self.to_be_ticked[i].pos == pos {
                return true;
            }
            i += 1;
        }
        false
    }

    /// Advances the queue by one tick: it is sorted stably by `(ticks_left,
    /// priority)`, every entry loses a tick, and the entries at the front with
    /// none left come out, in that order. The rest stays queued, sorted.
    pub fn take_due_ticks(&mut self) -> (due: Vec<TickEntry>)
        ensures
            due@ == fired(old(self).to_be_ticked@),
            final(self).to_be_ticked@ == still_waiting(old(self).to_be_ticked@),
            final(self).x == old(self).x,
            final(self).z == old(self).z,
            final(self).chunks@ == old(self).chunks@,
    {
        let sorted = stable_sort(&self.to_be_ticked);
        let ghost a = advanced(self.to_be_ticked@);
        let mut rest: Vec<TickEntry> = Vec::new();
        let mut k: usize = 0;
        while k < sorted.len()
            invariant
                0 <= k <= sorted@.len(),
                sorted@ == stable_sorted(old(self).to_be_ticked@),
                a == decremented(sorted@),
                rest@ == a.subrange(0, k as int),
            decreases sorted@.len() - k,
        {
            let e = sorted[k];
            let t = if e.ticks_left > 0 { e.ticks_left - 1 } else { 0 };
            rest.push(TickEntry { pos: e.pos, ticks_left: t, tick_priority: e.tick_priority });
            k += 1;
            proof {
                assert(rest@ =~= a.subrange(0, k as int));
            }
        }
        proof {
            assert(rest@ =~= a);
        }
        let mut n: usize = 0;
        while n < rest.len() && rest[n].ticks_left == 0
            invariant
                0 <= n <= rest@.len(),
                forall|j: int| 0 <= j < n ==> (#[trigger] rest@[j]).ticks_left == 0,
            decreases rest@.len() - n,
        {
            n += 1;
        }
        proof {
            lemma_leading_due(rest@, n as int);
        }
        let waiting = rest.split_off(n);
        self.to_be_ticked = waiting;
        rest
    }

    /// Takes out every queued update, in queue order.
    pub fn drain_ticks(&mut self) -> (ticks: Vec<TickEntry>)
        ensures
            ticks@ == old(self).to_be_ticked@,
            final(self).to_be_ticked@.len() == 0,
            final(self).x == old(self).x,
            final(self).z == old(self).z,
            final(self).chunks@ == old(self).chunks@,
    {
        let mut ticks: Vec<TickEntry> = Vec::new();
        ticks.append(&mut self.to_be_ticked);
        ticks
    }
}

} // verus!
