//! The banker's deadlock-avoidance check: given what each thread holds,
//! the most it may ever demand, and what is free, a state is safe when the
//! threads can be finished one after another, each one's demand met from
//! the free pool plus everything already returned. `is_safe` decides
//! safety by the greedy simulation; its contract says the answer equals
//! the declarative statement — some finishing order exists.

use vstd::prelude::*;

verus! {

/// How many threads are still unfinished.
pub open spec fn count_unfinished(fin: Seq<bool>) -> nat
    decreases fin.len(),
{
    if fin.len() == 0 {
        0
    } else {
        count_unfinished(fin.drop_last()) + if fin.last() {
            0nat
        } else {
            1nat
        }
    }
}

/// While some thread is unfinished, the unfinished count is positive.
pub proof fn lemma_count_nonzero(fin: Seq<bool>, i: int)
    requires
        0 <= i < fin.len(),
        !fin[i],
    ensures
        count_unfinished(fin) > 0,
    decreases fin.len(),
{
    if i < fin.len() - 1 {
        lemma_count_nonzero(fin.drop_last(), i);
    }
}

/// Finishing an unfinished thread lowers the unfinished count.
pub proof fn lemma_count_update_true(fin: Seq<bool>, i: int)
    requires
        0 <= i < fin.len(),
        !fin[i],
    ensures
        count_unfinished(fin.update(i, true)) < count_unfinished(fin),
    decreases fin.len(),
{
    if i == fin.len() - 1 {
        assert(fin.update(i, true).drop_last() =~= fin.drop_last());
    } else {
        lemma_count_update_true(fin.drop_last(), i);
        assert(fin.update(i, true).drop_last() =~= fin.drop_last().update(i, true));
        assert(fin.update(i, true).last() == fin.last());
    }
}

/// The same, for every unfinished thread at once; this is what lets the
/// safety recursion terminate.
pub proof fn lemma_count_update_all(fin: Seq<bool>)
    ensures
        forall|i: int|
            0 <= i < fin.len() && !fin[i] ==> #[trigger] count_unfinished(fin.update(i, true))
                < count_unfinished(fin),
{
    assert forall|i: int| 0 <= i < fin.len() && !fin[i] implies #[trigger] count_unfinished(
        fin.update(i, true),
    ) < count_unfinished(fin) by {
        lemma_count_update_true(fin, i);
    }
}

/// A bank state: what is free of each resource, what each thread holds of
/// each, and the most each thread will ever need of each.
pub struct Resource {
    pub available: Vec<u64>,
    pub allocation: Vec<Vec<u64>>,
    pub max: Vec<Vec<u64>>,
}

/// A vector of counters, as mathematical integers.
pub open spec fn ints_of(v: Seq<u64>) -> Seq<int> {
    v.map_values(|x: u64| x as int)
}

impl Resource {
    /// The number of resource kinds.
    pub open spec fn nres(&self) -> nat {
        self.available@.len()
    }

    /// The number of threads.
    pub open spec fn nth(&self) -> nat {
        self.allocation@.len()
    }

    /// What thread `i` holds.
    pub open spec fn alloc_of(&self, i: int) -> Seq<u64> {
        self.allocation@[i]@
    }

    /// The most thread `i` will ever need.
    pub open spec fn max_of(&self, i: int) -> Seq<u64> {
        self.max@[i]@
    }

    /// The sum of the first `upto` threads' holdings of resource `j`.
    pub open spec fn col_sum(&self, j: int, upto: int) -> int
        decreases upto,
    {
        if upto <= 0 {
            0
        } else {
            self.col_sum(j, upto - 1) + self.alloc_of(upto - 1)[j]
        }
    }

    /// The shape and bounds every operation relies on: square tables, no
    /// thread holding more than its stated maximum, and room in the
    /// counters to return everything held.
    pub open spec fn wf(&self) -> bool {
        &&& self.max@.len() == self.nth()
        &&& forall|i: int| 0 <= i < self.nth() ==> #[trigger] self.alloc_of(i).len() == self.nres()
        &&& forall|i: int| 0 <= i < self.nth() ==> #[trigger] self.max_of(i).len() == self.nres()
        &&& forall|i: int, j: int|
            0 <= i < self.nth() && 0 <= j < self.nres() ==> #[trigger] self.alloc_of(i)[j]
                <= self.max_of(i)[j]
        &&& forall|j: int|
            0 <= j < self.nres() ==> self.available@[j] + #[trigger] self.col_sum(
                j,
                self.nth() as int,
            ) <= u64::MAX
    }

    /// Thread `i` could finish now: the free pool `work` covers what it
    /// still needs, resource by resource.
    pub open spec fn runnable(&self, work: Seq<int>, i: int) -> bool {
        &&& 0 <= i < self.nth()
        &&& forall|j: int|
            0 <= j < self.nres() ==> work[j] >= self.max_of(i)[j] - #[trigger] self.alloc_of(i)[j]
    }

    /// The free pool after thread `i` finishes and returns its holdings.
    pub open spec fn next_work(&self, work: Seq<int>, i: int) -> Seq<int> {
        Seq::new(self.nres(), |j: int| work[j] + self.alloc_of(i)[j])
    }

    /// Safety from an intermediate position: every thread not yet finished
    /// can be finished, in some order, each from the pool left by those
    /// before it.
    pub open spec fn safe_from(&self, work: Seq<int>, fin: Seq<bool>) -> bool
        decreases count_unfinished(fin),
    {
        proof {
            lemma_count_update_all(fin);
        }
        if count_unfinished(fin) == 0 {
            true
        } else {
            exists|i: int|
                0 <= i < fin.len() && !fin[i] && self.runnable(work, i) && self.safe_from(
                    self.next_work(work, i),
                    fin.update(i, true),
                )
        }
    }

    /// The free pool at the start.
    pub open spec fn work0(&self) -> Seq<int> {
        ints_of(self.available@)
    }

    /// The state is safe: from the initial pool, with nobody finished,
    /// some order finishes everyone.
    pub open spec fn safe(&self) -> bool {
        self.safe_from(self.work0(), Seq::new(self.nth(), |i: int| false))
    }

    /// The sum of the finished threads' holdings of resource `j`, over the
    /// first `upto` threads — what the greedy pool has gained so far.
    pub open spec fn done_sum(&self, fin: Seq<bool>, j: int, upto: int) -> int
        decreases upto,
    {
        if upto <= 0 {
            0
        } else {
            self.done_sum(fin, j, upto - 1) + if fin[upto - 1] {
                self.alloc_of(upto - 1)[j]
            } else {
                0
            }
        }
    }

    /// The finished threads hold no more than everybody together.
    pub proof fn lemma_done_sum_le(&self, fin: Seq<bool>, j: int, upto: int)
        ensures
            self.done_sum(fin, j, upto) <= self.col_sum(j, upto),
        decreases upto,
    {
        if upto > 0 {
            self.lemma_done_sum_le(fin, j, upto - 1);
        }
    }

    /// With nobody finished, nothing has been returned.
    pub proof fn lemma_done_sum_none(&self, fin: Seq<bool>, j: int, upto: int)
        requires
            forall|k: int| 0 <= k < upto ==> !fin[k],
        ensures
            self.done_sum(fin, j, upto) == 0,
        decreases upto,
    {
        if upto > 0 {
            self.lemma_done_sum_none(fin, j, upto - 1);
        }
    }

    /// Finishing one more thread adds exactly its holdings to the pool.
    pub proof fn lemma_done_sum_update(&self, fin: Seq<bool>, i: int, j: int, upto: int)
        requires
            0 <= i < fin.len(),
            upto <= fin.len(),
            !fin[i],
        ensures
            self.done_sum(fin.update(i, true), j, upto) == self.done_sum(fin, j, upto) + if i
                < upto {
                self.alloc_of(i)[j]
            } else {
                0
            },
        decreases upto,
    {
        if upto > 0 {
            self.lemma_done_sum_update(fin, i, j, upto - 1);
        }
    }

    /// Nothing of the table's holdings is counted twice: with every thread
    /// holding at most its stated maximum and the counters sized by `wf`,
    /// the greedy pool never overflows.
    pub proof fn lemma_pool_bound(&self, fin: Seq<bool>, i: int, j: int)
        requires
            self.wf(),
            0 <= i < self.nth(),
            0 <= j < self.nres(),
            fin.len() == self.nth(),
            !fin[i],
        ensures
            self.done_sum(fin, j, self.nth() as int) + self.alloc_of(i)[j] <= self.col_sum(
                j,
                self.nth() as int,
            ),
    {
        self.lemma_done_sum_update(fin, i, j, self.nth() as int);
        self.lemma_done_sum_le(fin.update(i, true), j, self.nth() as int);
    }

    /// Build a fresh bank state: these resources free, these stated
    /// maxima, and nothing allocated yet.
    pub fn new(available: Vec<u64>, max: Vec<Vec<u64>>) -> (r: Resource)
        requires
            forall|i: int| 0 <= i < max@.len() ==> (#[trigger] max@[i])@.len() == available@.len(),
        ensures
            r.wf(),
            r.available@ == available@,
            r.max@ == max@,
            r.nth() == max@.len(),
            r.nres() == available@.len(),
            forall|i: int, j: int|
                0 <= i < r.nth() && 0 <= j < r.nres() ==> #[trigger] r.alloc_of(i)[j] == 0,
    {
        let nth = max.len();
        let nres = available.len();
        let mut allocation: Vec<Vec<u64>> = Vec::new();
        let mut i: usize = 0;
        while i < nth
            invariant
                i <= nth,
                allocation@.len() == i,
                forall|k: int| 0 <= k < i ==> (#[trigger] allocation@[k])@.len() == nres,
                forall|k: int, j: int|
                    0 <= k < i && 0 <= j < nres ==> #[trigger] allocation@[k]@[j] == 0,
            decreases nth - i,
        {
            let mut row: Vec<u64> = Vec::new();
            let mut j: usize = 0;
            while j < nres
                invariant
                    j <= nres,
                    row@.len() == j,
                    forall|k: int| 0 <= k < j ==> row@[k] == 0,
                decreases nres - j,
            {
                row.push(0);
                j = j + 1;
            }
            allocation.push(row);
            i = i + 1;
        }
        let r = Resource { available, allocation, max };
        proof {
            assert forall|j: int|
                0 <= j < r.nres() implies r.available@[j] + #[trigger] r.col_sum(
                j,
                r.nth() as int,
            ) <= u64::MAX by {
                r.lemma_col_sum_zero(j, r.nth() as int);
            }
        }
        r
    }

    /// A column over all-zero holdings sums to nothing.
    proof fn lemma_col_sum_zero(&self, j: int, upto: int)
        requires
            forall|k: int, l: int|
                0 <= k < self.nth() && 0 <= l < self.nres() ==> #[trigger] self.alloc_of(k)[l]
                    == 0,
            0 <= j < self.nres(),
            upto <= self.nth(),
        ensures
            self.col_sum(j, upto) == 0,
        decreases upto,
    {
        if upto > 0 {
            self.lemma_col_sum_zero(j, upto - 1);
        }
    }

    /// Could thread `i` finish now, out of this pool?
    fn can_finish(&self, work: &Vec<u64>, i: usize) -> (b: bool)
        requires
            self.wf(),
            i < self.nth(),
            work@.len() == self.nres(),
        ensures
            b == self.runnable(ints_of(work@), i as int),
    {
        let nres = self.available.len();
        let mut j: usize = 0;
        while j < nres
            invariant
                self.wf(),
                i < self.nth(),
                work@.len() == self.nres(),
                nres == self.nres(),
                j <= nres,
                forall|k: int|
                    0 <= k < j ==> ints_of(work@)[k] >= self.max_of(i as int)[k]
                        - #[trigger] self.alloc_of(i as int)[k],
            decreases nres - j,
        {
            proof {
                assert(self.alloc_of(i as int)[j as int] <= self.max_of(i as int)[j as int]);
            }
            let need = self.max[i][j] - self.allocation[i][j];
            if work[j] < need {
                return false;
            }
            j = j + 1;
        }
        true
    }

    /// The greedy pick: some unfinished thread that could finish now, or
    /// the verdict that none can.
    fn find_runnable(&self, work: &Vec<u64>, finish: &Vec<bool>) -> (r: Option<usize>)
        requires
            self.wf(),
            work@.len() == self.nres(),
            finish@.len() == self.nth(),
        ensures
            match r {
                Some(i) => i < self.nth() && !finish@[i as int] && self.runnable(
                    ints_of(work@),
                    i as int,
                ),
                None => forall|i: int|
                    0 <= i < self.nth() && !finish@[i] ==> !self.runnable(ints_of(work@), i),
            },
    {
        let nth = self.allocation.len();
        let mut i: usize = 0;
        while i < nth
            invariant
                self.wf(),
                work@.len() == self.nres(),
                finish@.len() == self.nth(),
                nth == self.nth(),
                i <= nth,
                forall|k: int|
                    0 <= k < i && !finish@[k] ==> !self.runnable(ints_of(work@), k),
            decreases nth - i,
        {
            if !finish[i] {
                if self.can_finish(work, i) {
                    return Some(i);
                }
            }
            i = i + 1;
        }
        None
    }

    /// Decide safety by greedy simulation: keep finishing any thread whose
    /// remaining demand fits the pool, returning its holdings to the pool,
    /// until everyone is finished (safe) or nobody fits (unsafe). The
    /// answer equals the declarative statement: some finishing order
    /// serves every thread.
    pub fn is_safe(&self) -> (r: bool)
        requires
            self.wf(),
        ensures
            r == self.safe(),
    {
        let nth = self.allocation.len();
        let nres = self.available.len();
        let mut finish: Vec<bool> = Vec::new();
        let mut i: usize = 0;
        while i < nth
            invariant
                i <= nth,
                finish@.len() == i,
                forall|k: int| 0 <= k < i ==> !finish@[k],
            decreases nth - i,
        {
            finish.push(false);
            i = i + 1;
        }
        let mut work: Vec<u64> = Vec::new();
        let mut j: usize = 0;
        while j < nres
            invariant
                j <= nres,
                nres == self.nres(),
                work@.len() == j,
                forall|k: int| 0 <= k < j ==> work@[k] == self.available@[k],
            decreases nres - j,
        {
            work.push(self.available[j]);
            j = j + 1;
        }
        proof {
            assert(finish@ =~= Seq::new(self.nth(), |i: int| false));
            assert(ints_of(work@) =~= self.work0());
            assert forall|k: int|
                0 <= k < nres implies work@[k] == self.available@[k] + self.done_sum(
                finish@,
                k,
                nth as int,
            ) by {
                self.lemma_done_sum_none(finish@, k, nth as int);
            }
        }
        loop
            invariant
                self.wf(),
                nth == self.nth(),
                nres == self.nres(),
                finish@.len() == nth,
                work@.len() == nres,
                forall|k: int|
                    0 <= k < nres ==> work@[k] == self.available@[k] + self.done_sum(
                        finish@,
                        k,
                        nth as int,
                    ),
                self.safe_from(ints_of(work@), finish@) == self.safe(),
            decreases count_unfinished(finish@),
        {
            if all_finished(&finish) {
                proof {
                    assert(self.safe_from(ints_of(work@), finish@));
                }
                return true;
            }
            match self.find_runnable(&work, &finish) {
                None => {
                    proof {
                        let w = ints_of(work@);
                        assert forall|t: int|
                            !(0 <= t < finish@.len() && !finish@[t] && self.runnable(w, t)
                                && self.safe_from(
                                self.next_work(w, t),
                                finish@.update(t, true),
                            )) by {}
                        assert(!self.safe_from(w, finish@));
                    }
                    return false;
                },
                Some(t) => {
                    let ghost w_old = ints_of(work@);
                    let ghost fin_old = finish@;
                    proof {
                        assert forall|k: int|
                            0 <= k < nres implies w_old[k] + self.alloc_of(t as int)[k]
                            <= u64::MAX by {
                            self.lemma_pool_bound(fin_old, t as int, k);
                        }
                    }
                    let mut j: usize = 0;
                    while j < nres
                        invariant
                            self.wf(),
                            nres == self.nres(),
                            t < self.nth(),
                            j <= nres,
                            work@.len() == nres,
                            forall|k: int|
                                0 <= k < nres ==> w_old[k] + self.alloc_of(t as int)[k]
                                    <= u64::MAX,
                            forall|k: int|
                                0 <= k < j ==> work@[k] == w_old[k] + self.alloc_of(t as int)[k],
                            forall|k: int| j <= k < nres ==> work@[k] == w_old[k],
                        decreases nres - j,
                    {
                        proof {
                            assert(self.alloc_of(t as int).len() == self.nres());
                            assert(w_old[j as int] + self.alloc_of(t as int)[j as int]
                                <= u64::MAX);
                        }
                        let add = self.allocation[t][j];
                        let w = work[j];
                        work.set(j, w + add);
                        j = j + 1;
                    }
                    finish.set(t, true);
                    proof {
                        assert(ints_of(work@) =~= self.next_work(w_old, t as int));
                        assert(finish@ == fin_old.update(t as int, true));
                        assert forall|k: int|
                            0 <= k < nres implies work@[k] == self.available@[k] + self.done_sum(
                            finish@,
                            k,
                            nth as int,
                        ) by {
                            self.lemma_done_sum_update(fin_old, t as int, k, nth as int);
                        }
                        if self.safe_from(w_old, fin_old) {
                            lemma_safe_exchange(*self, w_old, fin_old, t as int);
                        }
                        if self.safe_from(ints_of(work@), finish@) {
                            lemma_count_nonzero(fin_old, t as int);
                            assert(0 <= t < fin_old.len() && !fin_old[t as int] && self.runnable(
                                w_old,
                                t as int,
                            ) && self.safe_from(
                                self.next_work(w_old, t as int),
                                fin_old.update(t as int, true),
                            ));
                            assert(self.safe_from(w_old, fin_old));
                        }
                        lemma_count_update_true(fin_old, t as int);
                    }
                },
            }
        }
    }
}

/// Is every thread finished?
fn all_finished(finish: &Vec<bool>) -> (b: bool)
    ensures
        b == (count_unfinished(finish@) == 0),
{
    let n = finish.len();
    let mut i: usize = 0;
    while i < n
        invariant
            i <= n,
            n == finish@.len(),
            forall|k: int| 0 <= k < i ==> finish@[k],
        decreases n - i,
    {
        if !finish[i] {
            proof {
                lemma_count_nonzero(finish@, i as int);
            }
            return false;
        }
        i = i + 1;
    }
    proof {
        lemma_count_all_true(finish@);
    }
    true
}

/// With every thread finished, the unfinished count is zero.
proof fn lemma_count_all_true(fin: Seq<bool>)
    requires
        forall|k: int| 0 <= k < fin.len() ==> fin[k],
    ensures
        count_unfinished(fin) == 0,
    decreases fin.len(),
{
    if fin.len() > 0 {
        lemma_count_all_true(fin.drop_last());
    }
}

/// The exchange step behind the greedy simulation: in a safe position, any
/// thread that could finish now can be finished first, and the position
/// stays safe.
pub proof fn lemma_safe_exchange(r: Resource, w: Seq<int>, fin: Seq<bool>, i: int)
    requires
        r.safe_from(w, fin),
        w.len() == r.nres(),
        0 <= i < fin.len(),
        !fin[i],
        r.runnable(w, i),
    ensures
        r.safe_from(r.next_work(w, i), fin.update(i, true)),
    decreases count_unfinished(fin),
{
    lemma_count_nonzero(fin, i);
    assert(exists|k: int|
        0 <= k < fin.len() && !fin[k] && r.runnable(w, k) && r.safe_from(
            r.next_work(w, k),
            fin.update(k, true),
        ));
    let k = choose|k: int|
        0 <= k < fin.len() && !fin[k] && r.runnable(w, k) && r.safe_from(
            r.next_work(w, k),
            fin.update(k, true),
        );
    if k == i {
        return ;
    }
    lemma_count_update_true(fin, k);
    // i is still runnable after k finishes, since the pool only grew.
    assert(r.runnable(r.next_work(w, k), i));
    // Finish i next, by induction from the position after k.
    lemma_safe_exchange(r, r.next_work(w, k), fin.update(k, true), i);
    // The two finishing orders land in the same position.
    assert(r.next_work(r.next_work(w, k), i) =~= r.next_work(r.next_work(w, i), k));
    assert(fin.update(k, true).update(i, true) =~= fin.update(i, true).update(k, true));
    // So from the position after i, the witness k carries on.
    assert(r.runnable(r.next_work(w, i), k));
    assert(0 <= k < fin.update(i, true).len() && !fin.update(i, true)[k] && r.runnable(
        r.next_work(w, i),
        k,
    ) && r.safe_from(
        r.next_work(r.next_work(w, i), k),
        fin.update(i, true).update(k, true),
    ));
    lemma_count_update_true(fin, i);
}

} // verus!
