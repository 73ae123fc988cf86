//! A join of many fallible tasks that runs a bounded number of them at a
//! time and gives their results in the order of the tasks.
//!
//! The join itself runs nothing. It is the bookkeeping of such a run: the
//! caller asks it for a tag whenever a task may start, hands it every
//! result together with the tag of its task, and takes the ordered results
//! in the end. Results that come early wait in a buffer until all the
//! results before them are there.

use vstd::prelude::*;

verus! {

/// The result of a task together with the place of the task in the input.
pub struct TaggedResult<T> {
    pub tag: usize,
    pub result: T,
}

/// Whether a result with the tag `t` waits in the buffer `pending`.
pub open spec fn is_pending<T>(pending: Seq<TaggedResult<T>>, t: int) -> bool {
    exists|j: int| 0 <= j < pending.len() && (#[trigger] pending[j]).tag == t
}

/// The bookkeeping of one bounded, ordered join.
pub struct OrderedJoin<T> {
    limit: usize,
    started: usize,
    in_flight: usize,
    failed: bool,
    results: Vec<T>,
    pending: Vec<TaggedResult<T>>,
    completed: Ghost<Map<int, T>>,
}

impl<T> OrderedJoin<T> {
    /// How many tasks may run at a time; zero stands for no bound.
    pub closed spec fn limit(&self) -> nat {
        self.limit as nat
    }

    /// How many tasks have been started. The tasks carry the tags from zero
    /// up to this number, in the order of their start.
    pub closed spec fn started(&self) -> nat {
        self.started as nat
    }

    /// How many tasks have been started and have not given a result yet.
    pub closed spec fn in_flight(&self) -> nat {
        self.in_flight as nat
    }

    /// Whether a task has failed.
    pub closed spec fn failed(&self) -> bool {
        self.failed
    }

    /// The results that have been given out so far, in the order of their
    /// tasks.
    pub closed spec fn results(&self) -> Seq<T> {
        self.results@
    }

    /// All the results that have come in so far, by the tag of their task.
    pub closed spec fn completed(&self) -> Map<int, T> {
        self.completed@
    }

    /// Whether the task with the tag `tag` has been started and has not
    /// given a result yet.
    pub open spec fn outstanding(&self, tag: int) -> bool {
        0 <= tag < self.started() && !self.completed().contains_key(tag)
    }

    /// Whether one more task may start: no task has failed, and fewer tasks
    /// than the limit are running.
    pub open spec fn has_room(&self) -> bool {
        &&& !self.failed()
        &&& self.limit() == 0 || self.in_flight() < self.limit()
        &&& self.started() < usize::MAX
    }

    /// The state is consistent, apart from results that wait in the buffer
    /// although their turn has come.
    spec fn consistent(&self) -> bool {
        &&& self.results@.len() + self.pending@.len() + self.in_flight == self.started
        &&& self.limit > 0 ==> self.in_flight <= self.limit
        &&& forall|t: int|
            self.completed@.contains_key(t) <==> (0 <= t < self.results@.len() || is_pending(
                self.pending@,
                t,
            ))
        &&& forall|i: int|
            0 <= i < self.results@.len() ==> self.completed@[i] == #[trigger] self.results@[i]
        &&& forall|j: int|
            0 <= j < self.pending@.len() ==> self.results@.len() <= (
            #[trigger] self.pending@[j]).tag < self.started && self.completed@[self.pending@[j].tag as int]
                == self.pending@[j].result
        &&& forall|j: int, k: int|
            0 <= j < k < self.pending@.len() ==> (#[trigger] self.pending@[j]).tag != (
            #[trigger] self.pending@[k]).tag
    }

    /// The state is consistent: every started task is running, waits in the
    /// buffer or has its result given out; the bound on running tasks is
    /// kept; the results given out are those of the first tasks, in order;
    /// and no result waits whose turn has come.
    pub closed spec fn wf(&self) -> bool {
        &&& self.consistent()
        &&& !is_pending(self.pending@, self.results@.len() as int)
    }

    /// A join that lets `limit` tasks run at a time, or any number where
    /// `limit` is zero.
    pub fn new(limit: usize) -> (j: OrderedJoin<T>)
        ensures
            j.wf(),
            j.limit() == limit,
            j.started() == 0,
            j.in_flight() == 0,
            !j.failed(),
            j.results() == Seq::<T>::empty(),
            j.completed() == Map::<int, T>::empty(),
    {
        let j = OrderedJoin {
            limit,
            started: 0,
            in_flight: 0,
            failed: false,
            results: Vec::new(),
            pending: Vec::new(),
            completed: Ghost(Map::empty()),
        };
        assert(j.completed@ =~= Map::<int, T>::empty());
        j
    }

    /// Whether one more task may start.
    pub fn wants_task(&self) -> (r: bool)
        ensures
            r == self.has_room(),
    {
        !self.failed && (self.limit == 0 || self.in_flight < self.limit) && self.started
            < usize::MAX
    }

    /// Starts one more task where there is room for one, and gives the tag
    /// that its result has to come back with.
    pub fn start(&mut self) -> (r: Option<usize>)
        requires
            old(self).wf(),
        ensures
            final(self).wf(),
            final(self).limit() == old(self).limit(),
            final(self).failed() == old(self).failed(),
            final(self).results() == old(self).results(),
            final(self).completed() == old(self).completed(),
            match r {
                Some(tag) => old(self).has_room() && tag == old(self).started()
                    && final(self).started() == old(self).started() + 1
                    && final(self).in_flight() == old(self).in_flight() + 1,
                None => !old(self).has_room() && final(self).started() == old(self).started()
                    && final(self).in_flight() == old(self).in_flight(),
            },
    {
        if !self.wants_task() {
            return None;
        }
        let tag = self.started;
        self.started = self.started + 1;
        self.in_flight = self.in_flight + 1;
        Some(tag)
    }

    /// Where in the buffer the result with the tag `tag` waits.
    fn find(&self, tag: usize) -> (r: Option<usize>)
        ensures
            match r {
                Some(j) => j < self.pending@.len() && self.pending@[j as int].tag == tag,
                None => !is_pending(self.pending@, tag as int),
            },
    {
        let mut j: usize = 0;
        while j < self.pending.len()
            invariant
                j <= self.pending@.len(),
                forall|k: int| 0 <= k < j ==> (#[trigger] self.pending@[k]).tag != tag,
            decreases self.pending@.len() - j,
        {
            if self.pending[j].tag == tag {
                return Some(j);
            }
            j += 1;
        }
        None
    }

    /// A task that is outstanding is counted among the running ones.
    proof fn lemma_outstanding_runs(&self, tag: int)
        requires
            self.consistent(),
            self.outstanding(tag),
        ensures
            self.in_flight > 0,
    {
        let n = self.results@.len() as int;
        let tags = self.pending@.map_values(|p: TaggedResult<T>| p.tag as int).push(tag);
        assert forall|j: int, k: int| 0 <= j < tags.len() && 0 <= k < tags.len() && j != k implies tags[j] != tags[k] by {
            if j < self.pending@.len() && k < self.pending@.len() {
                if j < k {
                    assert(self.pending@[j].tag != self.pending@[k].tag);
                } else {
                    assert(self.pending@[k].tag != self.pending@[j].tag);
                }
            } else if j < self.pending@.len() {
                assert(is_pending(self.pending@, self.pending@[j].tag as int));
            } else if k < self.pending@.len() {
                assert(is_pending(self.pending@, self.pending@[k].tag as int));
            }
        }
        assert(tags.no_duplicates());
        tags.unique_seq_to_set();
        let range = vstd::set_lib::set_int_range(n, self.started as int);
        assert forall|t: int| tags.to_set().contains(t) implies range.contains(t) by {
            let j = choose|j: int| 0 <= j < tags.len() && tags[j] == t;
            if j < self.pending@.len() {
                assert(n <= self.pending@[j].tag < self.started);
            }
        }
        vstd::set_lib::lemma_int_range(n, self.started as int);
        vstd::set_lib::lemma_len_subset(tags.to_set(), range);
    }

    /// Takes in the result of the task with the tag `tag`.
    ///
    /// A failure ends the join: it is handed back, and from then on no task
    /// is started and no result is taken in. A success is kept under its
    /// tag, and all the results whose turn has come are given out in the
    /// order of their tasks. A result whose task is not outstanding, or that
    /// comes after a failure, changes nothing.
    pub fn on_result<E>(&mut self, tag: usize, result: Result<T, E>) -> (r: Option<E>)
        requires
            old(self).wf(),
        ensures
            final(self).wf(),
            final(self).limit() == old(self).limit(),
            final(self).started() == old(self).started(),
            old(self).results().is_prefix_of(final(self).results()),
            match result {
                Err(e) => {
                    &&& r == Some(e)
                    &&& final(self).failed()
                    &&& final(self).results() == old(self).results()
                    &&& final(self).completed() == old(self).completed()
                    &&& final(self).in_flight() == old(self).in_flight()
                },
                Ok(v) => {
                    &&& r is None
                    &&& final(self).failed() == old(self).failed()
                    &&& if old(self).outstanding(tag as int) && !old(self).failed() {
                        &&& final(self).completed() == old(self).completed().insert(
                            tag as int,
                            v,
                        )
                        &&& final(self).in_flight() == old(self).in_flight() - 1
                    } else {
                        &&& final(self).completed() == old(self).completed()
                        &&& final(self).in_flight() == old(self).in_flight()
                        &&& final(self).results() == old(self).results()
                    }
                },
            },
    {
        let value = match result {
            Err(e) => {
                self.failed = true;
                return Some(e);
            },
            Ok(v) => v,
        };
        if self.failed || tag >= self.started || tag < self.results.len() {
            return None;
        }
        if self.find(tag).is_some() {
            assert(is_pending(self.pending@, tag as int));
            return None;
        }
        proof {
            self.lemma_outstanding_runs(tag as int);
        }
        let ghost before = self.pending@;
        self.in_flight = self.in_flight - 1;
        self.pending.push(TaggedResult { tag, result: value });
        proof {
            self.completed@ = self.completed@.insert(tag as int, value);
            assert(self.pending@[before.len() as int].tag == tag);
            assert forall|t: int| is_pending(self.pending@, t) <==> (is_pending(before, t) || t
                == tag) by {
                if is_pending(before, t) {
                    let j = choose|j: int| 0 <= j < before.len() && before[j].tag == t;
                    assert(self.pending@[j].tag == t);
                }
                if is_pending(self.pending@, t) {
                    let j = choose|j: int| 0 <= j < self.pending@.len() && self.pending@[j].tag == t;
                    if j < before.len() {
                        assert(before[j].tag == t);
                    }
                }
            }
            assert forall|j: int, k: int| 0 <= j < k < self.pending@.len() implies (
            #[trigger] self.pending@[j]).tag != (#[trigger] self.pending@[k]).tag by {
                if k == before.len() {
                    assert(before[j].tag != tag);
                } else {
                    assert(before[j].tag != before[k].tag);
                }
            }
        }
        self.drain();
        None
    }

    /// Gives out, in the order of their tasks, all the results in the
    /// buffer whose turn has come.
    fn drain(&mut self)
        requires
            old(self).consistent(),
        ensures
            final(self).wf(),
            final(self).limit == old(self).limit,
            final(self).started == old(self).started,
            final(self).in_flight == old(self).in_flight,
            final(self).failed == old(self).failed,
            final(self).completed@ == old(self).completed@,
            old(self).results@.is_prefix_of(final(self).results@),
    {
        loop
            invariant
                self.consistent(),
                self.limit == old(self).limit,
                self.started == old(self).started,
                self.in_flight == old(self).in_flight,
                self.failed == old(self).failed,
                self.completed@ == old(self).completed@,
                old(self).results@.is_prefix_of(self.results@),
            ensures
                self.wf(),
            decreases self.pending@.len(),
        {
            let next = self.results.len();
            let at = match self.find(next) {
                Some(at) => at,
                None => {
                    break ;
                },
            };
            let ghost before = self.pending@;
            let ghost given = self.results@;
            let tr = self.pending.remove(at);
            self.results.push(tr.result);
            proof {
                assert forall|t: int| is_pending(before, t) <==> (is_pending(self.pending@, t)
                    || t == next) by {
                    if is_pending(before, t) && t != next {
                        let j = choose|j: int| 0 <= j < before.len() && before[j].tag == t;
                        if j < at {
                            assert(self.pending@[j].tag == t);
                        } else {
                            assert(j != at);
                            assert(self.pending@[j - 1].tag == t);
                        }
                    }
                    if is_pending(self.pending@, t) {
                        let j = choose|j: int|
                            0 <= j < self.pending@.len() && self.pending@[j].tag == t;
                        if j < at {
                            assert(before[j].tag == t);
                        } else {
                            assert(before[j + 1].tag == t);
                        }
                    }
                    if t == next {
                        assert(before[at as int].tag == t);
                    }
                }
                assert forall|j: int| 0 <= j < self.pending@.len() implies self.results@.len()
                    <= (#[trigger] self.pending@[j]).tag < self.started
                    && self.completed@[self.pending@[j].tag as int]
                    == self.pending@[j].result by {
                    if j < at {
                        assert(before[j].tag != before[at as int].tag);
                    } else {
                        assert(before[at as int].tag != before[j + 1].tag);
                    }
                }
                assert forall|j: int, k: int| 0 <= j < k < self.pending@.len() implies (
                #[trigger] self.pending@[j]).tag != (#[trigger] self.pending@[k]).tag by {
                    let jj = if j < at { j } else { j + 1 };
                    let kk = if k < at { k } else { k + 1 };
                    assert(before[jj].tag != before[kk].tag);
                }
                assert forall|i: int| 0 <= i < self.results@.len() implies self.completed@[i]
                    == #[trigger] self.results@[i] by {
                    if i < given.len() {
                        assert(self.results@[i] == given[i]);
                    }
                }
            }
        }
    }

    /// The results that have been given out, in the order of their tasks.
    pub fn into_results(self) -> (r: Vec<T>)
        ensures
            r@ == self.results(),
    {
        self.results
    }

    /// At no time do more tasks run than the limit allows.
    pub proof fn lemma_bounded(&self)
        requires
            self.wf(),
            self.limit() > 0,
        ensures
            self.in_flight() <= self.limit(),
    {
    }

    /// The results given out are the results of the first tasks, each in
    /// the place of its task, and they go as far as results have come in
    /// without a gap.
    pub proof fn lemma_in_order(&self)
        requires
            self.wf(),
        ensures
            self.results().len() <= self.started(),
            forall|i: int|
                0 <= i < self.results().len() ==> #[trigger] self.completed().contains_key(i),
            forall|i: int|
                0 <= i < self.results().len() ==> #[trigger] self.results()[i]
                    == self.completed()[i],
            !self.completed().contains_key(self.results().len() as int),
    {
    }

    /// Once no task is running, the result of every task that was started
    /// has been given out.
    pub proof fn lemma_all_given(&self)
        requires
            self.wf(),
            self.in_flight() == 0,
        ensures
            self.results().len() == self.started(),
    {
        if self.pending@.len() > 0 {
            let n = self.results@.len() as int;
            let tags = self.pending@.map_values(|p: TaggedResult<T>| p.tag as int);
            assert forall|j: int, k: int|
                0 <= j < tags.len() && 0 <= k < tags.len() && j != k implies tags[j]
                != tags[k] by {
                if j < k {
                    assert(self.pending@[j].tag != self.pending@[k].tag);
                } else {
                    assert(self.pending@[k].tag != self.pending@[j].tag);
                }
            }
            assert(tags.no_duplicates());
            tags.unique_seq_to_set();
            let range = vstd::set_lib::set_int_range(n + 1, self.started as int);
            assert forall|t: int| tags.to_set().contains(t) implies range.contains(t) by {
                let j = choose|j: int| 0 <= j < tags.len() && tags[j] == t;
                assert(n <= self.pending@[j].tag < self.started);
                assert(is_pending(self.pending@, self.pending@[j].tag as int));
            }
            assert(self.pending@[0].tag < self.started);
            vstd::set_lib::lemma_int_range(n + 1, self.started as int);
            vstd::set_lib::lemma_len_subset(tags.to_set(), range);
        }
    }

    /// After a failure no further task is started.
    pub proof fn lemma_no_start_after_failure(&self)
        requires
            self.failed(),
        ensures
            !self.has_room(),
    {
    }
}

} // verus!
