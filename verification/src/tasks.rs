//! Delayed task queue: tasks run no earlier than their due time, and tasks due
//! at the same instant run in the order they were submitted.
//!
//! Time is a monotonic timestamp in milliseconds supplied by the caller.

use vstd::prelude::*;
use std::collections::VecDeque;

verus! {

/// A queued task with its due time and submission number.
pub struct AppTask<T> {
    pub not_before: u64,
    pub id: u64,
    pub task: T,
}

/// `a` runs before `b`: earlier due time first, then earlier submission.
pub open spec fn runs_before<T>(a: AppTask<T>, b: AppTask<T>) -> bool {
    a.not_before < b.not_before || (a.not_before == b.not_before && a.id < b.id)
}

/// The tasks are in running order.
pub open spec fn in_run_order<T>(s: Seq<AppTask<T>>) -> bool {
    forall|i: int, j: int| 0 <= i < j < s.len() ==> runs_before(#[trigger] s[i], #[trigger] s[j])
}

/// `p` is where a task due at `nb` goes: after every task due no later, before every task due later.
pub open spec fn is_insert_pos<T>(s: Seq<AppTask<T>>, nb: u64, p: int) -> bool {
    &&& 0 <= p <= s.len()
    &&& forall|i: int| 0 <= i < p ==> (#[trigger] s[i]).not_before <= nb
    &&& forall|i: int| p <= i < s.len() ==> (#[trigger] s[i]).not_before > nb
}

pub open spec fn insert_pos<T>(s: Seq<AppTask<T>>, nb: u64) -> int {
    choose|p: int| is_insert_pos(s, nb, p)
}

/// `k` tasks at the front are due at `now`, and the rest are not.
pub open spec fn is_due_split<T>(s: Seq<AppTask<T>>, now: u64, k: int) -> bool {
    is_insert_pos(s, now, k)
}

/// The task payloads of a sequence of queued tasks.
pub open spec fn payloads<T>(s: Seq<AppTask<T>>) -> Seq<T> {
    s.map_values(|t: AppTask<T>| t.task)
}

/// The queue after submitting `task` due at `nb` with submission number `id`.
pub open spec fn enqueued<T>(s: Seq<AppTask<T>>, nb: u64, id: u64, task: T) -> Seq<AppTask<T>> {
    s.insert(insert_pos(s, nb), AppTask { not_before: nb, id, task })
}

pub struct TaskContainer<T> {
    tasks: Vec<AppTask<T>>,
    next_id: u64,
}

impl<T> TaskContainer<T> {
    /// The queued tasks, in running order.
    pub closed spec fn queue(&self) -> Seq<AppTask<T>> {
        self.tasks@
    }

    /// The submission number the next task will get.
    pub closed spec fn next_id(&self) -> u64 {
        self.next_id
    }

    /// Tasks are kept in running order and every submission number is below the next one.
    pub open spec fn wf(&self) -> bool {
        &&& in_run_order(self.queue())
        &&& forall|i: int| 0 <= i < self.queue().len() ==> (#[trigger] self.queue()[i]).id < self.next_id()
    }

    pub fn new() -> (c: Self)
        ensures
            c.wf(),
            c.queue().len() == 0,
            c.next_id() == 0,
    {
        TaskContainer { tasks: Vec::new(), next_id: 0 }
    }

    /// Submits a task to run as soon as possible (`now` is the current time).
    pub fn enqueue(&mut self, task: T, now: u64)
        requires
            old(self).wf(),
            old(self).next_id() < u64::MAX,
        ensures
            final(self).wf(),
            final(self).next_id() == old(self).next_id() + 1,
            final(self).queue() == enqueued(old(self).queue(), now, old(self).next_id(), task),
            final(self).queue().len() == old(self).queue().len() + 1,
    {
        self.enqueue_at(task, now);
    }

    /// Submits a task to run no earlier than `not_before`.
    /// If that time is in the past, the task runs at the next retrieval.
    /// Tasks submitted for the same instant run in order of submission.
    pub fn enqueue_at(&mut self, task: T, not_before: u64)
        requires
            old(self).wf(),
            old(self).next_id() < u64::MAX,
        ensures
            final(self).wf(),
            final(self).next_id() == old(self).next_id() + 1,
            final(self).queue() == enqueued(old(self).queue(), not_before, old(self).next_id(), task),
            final(self).queue().len() == old(self).queue().len() + 1,
    {
        let ghost s = self.tasks@;
        let mut p: usize = 0;
        while p < self.tasks.len() && self.tasks[p].not_before <= not_before
            invariant
                p <= self.tasks@.len(),
                self.tasks@ == s,
                in_run_order(s),
                forall|i: int| 0 <= i < p ==> (#[trigger] s[i]).not_before <= not_before,
            decreases self.tasks@.len() - p,
        {
            p = p + 1;
        }
        proof {
            assert forall|i: int| p <= i < s.len() implies (#[trigger] s[i]).not_before > not_before by {
                if p < s.len() && i > p {
                    assert(runs_before(s[p as int], s[i]));
                }
            }
            assert(is_insert_pos(s, not_before, p as int));
            lemma_insert_pos_unique(s, not_before, p as int, insert_pos(s, not_before));
        }
        let id = self.next_id;
        self.tasks.insert(p, AppTask { not_before, id, task });
        self.next_id = self.next_id + 1;
        proof {
            let n = self.tasks@;
            assert forall|i: int, j: int| 0 <= i < j < n.len() implies runs_before(#[trigger] n[i], #[trigger] n[j]) by {
                if j < p {
                } else if i > p {
                    assert(runs_before(s[i - 1], s[j - 1]));
                } else if i == p {
                    assert(s[j - 1].not_before > not_before);
                } else if j == p {
                    assert(s[i].not_before <= not_before);
                    assert(s[i].id < id);
                } else {
                    assert(runs_before(s[i], s[j - 1]));
                }
            }
        }
    }

    /// Moves every task that is due at `now` into `dest_buf`, in running order.
    pub fn retrieve_due(&mut self, now: u64, dest_buf: &mut VecDeque<T>)
        requires
            old(self).wf(),
        ensures
            final(self).wf(),
            final(self).next_id() == old(self).next_id(),
            ({
                let k = old(self).queue().len() - final(self).queue().len();
                &&& is_due_split(old(self).queue(), now, k)
                &&& final(self).queue() == old(self).queue().skip(k)
                &&& final(dest_buf)@ == old(dest_buf)@ + payloads(old(self).queue().take(k))
            }),
    {
        let ghost s = self.tasks@;
        let ghost d0 = dest_buf@;
        let ghost mut k: int = 0;
        while self.tasks.len() > 0 && self.tasks[0].not_before <= now
            invariant
                0 <= k <= s.len(),
                self.tasks@ == s.skip(k),
                in_run_order(s),
                self.next_id == old(self).next_id,
                forall|i: int| 0 <= i < s.len() ==> (#[trigger] s[i]).id < self.next_id,
                forall|i: int| 0 <= i < k ==> (#[trigger] s[i]).not_before <= now,
                dest_buf@ == d0 + payloads(s.take(k)),
            decreases self.tasks@.len(),
        {
            let t = self.tasks.remove(0);
            dest_buf.push_back(t.task);
            proof {
                assert(s.take(k + 1) == s.take(k).push(s[k]));
                assert(payloads(s.take(k + 1)) == payloads(s.take(k)).push(s[k].task));
                k = k + 1;
                assert(self.tasks@ == s.skip(k));
            }
        }
        proof {
            assert forall|i: int| k <= i < s.len() implies (#[trigger] s[i]).not_before > now by {
                if i > k {
                    assert(runs_before(s[k], s[i]));
                }
            }
            assert(s.len() - self.tasks@.len() == k);
        }
    }
}

pub proof fn lemma_insert_pos_exists<T>(s: Seq<AppTask<T>>, nb: u64)
    requires
        in_run_order(s),
    ensures
        is_insert_pos(s, nb, insert_pos(s, nb)),
    decreases s.len(),
{
    if s.len() == 0 {
        assert(is_insert_pos(s, nb, 0));
    } else {
        let last = s.len() - 1;
        if s[last].not_before <= nb {
            assert forall|i: int| 0 <= i < s.len() implies (#[trigger] s[i]).not_before <= nb by {
                if i < last {
                    assert(runs_before(s[i], s[last]));
                }
            }
            assert(is_insert_pos(s, nb, s.len() as int));
        } else {
            let t = s.drop_last();
            assert(in_run_order(t)) by {
                assert forall|i: int, j: int| 0 <= i < j < t.len() implies runs_before(#[trigger] t[i], #[trigger] t[j]) by {
                    assert(t[i] == s[i] && t[j] == s[j]);
                }
            }
            lemma_insert_pos_exists(t, nb);
            let p = insert_pos(t, nb);
            assert forall|i: int| p <= i < s.len() implies (#[trigger] s[i]).not_before > nb by {
                if i < last {
                    assert(t[i] == s[i]);
                }
            }
            assert forall|i: int| 0 <= i < p implies (#[trigger] s[i]).not_before <= nb by {
                assert(t[i] == s[i]);
            }
            assert(is_insert_pos(s, nb, p));
        }
    }
}

/// Two tasks submitted for the same instant, one after the other, are queued
/// next to each other in the order of submission, so they run in that order.
pub proof fn law_same_instant_runs_in_submission_order<T>(s: Seq<AppTask<T>>, nb: u64, id: u64, a: T, b: T)
    requires
        in_run_order(s),
        forall|i: int| 0 <= i < s.len() ==> (#[trigger] s[i]).id < id,
        id < u64::MAX,
    ensures
        ({
            let p = insert_pos(s, nb);
            let s2 = enqueued(enqueued(s, nb, id, a), nb, (id + 1) as u64, b);
            &&& s2[p] == AppTask { not_before: nb, id, task: a }
            &&& s2[p + 1] == AppTask { not_before: nb, id: (id + 1) as u64, task: b }
        }),
{
    let p = insert_pos(s, nb);
    lemma_insert_pos_exists(s, nb);
    let s1 = enqueued(s, nb, id, a);
    assert(is_insert_pos(s1, nb, p + 1)) by {
        assert forall|i: int| 0 <= i < p + 1 implies (#[trigger] s1[i]).not_before <= nb by {
            if i < p {
                assert(s1[i] == s[i]);
            }
        }
        assert forall|i: int| p + 1 <= i < s1.len() implies (#[trigger] s1[i]).not_before > nb by {
            assert(s1[i] == s[i - 1]);
        }
    }
    lemma_insert_pos_unique(s1, nb, p + 1, insert_pos(s1, nb));
}

/// A task whose due time has passed is handed out by the next retrieval: its
/// payload goes to the destination with the other due tasks, and the queue no
/// longer holds it. A task that is not yet due stays queued and is not handed
/// out. (`s` is a queue as `wf` keeps it, `id` the next submission number,
/// and `k` the number of tasks that the retrieval at `now` takes.)
pub proof fn law_due_task_is_retrieved<T>(s: Seq<AppTask<T>>, nb: u64, id: u64, task: T, now: u64, k: int)
    requires
        in_run_order(s),
        forall|i: int| 0 <= i < s.len() ==> (#[trigger] s[i]).id < id,
        is_due_split(enqueued(s, nb, id, task), now, k),
    ensures
        ({
            let e = enqueued(s, nb, id, task);
            let p = insert_pos(s, nb);
            &&& nb <= now ==> {
                &&& 0 <= p < k
                &&& e.take(k)[p] == (AppTask { not_before: nb, id, task })
                &&& payloads(e.take(k))[p] == task
                &&& forall|i: int| 0 <= i < e.skip(k).len() ==> (#[trigger] e.skip(k)[i]).id != id
            }
            &&& nb > now ==> {
                &&& k <= p < e.len()
                &&& e.skip(k)[p - k] == (AppTask { not_before: nb, id, task })
                &&& forall|i: int| 0 <= i < k ==> (#[trigger] e.take(k)[i]).id != id
            }
        }),
{
    lemma_insert_pos_exists(s, nb);
    let p = insert_pos(s, nb);
    let e = enqueued(s, nb, id, task);
    assert(e[p].not_before == nb);
    assert(e[p] == AppTask { not_before: nb, id, task });
    assert forall|i: int| 0 <= i < e.len() && i != p implies (#[trigger] e[i]).id != id by {
        if i < p {
            assert(e[i] == s[i]);
        } else {
            assert(e[i] == s[i - 1]);
        }
    }
    if nb <= now {
        assert(e.take(k)[p] == e[p]);
        assert forall|i: int| 0 <= i < e.skip(k).len() implies (#[trigger] e.skip(k)[i]).id != id by {
            assert(e.skip(k)[i] == e[i + k]);
        }
    } else {
        assert(e.skip(k)[p - k] == e[p]);
        assert forall|i: int| 0 <= i < k implies (#[trigger] e.take(k)[i]).id != id by {
            assert(e.take(k)[i] == e[i]);
        }
    }
}

/// Submitting a task keeps every queued task and queues the new one.
pub proof fn lemma_enqueued_contents<T>(s: Seq<AppTask<T>>, nb: u64, id: u64, task: T)
    requires
        in_run_order(s),
    ensures
        forall|i: int| 0 <= i < s.len() ==> (exists|j: int| 0 <= j < s.len() + 1
            && #[trigger] enqueued(s, nb, id, task)[j] == #[trigger] s[i]),
        exists|j: int| 0 <= j < s.len() + 1 && enqueued(s, nb, id, task)[j] == (AppTask { not_before: nb, id, task }),
        enqueued(s, nb, id, task).len() == s.len() + 1,
{
    lemma_insert_pos_exists(s, nb);
    let p = insert_pos(s, nb);
    let e = enqueued(s, nb, id, task);
    assert forall|i: int| 0 <= i < s.len() implies exists|j: int| 0 <= j < s.len() + 1
        && #[trigger] e[j] == #[trigger] s[i] by {
        if i < p {
            assert(e[i] == s[i]);
        } else {
            assert(e[i + 1] == s[i]);
        }
    }
    assert(e[p] == AppTask { not_before: nb, id, task });
}

proof fn lemma_insert_pos_unique<T>(s: Seq<AppTask<T>>, nb: u64, p: int, q: int)
    requires
        is_insert_pos(s, nb, p),
        is_insert_pos(s, nb, q) || q == insert_pos(s, nb),
    ensures
        p == q,
{
    assert(is_insert_pos(s, nb, insert_pos(s, nb)));
    if p < q {
        assert(s[p].not_before > nb);
    } else if q < p {
        assert(s[q].not_before > nb);
    }
}

} // verus!
