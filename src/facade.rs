//! The pool of tasks: which are due, which are not, picking one due task for
//! review, and the wait until the next one.

use crate::task::Exercise;
use rand::Rng;
use vstd::multiset::Multiset;
use vstd::prelude::*;
use vstd::seq_lib::group_to_multiset_ensures;

verus! {

broadcast use group_to_multiset_ensures, vstd::multiset::group_multiset_axioms;

/// How far ahead a task still counts as due, in seconds: a task due a moment
/// from now is offered in the current round.
pub const LOOKAHEAD_SECS: i64 = 10;

/// A task of the pool with its identifier, fixed at creation.
#[derive(Debug)]
pub struct TaskWrapper<T> {
    pub task: T,
    pub id: u64,
}

impl<T> TaskWrapper<T> {
    pub open spec fn id_spec(&self) -> u64 {
        self.id
    }

    pub fn id(&self) -> (r: u64)
        ensures
            r == self.id_spec(),
    {
        self.id
    }
}

/// The identifiers of a sequence of tasks.
pub open spec fn ids<T>(s: Seq<TaskWrapper<T>>) -> Seq<u64> {
    s.map_values(|w: TaskWrapper<T>| w.id_spec())
}

/// A task whose next review is at `at` is due at `now`.
pub open spec fn is_due(at: i64, now: i64) -> bool {
    at <= now + LOOKAHEAD_SECS
}

/// The items of `s` whose time in `at` is not due at `now`, in order.
pub open spec fn kept<A>(s: Seq<A>, at: Seq<i64>, now: i64) -> Seq<A>
    decreases s.len(),
{
    if s.len() == 0 {
        Seq::empty()
    } else {
        let init = kept(s.drop_last(), at, now);
        if is_due(at[s.len() - 1], now) {
            init
        } else {
            init.push(s.last())
        }
    }
}

/// The items of `s` whose time in `at` is due at `now`, in order.
pub open spec fn moved<A>(s: Seq<A>, at: Seq<i64>, now: i64) -> Seq<A>
    decreases s.len(),
{
    if s.len() == 0 {
        Seq::empty()
    } else {
        let init = moved(s.drop_last(), at, now);
        if is_due(at[s.len() - 1], now) {
            init.push(s.last())
        } else {
            init
        }
    }
}

/// The seconds from `now` to `at`, zero where `at` has passed.
pub open spec fn wait(at: i64, now: i64) -> int {
    if at > now {
        at - now
    } else {
        0
    }
}

/// The shortest wait over the times `at`.
pub open spec fn min_wait(at: Seq<i64>, now: i64) -> int
    decreases at.len(),
{
    if at.len() <= 1 {
        if at.len() == 0 {
            0
        } else {
            wait(at[0], now)
        }
    } else {
        let m = min_wait(at.drop_last(), now);
        let w = wait(at.last(), now);
        if w < m {
            w
        } else {
            m
        }
    }
}

/// Why no task was handed out, or what went wrong with one.
#[derive(Clone, Copy, Debug, PartialEq, Eq, Structural)]
pub enum Error {
    /// The pool holds no task.
    NoTask,
    /// No task is due; the next one is in this many seconds.
    NoTaskToComplete { time_until_next_repetition: u64 },
    /// The interaction with the user failed.
    InteractionFailed,
    /// The user's response did not fit the form it answered.
    MalformedResponse,
    /// The content of a task is missing from its store.
    NotFound,
    /// The model's parameters could not be fitted.
    OptimizeFailed,
}

/// Relies on `rand::Rng::gen_range` over `rand::thread_rng`: a number in
/// `0..len`, which panics on an empty range.
#[verifier::external_body]
fn random_index(len: usize) -> (r: usize)
    requires
        len > 0,
    ensures
        r < len,
{
    rand::thread_rng().gen_range(0..len)
}

/// Relies on `rand::random`: any `u64`.
#[verifier::external_body]
fn random_id() -> (r: u64) {
    rand::random()
}

/// The pool: tasks not due yet, tasks due for review, the retention goal
/// (in hundredths of a percent) and the state that all tasks share.
#[derive(Debug)]
pub struct Facade<T, S> {
    name: String,
    tasks_pool: Vec<TaskWrapper<T>>,
    tasks_to_recall: Vec<TaskWrapper<T>>,
    desired_retention: u32,
    state: S,
    in_flight: Option<u64>,
}

/// Every identifier once at most.
pub open spec fn unique(m: Multiset<u64>) -> bool {
    forall|id: u64| #[trigger] m.count(id) <= 1
}

proof fn lemma_split_ids<T>(s: Seq<TaskWrapper<T>>, at: Seq<i64>, now: i64)
    ensures
        ids(kept(s, at, now)).to_multiset().add(ids(moved(s, at, now)).to_multiset())
            =~= ids(s).to_multiset(),
    decreases s.len(),
{
    if s.len() > 0 {
        lemma_split_ids(s.drop_last(), at, now);
        assert(ids(s) =~= ids(s.drop_last()).push(s.last().id_spec()));
        let k = kept(s.drop_last(), at, now);
        let m = moved(s.drop_last(), at, now);
        assert(ids(k.push(s.last())) =~= ids(k).push(s.last().id_spec()));
        assert(ids(m.push(s.last())) =~= ids(m).push(s.last().id_spec()));
    } else {
        assert(ids(kept(s, at, now)) =~= Seq::<u64>::empty());
        assert(ids(moved(s, at, now)) =~= Seq::<u64>::empty());
        assert(ids(s) =~= Seq::<u64>::empty());
    }
}

proof fn lemma_kept_len<A, B>(s: Seq<A>, t: Seq<B>, at: Seq<i64>, now: i64)
    requires
        s.len() == t.len(),
    ensures
        kept(s, at, now).len() == kept(t, at, now).len(),
        moved(s, at, now).len() == moved(t, at, now).len(),
    decreases s.len(),
{
    if s.len() > 0 {
        lemma_kept_len(s.drop_last(), t.drop_last(), at, now);
    }
}

/// A multiset in which each of `0..k` occurs has at least `k` elements.
proof fn lemma_covering_len(m: Multiset<u64>, k: nat)
    requires
        k <= u64::MAX + 1,
        forall|j: u64| j < k ==> #[trigger] m.count(j) > 0,
    ensures
        m.len() >= k,
    decreases k,
{
    if k > 0 {
        let x = (k - 1) as u64;
        let r = m.remove(x);
        assert forall|j: u64| j < k - 1 implies #[trigger] r.count(j) > 0 by {
            assert(m.count(j) > 0);
        }
        lemma_covering_len(r, (k - 1) as nat);
        assert(r.insert(x) =~= m);
    }
}

impl<T, S> Facade<T, S> {
    pub closed spec fn pool(&self) -> Seq<TaskWrapper<T>> {
        self.tasks_pool@
    }

    pub closed spec fn recall(&self) -> Seq<TaskWrapper<T>> {
        self.tasks_to_recall@
    }

    pub closed spec fn name_spec(&self) -> Seq<char> {
        self.name@
    }

    pub closed spec fn retention_spec(&self) -> u32 {
        self.desired_retention
    }

    pub closed spec fn state_spec(&self) -> &S {
        &self.state
    }

    /// The identifier of the task out for review, if one is.
    pub closed spec fn in_flight_spec(&self) -> Option<u64> {
        self.in_flight
    }

    /// Every identifier of the pool: not due, due, and out for review.
    pub open spec fn id_bag(&self) -> Multiset<u64> {
        let f = match self.in_flight_spec() {
            Some(id) => Multiset::singleton(id),
            None => Multiset::empty(),
        };
        ids(self.pool()).to_multiset().add(ids(self.recall()).to_multiset()).add(f)
    }

    /// The pool is well formed: no identifier occurs twice.
    pub open spec fn wf(&self) -> bool {
        unique(self.id_bag())
    }

    /// All tasks, not due first, then due.
    pub open spec fn all_tasks(&self) -> Seq<TaskWrapper<T>> {
        self.pool() + self.recall()
    }

    /// An empty pool.
    pub fn new(name: String, desired_retention: u32, state: S) -> (r: Facade<T, S>)
        ensures
            r.wf(),
            r.pool() == Seq::<TaskWrapper<T>>::empty(),
            r.recall() == Seq::<TaskWrapper<T>>::empty(),
            r.in_flight_spec() is None,
            r.name_spec() == name@,
            r.retention_spec() == desired_retention,
            *r.state_spec() == state,
    {
        let r = Facade {
            name,
            tasks_pool: Vec::new(),
            tasks_to_recall: Vec::new(),
            desired_retention,
            state,
            in_flight: None,
        };
        assert(ids(r.pool()) =~= Seq::<u64>::empty());
        assert(ids(r.recall()) =~= Seq::<u64>::empty());
        assert(r.id_bag() =~= Multiset::<u64>::empty());
        r
    }

    pub fn get_name(&self) -> (r: &String)
        ensures
            r@ == self.name_spec(),
    {
        &self.name
    }

    pub fn get_desired_retention(&self) -> (r: u32)
        ensures
            r == self.retention_spec(),
    {
        self.desired_retention
    }

    pub fn state(&self) -> (r: &S)
        ensures
            r == self.state_spec(),
    {
        &self.state
    }

    pub fn tasks_total(&self) -> (r: usize)
        requires
            self.pool().len() + self.recall().len() <= usize::MAX,
        ensures
            r == self.pool().len() + self.recall().len(),
    {
        self.tasks_pool.len() + self.tasks_to_recall.len()
    }

    pub fn tasks_to_complete(&self) -> (r: usize)
        ensures
            r == self.recall().len(),
    {
        self.tasks_to_recall.len()
    }

    /// The tasks not due, in order.
    pub fn not_due(&self) -> (r: &Vec<TaskWrapper<T>>)
        ensures
            r@ == self.pool(),
    {
        &self.tasks_pool
    }

    /// The tasks due, in order.
    pub fn due(&self) -> (r: &Vec<TaskWrapper<T>>)
        ensures
            r@ == self.recall(),
    {
        &self.tasks_to_recall
    }

    /// Moves each task not due yet whose next review (`next_repetitions[i]`
    /// for task `i`) is at most `now` plus the lookahead to the due ones.
    pub fn find_tasks_to_recall(&mut self, now: i64, next_repetitions: &Vec<i64>)
        requires
            old(self).wf(),
            next_repetitions.len() == old(self).pool().len(),
        ensures
            final(self).wf(),
            final(self).pool() == kept(old(self).pool(), next_repetitions@, now),
            final(self).recall() == old(self).recall() + moved(
                old(self).pool(),
                next_repetitions@,
                now,
            ),
            final(self).id_bag() == old(self).id_bag(),
            final(self).in_flight_spec() == old(self).in_flight_spec(),
            final(self).name_spec() == old(self).name_spec(),
            final(self).retention_spec() == old(self).retention_spec(),
            final(self).state_spec() == old(self).state_spec(),
    {
        let mut rest: Vec<TaskWrapper<T>> = Vec::new();
        std::mem::swap(&mut rest, &mut self.tasks_pool);
        let ghost s = rest@;
        let ghost r0 = self.tasks_to_recall@;
        let ghost at = next_repetitions@;
        let n = rest.len();
        let mut i: usize = 0;
        proof {
            assert(s.take(0) =~= Seq::<TaskWrapper<T>>::empty());
            assert(r0 + Seq::<TaskWrapper<T>>::empty() =~= r0);
        }
        while i < n
            invariant
                n == s.len(),
                at == next_repetitions@,
                n == at.len(),
                i <= n,
                rest@ == s.subrange(i as int, n as int),
                self.tasks_pool@ == kept(s.take(i as int), at, now),
                self.tasks_to_recall@ == r0 + moved(s.take(i as int), at, now),
                self.in_flight == old(self).in_flight,
                self.name == old(self).name,
                self.desired_retention == old(self).desired_retention,
                self.state == old(self).state,
            decreases n - i,
        {
            let w = rest.remove(0);
            proof {
                assert(s.take(i + 1).drop_last() =~= s.take(i as int));
                assert(w == s[i as int]);
            }
            if (next_repetitions[i] as i128) <= (now as i128) + (LOOKAHEAD_SECS as i128) {
                self.tasks_to_recall.push(w);
                proof {
                    assert(r0 + moved(s.take(i as int), at, now).push(w) =~= (r0 + moved(
                        s.take(i as int),
                        at,
                        now,
                    )).push(w));
                }
            } else {
                self.tasks_pool.push(w);
            }
            i += 1;
            proof {
                assert(rest@ =~= s.subrange(i as int, n as int));
            }
        }
        proof {
            assert(s.take(n as int) =~= s);
            lemma_split_ids(s, at, now);
            let k = kept(s, at, now);
            let m = moved(s, at, now);
            assert(ids(r0 + m) =~= ids(r0) + ids(m));
            vstd::seq_lib::lemma_multiset_commutative(ids(r0), ids(m));
            assert(self.id_bag() =~= old(self).id_bag());
        }
    }

    /// Moves every task back among those not due, then moves the due ones to
    /// the due tasks again; `next_repetitions` holds the next review of each
    /// task, those not due first, then the due ones.
    pub fn reload_all_tasks_timings(&mut self, now: i64, next_repetitions: &Vec<i64>)
        requires
            old(self).wf(),
            next_repetitions.len() == old(self).pool().len() + old(self).recall().len(),
        ensures
            final(self).wf(),
            final(self).pool() == kept(old(self).all_tasks(), next_repetitions@, now),
            final(self).recall() == moved(old(self).all_tasks(), next_repetitions@, now),
            final(self).id_bag() == old(self).id_bag(),
            final(self).in_flight_spec() == old(self).in_flight_spec(),
            final(self).name_spec() == old(self).name_spec(),
            final(self).retention_spec() == old(self).retention_spec(),
            final(self).state_spec() == old(self).state_spec(),
    {
        let ghost p0 = self.tasks_pool@;
        let ghost r0 = self.tasks_to_recall@;
        let mut due: Vec<TaskWrapper<T>> = Vec::new();
        std::mem::swap(&mut due, &mut self.tasks_to_recall);
        self.tasks_pool.append(&mut due);
        proof {
            assert(ids(p0 + r0) =~= ids(p0) + ids(r0));
            vstd::seq_lib::lemma_multiset_commutative(ids(p0), ids(r0));
            assert(ids(self.tasks_to_recall@) =~= Seq::<u64>::empty());
            assert(self.id_bag() =~= old(self).id_bag());
        }
        self.find_tasks_to_recall(now, next_repetitions);
        proof {
            assert(Seq::<TaskWrapper<T>>::empty() + moved(p0 + r0, next_repetitions@, now)
                =~= moved(p0 + r0, next_repetitions@, now));
        }
    }

    /// Takes a due task, picked at random, out for review.
    fn take_random_task(&mut self) -> (r: Option<TaskWrapper<T>>)
        requires
            old(self).wf(),
            old(self).in_flight_spec() is None,
        ensures
            old(self).recall().len() == 0 ==> r is None && *final(self) == *old(self),
            old(self).recall().len() > 0 ==> r is Some && exists|i: int|
                0 <= i < old(self).recall().len() && r->Some_0 == old(self).recall()[i]
                    && final(self).recall() == old(self).recall().remove(i),
            r is Some ==> final(self).in_flight_spec() == Some(r->Some_0.id_spec()),
            final(self).pool() == old(self).pool(),
            final(self).id_bag() == old(self).id_bag(),
            final(self).wf(),
            final(self).name_spec() == old(self).name_spec(),
            final(self).retention_spec() == old(self).retention_spec(),
            final(self).state_spec() == old(self).state_spec(),
    {
        if self.tasks_to_recall.len() == 0 {
            return None;
        }
        let index = random_index(self.tasks_to_recall.len());
        let ghost r0 = self.tasks_to_recall@;
        let w = self.tasks_to_recall.remove(index);
        self.in_flight = Some(w.id);
        proof {
            assert(ids(r0.remove(index as int)) =~= ids(r0).remove(index as int));
            assert(ids(r0)[index as int] == w.id);
            assert(self.id_bag() =~= old(self).id_bag());
        }
        Some(w)
    }

    /// The wait until the next review: none for an empty pool, zero while a
    /// task is due, else the shortest wait over the tasks not due, whose next
    /// reviews are `next_repetitions`.
    pub fn until_next_repetition(&self, now: i64, next_repetitions: &Vec<i64>) -> (r: Option<u64>)
        requires
            next_repetitions.len() == self.pool().len(),
        ensures
            self.pool().len() + self.recall().len() == 0 <==> r is None,
            self.recall().len() > 0 ==> r == Some(0u64),
            self.recall().len() == 0 && self.pool().len() > 0 ==> r is Some && r->Some_0
                == min_wait(next_repetitions@, now),
    {
        if self.tasks_pool.len() == 0 && self.tasks_to_recall.len() == 0 {
            return None;
        }
        if self.tasks_to_recall.len() > 0 {
            return Some(0);
        }
        let mut best: u64 = 0;
        let mut i: usize = 0;
        while i < next_repetitions.len()
            invariant
                0 < next_repetitions.len(),
                i <= next_repetitions.len(),
                i > 0 ==> best == min_wait(next_repetitions@.take(i as int), now),
            decreases next_repetitions.len() - i,
        {
            let at = next_repetitions[i];
            let w: u64 = if at > now {
                (at as i128 - now as i128) as u64
            } else {
                0
            };
            proof {
                let t = next_repetitions@.take(i + 1);
                assert(t.drop_last() =~= next_repetitions@.take(i as int));
                assert(t.last() == at);
                if i == 0 {
                    assert(t.len() == 1);
                }
            }
            if i == 0 || w < best {
                best = w;
            }
            i += 1;
        }
        proof {
            assert(next_repetitions@.take(next_repetitions.len() as int) =~= next_repetitions@);
        }
        Some(best)
    }

    /// Whether a task of the pool, or the one out for review, has this
    /// identifier.
    pub fn contains_id(&self, id: u64) -> (r: bool)
        ensures
            r == (self.id_bag().count(id) > 0),
    {
        let mut i: usize = 0;
        while i < self.tasks_pool.len()
            invariant
                forall|j: int| 0 <= j < i ==> #[trigger] self.tasks_pool@[j].id_spec() != id,
            decreases self.tasks_pool.len() - i,
        {
            if self.tasks_pool[i].id == id {
                assert(ids(self.pool())[i as int] == id);
                return true;
            }
            i += 1;
        }
        let mut k: usize = 0;
        while k < self.tasks_to_recall.len()
            invariant
                forall|j: int| 0 <= j < k ==> #[trigger] self.tasks_to_recall@[j].id_spec() != id,
            decreases self.tasks_to_recall.len() - k,
        {
            if self.tasks_to_recall[k].id == id {
                assert(ids(self.recall())[k as int] == id);
                return true;
            }
            k += 1;
        }
        assert(!ids(self.pool()).contains(id));
        assert(!ids(self.recall()).contains(id));
        match self.in_flight {
            Some(f) => f == id,
            None => false,
        }
    }

    /// An identifier that no task of the pool has.
    fn fresh_id(&self) -> (r: u64)
        requires
            self.id_bag().len() < u64::MAX,
        ensures
            self.id_bag().count(r) == 0,
    {
        let candidate = random_id();
        if !self.contains_id(candidate) {
            return candidate;
        }
        let mut k: u64 = 0;
        while self.contains_id(k)
            invariant
                self.id_bag().len() < u64::MAX,
                forall|j: u64| j < k ==> #[trigger] self.id_bag().count(j) > 0,
            decreases self.id_bag().len() - k,
        {
            proof {
                lemma_covering_len(self.id_bag(), (k + 1) as nat);
            }
            k += 1;
        }
        k
    }

    /// Adds a task, not due yet, under a new identifier, which it returns.
    pub fn insert(&mut self, task: T) -> (r: u64)
        requires
            old(self).wf(),
            old(self).pool().len() + old(self).recall().len() + 1 < u64::MAX,
        ensures
            final(self).wf(),
            old(self).id_bag().count(r) == 0,
            final(self).pool().len() == old(self).pool().len() + 1,
            final(self).pool().drop_last() == old(self).pool(),
            final(self).pool().last().task == task,
            final(self).pool().last().id_spec() == r,
            final(self).recall() == old(self).recall(),
            final(self).id_bag() == old(self).id_bag().insert(r),
            final(self).in_flight_spec() == old(self).in_flight_spec(),
            final(self).name_spec() == old(self).name_spec(),
            final(self).retention_spec() == old(self).retention_spec(),
            final(self).state_spec() == old(self).state_spec(),
    {
        proof {
            assert(self.id_bag().len() == self.pool().len() + self.recall().len() + match self.in_flight {
                Some(_) => 1int,
                None => 0int,
            });
        }
        let id = self.fresh_id();
        let ghost p0 = self.tasks_pool@;
        self.tasks_pool.push(TaskWrapper { task, id });
        proof {
            assert(self.tasks_pool@.drop_last() =~= p0);
            assert(ids(p0.push(TaskWrapper { task, id })) =~= ids(p0).push(id));
            assert(self.id_bag() =~= old(self).id_bag().insert(id));
            assert forall|x: u64| #[trigger] self.id_bag().count(x) <= 1 by {
                if x != id {
                    assert(self.id_bag().count(x) == old(self).id_bag().count(x));
                }
            }
        }
        id
    }

    /// Removes the task with this identifier, due or not; whether there was
    /// one.
    pub fn remove(&mut self, id: u64) -> (r: bool)
        requires
            old(self).wf(),
        ensures
            final(self).wf(),
            r == (ids(old(self).pool()).contains(id) || ids(old(self).recall()).contains(id)),
            ids(old(self).recall()).contains(id) ==> exists|i: int|
                0 <= i < old(self).recall().len() && old(self).recall()[i].id_spec() == id
                    && final(self).recall() == old(self).recall().remove(i) && final(self).pool()
                    == old(self).pool(),
            !ids(old(self).recall()).contains(id) && ids(old(self).pool()).contains(id) ==> exists|
                i: int,
            |
                0 <= i < old(self).pool().len() && old(self).pool()[i].id_spec() == id
                    && final(self).pool() == old(self).pool().remove(i) && final(self).recall()
                    == old(self).recall(),
            !r ==> *final(self) == *old(self),
            final(self).id_bag() == if r {
                old(self).id_bag().remove(id)
            } else {
                old(self).id_bag()
            },
            final(self).in_flight_spec() == old(self).in_flight_spec(),
            final(self).name_spec() == old(self).name_spec(),
            final(self).retention_spec() == old(self).retention_spec(),
            final(self).state_spec() == old(self).state_spec(),
    {
        let ghost p0 = self.tasks_pool@;
        let ghost r0 = self.tasks_to_recall@;
        let mut k: usize = 0;
        while k < self.tasks_to_recall.len()
            invariant
                old(self).wf(),
                *self == *old(self),
                self.tasks_to_recall@ == r0,
                self.tasks_pool@ == p0,
                forall|j: int| 0 <= j < k ==> #[trigger] r0[j].id_spec() != id,
            decreases self.tasks_to_recall.len() - k,
        {
            if self.tasks_to_recall[k].id == id {
                let _ = self.tasks_to_recall.remove(k);
                proof {
                    assert(ids(r0.remove(k as int)) =~= ids(r0).remove(k as int));
                    assert(ids(r0)[k as int] == id);
                    assert(ids(r0).contains(id));
                    assert(self.id_bag() =~= old(self).id_bag().remove(id));
                    assert forall|x: u64| #[trigger] self.id_bag().count(x) <= 1 by {
                        assert(old(self).id_bag().count(x) <= 1);
                    }
                }
                return true;
            }
            k += 1;
        }
        assert(!ids(r0).contains(id));
        let mut i: usize = 0;
        while i < self.tasks_pool.len()
            invariant
                old(self).wf(),
                *self == *old(self),
                self.tasks_pool@ == p0,
                self.tasks_to_recall@ == r0,
                !ids(r0).contains(id),
                forall|j: int| 0 <= j < i ==> #[trigger] p0[j].id_spec() != id,
            decreases self.tasks_pool.len() - i,
        {
            if self.tasks_pool[i].id == id {
                let _ = self.tasks_pool.remove(i);
                proof {
                    assert(ids(p0.remove(i as int)) =~= ids(p0).remove(i as int));
                    assert(ids(p0)[i as int] == id);
                    assert(ids(p0).contains(id));
                    assert(self.id_bag() =~= old(self).id_bag().remove(id));
                    assert forall|x: u64| #[trigger] self.id_bag().count(x) <= 1 by {
                        assert(old(self).id_bag().count(x) <= 1);
                    }
                }
                return true;
            }
            i += 1;
        }
        assert(!ids(p0).contains(id));
        false
    }

    /// Picks a due task for review, after moving the tasks that have become
    /// due (`next_repetitions` as for [`Facade::find_tasks_to_recall`]). With
    /// none due: `NoTask` for an empty pool, else the wait until the next.
    /// The task stays out until [`Facade::return_task`].
    pub fn begin_task(&mut self, now: i64, next_repetitions: &Vec<i64>) -> (r: Result<
        TaskWrapper<T>,
        Error,
    >)
        requires
            old(self).wf(),
            old(self).in_flight_spec() is None,
            next_repetitions.len() == old(self).pool().len(),
        ensures
            final(self).wf(),
            final(self).id_bag() == old(self).id_bag(),
            began(old(self), final(self), next_repetitions@, now, r),
            final(self).name_spec() == old(self).name_spec(),
            final(self).retention_spec() == old(self).retention_spec(),
            final(self).state_spec() == old(self).state_spec(),
    {
        self.find_tasks_to_recall(now, next_repetitions);
        match self.take_random_task() {
            Some(w) => Ok(w),
            None => {
                let times = kept_times(now, next_repetitions);
                proof {
                    lemma_kept_len(old(self).pool(), next_repetitions@, next_repetitions@, now);
                }
                match self.until_next_repetition(now, &times) {
                    Some(t) => Err(Error::NoTaskToComplete { time_until_next_repetition: t }),
                    None => Err(Error::NoTask),
                }
            },
        }
    }

    /// Puts the task back among those not due, after its review, whether the
    /// review succeeded or failed: no task is lost.
    pub fn return_task(&mut self, w: TaskWrapper<T>)
        requires
            old(self).wf(),
            old(self).in_flight_spec() == Some(w.id_spec()),
        ensures
            final(self).wf(),
            final(self).pool() == old(self).pool().push(w),
            final(self).recall() == old(self).recall(),
            final(self).in_flight_spec() is None,
            final(self).id_bag() == old(self).id_bag(),
            final(self).name_spec() == old(self).name_spec(),
            final(self).retention_spec() == old(self).retention_spec(),
            final(self).state_spec() == old(self).state_spec(),
    {
        let ghost p0 = self.tasks_pool@;
        self.tasks_pool.push(w);
        self.in_flight = None;
        proof {
            assert(ids(p0.push(w)) =~= ids(p0).push(w.id));
            assert(self.id_bag() =~= old(self).id_bag());
        }
    }

    /// Sets the retention goal and sorts all tasks again, since the intervals
    /// depend on it; `next_repetitions` as for
    /// [`Facade::reload_all_tasks_timings`], under the new goal.
    pub fn set_desired_retention(
        &mut self,
        desired_retention: u32,
        now: i64,
        next_repetitions: &Vec<i64>,
    )
        requires
            old(self).wf(),
            next_repetitions.len() == old(self).pool().len() + old(self).recall().len(),
        ensures
            final(self).wf(),
            final(self).retention_spec() == desired_retention,
            final(self).pool() == kept(old(self).all_tasks(), next_repetitions@, now),
            final(self).recall() == moved(old(self).all_tasks(), next_repetitions@, now),
            final(self).id_bag() == old(self).id_bag(),
            final(self).in_flight_spec() == old(self).in_flight_spec(),
            final(self).name_spec() == old(self).name_spec(),
            final(self).state_spec() == old(self).state_spec(),
    {
        self.desired_retention = desired_retention;
        self.reload_all_tasks_timings(now, next_repetitions);
    }

    /// Replaces the shared state and sorts all tasks again under it.
    pub fn replace_state(&mut self, state: S, now: i64, next_repetitions: &Vec<i64>)
        requires
            old(self).wf(),
            next_repetitions.len() == old(self).pool().len() + old(self).recall().len(),
        ensures
            final(self).wf(),
            *final(self).state_spec() == state,
            final(self).pool() == kept(old(self).all_tasks(), next_repetitions@, now),
            final(self).recall() == moved(old(self).all_tasks(), next_repetitions@, now),
            final(self).id_bag() == old(self).id_bag(),
            final(self).in_flight_spec() == old(self).in_flight_spec(),
            final(self).name_spec() == old(self).name_spec(),
            final(self).retention_spec() == old(self).retention_spec(),
    {
        self.state = state;
        self.reload_all_tasks_timings(now, next_repetitions);
    }
}

/// The new pool holds, not due, a task for each exercise of `from`, in
/// order.
pub open spec fn same_exercises<T: Exercise, U: Exercise>(
    to: Seq<TaskWrapper<U>>,
    from: Seq<TaskWrapper<T>>,
) -> bool {
    &&& to.len() == from.len()
    &&& forall|i: int|
        0 <= i < to.len() ==> (#[trigger] to[i]).task.exercise_blocks()
            == from[i].task.exercise_blocks() && to[i].task.exercise_answer()
            == from[i].task.exercise_answer()
}

/// None of the tasks has a review yet.
pub open spec fn all_fresh<T: Exercise>(s: Seq<TaskWrapper<T>>) -> bool {
    forall|i: int| 0 <= i < s.len() ==> (#[trigger] s[i]).task.is_fresh()
}

impl<T: Exercise, S> Facade<T, S> {
    /// Adds a new task, not due yet, for an exercise; its new identifier.
    pub fn create_task(&mut self, input: crate::blocks::BlocksWithAnswer) -> (r: u64)
        requires
            old(self).wf(),
            old(self).pool().len() + old(self).recall().len() + 1 < u64::MAX,
        ensures
            final(self).wf(),
            old(self).id_bag().count(r) == 0,
            final(self).pool().len() == old(self).pool().len() + 1,
            final(self).pool().drop_last() == old(self).pool(),
            final(self).pool().last().task.exercise_blocks() == input.blocks.deep_view(),
            final(self).pool().last().task.exercise_answer() == input.answer.deep_view(),
            final(self).pool().last().id_spec() == r,
            final(self).recall() == old(self).recall(),
            final(self).id_bag() == old(self).id_bag().insert(r),
    {
        self.insert(T::from_blocks(input))
    }

    /// A new pool under another policy, with a new task for each exercise of
    /// this one, under the same name and retention goal, with `state` as its
    /// shared state. All review history is left behind.
    pub fn migrate<U: Exercise, V>(&self, state: V) -> (r: Facade<U, V>)
        requires
            self.pool().len() + self.recall().len() + 1 < u64::MAX,
        ensures
            r.wf(),
            r.recall() == Seq::<TaskWrapper<U>>::empty(),
            same_exercises(r.pool(), self.all_tasks()),
            all_fresh(r.pool()),
            r.in_flight_spec() is None,
            r.name_spec() == self.name_spec(),
            r.retention_spec() == self.retention_spec(),
            *r.state_spec() == state,
    {
        let mut target: Facade<U, V> = Facade::new(self.name.clone(), self.desired_retention, state);
        copy_exercises(&mut target, &self.tasks_pool, Ghost(Seq::empty()));
        copy_exercises(&mut target, &self.tasks_to_recall, Ghost(self.pool()));
        assert(self.pool() + self.recall() == self.all_tasks());
        target
    }
}

/// A pool taken apart, as it is stored: its name, the tasks not due and
/// due, the retention goal and the shared state.
#[derive(Debug)]
pub struct FacadeParts<T, S> {
    pub name: String,
    pub not_due: Vec<TaskWrapper<T>>,
    pub due: Vec<TaskWrapper<T>>,
    pub desired_retention: u32,
    pub state: S,
}

/// `p` holds the parts of the pool `f`.
pub open spec fn holds_parts<T, S>(f: &Facade<T, S>, p: &FacadeParts<T, S>) -> bool {
    &&& p.name@ == f.name_spec()
    &&& p.not_due@ == f.pool()
    &&& p.due@ == f.recall()
    &&& p.desired_retention == f.retention_spec()
    &&& p.state == *f.state_spec()
}

/// The identifiers of the parts, none twice.
pub open spec fn parts_unique<T, S>(p: &FacadeParts<T, S>) -> bool {
    (ids(p.not_due@) + ids(p.due@)).no_duplicates()
}

/// A sequence has no identifier twice exactly when its multiset has none.
proof fn lemma_no_duplicates_unique(s: Seq<u64>)
    ensures
        s.no_duplicates() <==> unique(s.to_multiset()),
    decreases s.len(),
{
    if s.len() == 0 {
        assert(s.to_multiset() =~= Multiset::<u64>::empty());
    } else {
        let init = s.drop_last();
        let x = s.last();
        assert(s =~= init.push(x));
        lemma_no_duplicates_unique(init);
        let m = init.to_multiset();
        assert(s.to_multiset() =~= m.insert(x));
        if s.no_duplicates() {
            assert(init.no_duplicates()) by {
                assert forall|i: int, j: int|
                    0 <= i < init.len() && 0 <= j < init.len() && i != j implies init[i]
                    != init[j] by {
                    assert(init[i] == s[i] && init[j] == s[j]);
                }
            }
            assert(!init.contains(x)) by {
                if init.contains(x) {
                    let i = choose|i: int| 0 <= i < init.len() && init[i] == x;
                    assert(s[i] == s[s.len() - 1]);
                }
            }
            assert(m.count(x) == 0);
            assert forall|y: u64| #[trigger] s.to_multiset().count(y) <= 1 by {
                if y != x {
                    assert(m.count(y) <= 1);
                }
            }
        }
        if unique(s.to_multiset()) {
            assert forall|y: u64| #[trigger] m.count(y) <= 1 by {
                assert(s.to_multiset().count(y) <= 1);
                if y == x {
                    assert(s.to_multiset().count(y) == m.count(y) + 1);
                }
            }
            assert(s.to_multiset().count(x) <= 1);
            assert(m.count(x) == 0);
            assert(!init.contains(x));
            assert forall|i: int, j: int|
                0 <= i < s.len() && 0 <= j < s.len() && i != j implies s[i] != s[j] by {
                if i < s.len() - 1 && j < s.len() - 1 {
                    assert(init[i] == s[i] && init[j] == s[j]);
                } else if i == s.len() - 1 {
                    assert(init[j] == s[j]);
                } else {
                    assert(init[i] == s[i]);
                }
            }
        }
    }
}

/// Taking a pool apart and putting the parts together again gives the same
/// pool: the same tasks, each in the same collection and order, and the
/// same name, retention goal and shared state.
pub proof fn lemma_parts_round_trip<T, S>(
    f: &Facade<T, S>,
    p: &FacadeParts<T, S>,
    g: &Facade<T, S>,
)
    requires
        f.wf(),
        f.in_flight_spec() is None,
        holds_parts(f, p),
        g.in_flight_spec() is None,
        holds_parts(g, p),
    ensures
        parts_unique(p),
        g.pool() == f.pool(),
        g.recall() == f.recall(),
        g.name_spec() == f.name_spec(),
        g.retention_spec() == f.retention_spec(),
        g.state_spec() == f.state_spec(),
        g.id_bag() == f.id_bag(),
{
    lemma_unique_of_parts(p);
    assert(f.id_bag() =~= (ids(f.pool()) + ids(f.recall())).to_multiset());
}

proof fn lemma_unique_of_parts<T, S>(p: &FacadeParts<T, S>)
    ensures
        (ids(p.not_due@) + ids(p.due@)).to_multiset() == ids(p.not_due@).to_multiset().add(
            ids(p.due@).to_multiset(),
        ),
        parts_unique(p) <==> unique((ids(p.not_due@) + ids(p.due@)).to_multiset()),
{
    vstd::seq_lib::lemma_multiset_commutative(ids(p.not_due@), ids(p.due@));
    lemma_no_duplicates_unique(ids(p.not_due@) + ids(p.due@));
}

/// What [`Facade::begin_task`] does to a pool `before`, with `at` the next
/// review of each task not due: the tasks that have become due join the due
/// ones; then one of those is taken out, or, with none, the result says
/// whether the pool is empty or how long until the next review.
pub open spec fn began<T, S>(
    before: &Facade<T, S>,
    after: &Facade<T, S>,
    at: Seq<i64>,
    now: i64,
    r: Result<TaskWrapper<T>, Error>,
) -> bool {
    let due = before.recall() + moved(before.pool(), at, now);
    &&& after.pool() == kept(before.pool(), at, now)
    &&& due.len() == 0 ==> after.recall() == due && after.in_flight_spec() is None && r == Err::<
        TaskWrapper<T>,
        Error,
    >(
        if after.pool().len() == 0 {
            Error::NoTask
        } else {
            Error::NoTaskToComplete {
                time_until_next_repetition: min_wait(kept(at, at, now), now) as u64,
            }
        },
    )
    &&& due.len() > 0 ==> r is Ok && after.in_flight_spec() == Some(r->Ok_0.id_spec()) && exists|
        i: int,
    |
        0 <= i < due.len() && r->Ok_0 == due[i] && after.recall() == due.remove(i)
}

/// A pool with tasks, none of them due at `now`, yields no task: the result
/// is the wait until the soonest of their next reviews, and the pool is left
/// as it was.
pub proof fn lemma_wait_when_nothing_due<T, S>(
    before: &Facade<T, S>,
    after: &Facade<T, S>,
    at: Seq<i64>,
    now: i64,
    r: Result<TaskWrapper<T>, Error>,
)
    requires
        before.recall().len() == 0,
        before.pool().len() > 0,
        at.len() == before.pool().len(),
        forall|i: int| 0 <= i < at.len() ==> !is_due(#[trigger] at[i], now),
        began(before, after, at, now, r),
    ensures
        r == Err::<TaskWrapper<T>, Error>(
            Error::NoTaskToComplete { time_until_next_repetition: min_wait(at, now) as u64 },
        ),
        after.pool() == before.pool(),
        after.recall() == before.recall(),
        after.in_flight_spec() is None,
{
    lemma_none_due(before.pool(), at, now);
    lemma_none_due(at, at, now);
    assert(before.recall() + Seq::<TaskWrapper<T>>::empty() =~= before.recall());
}

/// A task taken out for review and handed back as it was, as after a
/// failed review, is among the tasks not due again, with the same level and
/// content under the same identifier, and the pool has lost no task.
pub proof fn lemma_failed_review_keeps_task<T, S>(
    before: &Facade<T, S>,
    taken: &Facade<T, S>,
    after: &Facade<T, S>,
    w: TaskWrapper<T>,
)
    requires
        before.wf(),
        taken.id_bag() == before.id_bag(),
        taken.in_flight_spec() == Some(w.id_spec()),
        after.pool() == taken.pool().push(w),
        after.recall() == taken.recall(),
        after.in_flight_spec() is None,
        after.id_bag() == taken.id_bag(),
    ensures
        after.pool().last() == w,
        ids(after.pool()).contains(w.id_spec()),
        after.id_bag() == before.id_bag(),
        after.wf(),
{
    assert(ids(after.pool()).last() == w.id_spec());
}

/// In a well-formed pool, each task's identifier is among the tasks not due
/// or among the due ones, never both.
pub proof fn lemma_task_in_exactly_one<T, S>(f: &Facade<T, S>, id: u64)
    requires
        f.wf(),
        ids(f.all_tasks()).contains(id),
    ensures
        ids(f.pool()).contains(id) != ids(f.recall()).contains(id),
{
    assert(ids(f.all_tasks()) =~= ids(f.pool()) + ids(f.recall()));
    vstd::seq_lib::lemma_multiset_commutative(ids(f.pool()), ids(f.recall()));
    assert(f.id_bag().count(id) <= 1);
    assert((ids(f.pool()) + ids(f.recall())).to_multiset().count(id) > 0);
}

/// The times kept as not due are none of them due.
proof fn lemma_kept_not_due(at: Seq<i64>, now: i64)
    ensures
        forall|j: int|
            0 <= j < kept(at, at, now).len() ==> !is_due(#[trigger] kept(at, at, now)[j], now),
    decreases at.len(),
{
    if at.len() > 0 {
        lemma_kept_not_due(at.drop_last(), now);
        let init = kept(at.drop_last(), at, now);
        assert(at.drop_last().len() == at.len() - 1);
        lemma_kept_prefix(at.drop_last(), at, now);
    }
}

/// What is kept of a prefix of the times does not depend on the rest.
proof fn lemma_kept_prefix(p: Seq<i64>, at: Seq<i64>, now: i64)
    requires
        p.len() <= at.len(),
        forall|j: int| 0 <= j < p.len() ==> p[j] == at[j],
    ensures
        kept(p, at, now) == kept(p, p, now),
    decreases p.len(),
{
    if p.len() > 0 {
        lemma_kept_prefix(p.drop_last(), at, now);
        lemma_kept_prefix(p.drop_last(), p, now);
    }
}

/// Items whose times are none of them due are all kept.
proof fn lemma_none_due<A>(s: Seq<A>, t: Seq<i64>, now: i64)
    requires
        s.len() <= t.len(),
        forall|j: int| 0 <= j < s.len() ==> !is_due(#[trigger] t[j], now),
    ensures
        kept(s, t, now) == s,
        moved(s, t, now) == Seq::<A>::empty(),
    decreases s.len(),
{
    if s.len() > 0 {
        lemma_none_due(s.drop_last(), t, now);
        assert(s.drop_last().push(s.last()) =~= s);
    } else {
        assert(s =~= Seq::<A>::empty());
    }
}

/// Moving the due tasks twice in succession, each task keeping its time,
/// moves nothing the second time: the due set is the one that a single pass
/// gives, and the tasks not due stay as they are.
pub proof fn lemma_find_tasks_idempotent<A>(s: Seq<A>, at: Seq<i64>, now: i64)
    requires
        s.len() == at.len(),
    ensures
        moved(kept(s, at, now), kept(at, at, now), now) == Seq::<A>::empty(),
        kept(kept(s, at, now), kept(at, at, now), now) == kept(s, at, now),
{
    lemma_kept_len(s, at, at, now);
    lemma_kept_not_due(at, now);
    lemma_none_due(kept(s, at, now), kept(at, at, now), now);
}

/// Adds to `target` a task for each exercise of `from`.
fn copy_exercises<T: Exercise, U: Exercise, V>(
    target: &mut Facade<U, V>,
    from: &Vec<TaskWrapper<T>>,
    prefix: Ghost<Seq<TaskWrapper<T>>>,
)
    requires
        old(target).wf(),
        old(target).recall() == Seq::<TaskWrapper<U>>::empty(),
        old(target).in_flight_spec() is None,
        same_exercises(old(target).pool(), prefix@),
        all_fresh(old(target).pool()),
        prefix@.len() + from@.len() + 1 < u64::MAX,
    ensures
        final(target).wf(),
        final(target).recall() == Seq::<TaskWrapper<U>>::empty(),
        final(target).in_flight_spec() is None,
        same_exercises(final(target).pool(), prefix@ + from@),
        all_fresh(final(target).pool()),
        final(target).name_spec() == old(target).name_spec(),
        final(target).retention_spec() == old(target).retention_spec(),
        final(target).state_spec() == old(target).state_spec(),
{
    let ghost all = prefix@ + from@;
    let mut i: usize = 0;
    while i < from.len()
        invariant
            all == prefix@ + from@,
            prefix@.len() + from@.len() + 1 < u64::MAX,
            i <= from.len(),
            target.wf(),
            target.recall() == Seq::<TaskWrapper<U>>::empty(),
            target.in_flight_spec() is None,
            target.name_spec() == old(target).name_spec(),
            target.retention_spec() == old(target).retention_spec(),
            target.state_spec() == old(target).state_spec(),
            same_exercises(target.pool(), all.take((prefix@.len() + i) as int)),
            all_fresh(target.pool()),
        decreases from.len() - i,
    {
        let w = &from[i];
        assert(*w == all[(prefix@.len() + i) as int]);
        let u = U::from_blocks(w.task.get_blocks());
        let ghost before = target.pool();
        let ghost k: int = (prefix@.len() + i) as int;
        target.insert(u);
        proof {
            assert forall|j: int| 0 <= j < k + 1 implies (#[trigger] target.pool()[j]).task.is_fresh() by {
                if j < k {
                    assert(target.pool()[j] == before[j]);
                }
            }
            assert forall|j: int| 0 <= j < k + 1 implies (#[trigger] target.pool()[j]).task.exercise_blocks()
                == all.take(k + 1)[j].task.exercise_blocks() && target.pool()[j].task.exercise_answer()
                == all.take(k + 1)[j].task.exercise_answer() by {
                if j < k {
                    assert(target.pool()[j] == before[j]);
                    assert(all.take(k + 1)[j] == all.take(k)[j]);
                }
            }
        }
        i += 1;
    }
    proof {
        assert(all.take((prefix@.len() + from@.len()) as int) =~= all);
    }
}

impl<T, S> Facade<T, S> {
    /// The parts of the pool, to be stored; no task may be out for review.
    pub fn into_parts(self) -> (r: FacadeParts<T, S>)
        requires
            self.in_flight_spec() is None,
        ensures
            holds_parts(&self, &r),
            self.wf() ==> parts_unique(&r),
    {
        proof {
            lemma_unique_of_parts(
                &FacadeParts {
                    name: self.name,
                    not_due: self.tasks_pool,
                    due: self.tasks_to_recall,
                    desired_retention: self.desired_retention,
                    state: self.state,
                },
            );
            assert(self.id_bag() =~= (ids(self.pool()) + ids(self.recall())).to_multiset());
        }
        FacadeParts {
            name: self.name,
            not_due: self.tasks_pool,
            due: self.tasks_to_recall,
            desired_retention: self.desired_retention,
            state: self.state,
        }
    }

    /// The pool made of stored parts; `None` where two tasks have the same
    /// identifier.
    pub fn from_parts(parts: FacadeParts<T, S>) -> (r: Option<Facade<T, S>>)
        ensures
            r is Some <==> parts_unique(&parts),
            r is Some ==> r->Some_0.wf() && holds_parts(&r->Some_0, &parts)
                && r->Some_0.in_flight_spec() is None,
    {
        let mut all: Vec<u64> = Vec::new();
        let mut i: usize = 0;
        while i < parts.not_due.len()
            invariant
                i <= parts.not_due.len(),
                all@ == ids(parts.not_due@).take(i as int),
            decreases parts.not_due.len() - i,
        {
            all.push(parts.not_due[i].id);
            proof {
                assert(all@ =~= ids(parts.not_due@).take(i + 1));
            }
            i += 1;
        }
        let mut k: usize = 0;
        proof {
            assert(ids(parts.not_due@).take(parts.not_due.len() as int) =~= ids(parts.not_due@));
        }
        while k < parts.due.len()
            invariant
                k <= parts.due.len(),
                all@ == ids(parts.not_due@) + ids(parts.due@).take(k as int),
            decreases parts.due.len() - k,
        {
            all.push(parts.due[k].id);
            proof {
                assert(all@ =~= ids(parts.not_due@) + ids(parts.due@).take(k + 1));
            }
            k += 1;
        }
        proof {
            assert(ids(parts.due@).take(parts.due.len() as int) =~= ids(parts.due@));
        }
        let mut a: usize = 0;
        while a < all.len()
            invariant
                all@ == ids(parts.not_due@) + ids(parts.due@),
                a <= all.len(),
                forall|x: int, y: int| 0 <= x < a && 0 <= y < all.len() && x != y ==> all@[x] != all@[y],
            decreases all.len() - a,
        {
            let mut b: usize = 0;
            while b < all.len()
                invariant
                    all@ == ids(parts.not_due@) + ids(parts.due@),
                    a < all.len(),
                    b <= all.len(),
                    forall|x: int, y: int|
                        0 <= x < a && 0 <= y < all.len() && x != y ==> all@[x] != all@[y],
                    forall|y: int| 0 <= y < b && y != a ==> all@[a as int] != all@[y],
                decreases all.len() - b,
            {
                if b != a && all[a] == all[b] {
                    proof {
                        assert(!all@.no_duplicates());
                    }
                    return None;
                }
                b += 1;
            }
            a += 1;
        }
        proof {
            assert(all@.no_duplicates());
            lemma_unique_of_parts(&parts);
        }
        let f = Facade {
            name: parts.name,
            tasks_pool: parts.not_due,
            tasks_to_recall: parts.due,
            desired_retention: parts.desired_retention,
            state: parts.state,
            in_flight: None,
        };
        proof {
            assert(f.id_bag() =~= (ids(f.pool()) + ids(f.recall())).to_multiset());
        }
        Some(f)
    }
}

/// The times of the tasks that stay not due.
fn kept_times(now: i64, at: &Vec<i64>) -> (r: Vec<i64>)
    ensures
        r@ == kept(at@, at@, now),
{
    let mut r: Vec<i64> = Vec::new();
    let mut i: usize = 0;
    while i < at.len()
        invariant
            i <= at.len(),
            r@ == kept(at@.take(i as int), at@, now),
        decreases at.len() - i,
    {
        proof {
            assert(at@.take(i + 1).drop_last() =~= at@.take(i as int));
        }
        if !((at[i] as i128) <= (now as i128) + (LOOKAHEAD_SECS as i128)) {
            r.push(at[i]);
        }
        i += 1;
    }
    proof {
        assert(at@.take(at.len() as int) =~= at@);
    }
    r
}

} // verus!
