//! The parameters of the memory model, shared by all tasks of a pool, and
//! the choice of review histories that they are fitted to.

use crate::facade::{kept, moved, Error, Facade, TaskWrapper};
use crate::level::{Level, Review};
use crate::task::Task;
use itertools::Itertools;
use vstd::prelude::*;

verus! {

/// How many parameters the memory model has.
pub const WEIGHT_COUNT: usize = 19;

/// The parameters of the memory model, each as the bits of an `f32`.
#[derive(Clone, Copy, Debug)]
pub struct Weights {
    pub weights: [u32; 19],
}

/// The model's default parameters, as `f32` bits.
pub open spec fn default_weights() -> Seq<u32> {
    seq![
        1053694729u32, 1066895462, 1078661743, 1098583690, 1088830623, 1057543422, 1069215331,
        999734169, 1069931299, 1039408929, 1065514697, 1073234313, 1038174126, 1050121182,
        1074873447, 1047334486, 1077893346, 1057242271, 1059684195,
    ]
}

impl Default for Weights {
    fn default() -> (r: Weights)
        ensures
            r.weights@ == default_weights(),
    {
        let r = Weights {
            weights: [
                1053694729, 1066895462, 1078661743, 1098583690, 1088830623, 1057543422,
                1069215331, 999734169, 1069931299, 1039408929, 1065514697, 1073234313,
                1038174126, 1050121182, 1074873447, 1047334486, 1077893346, 1057242271,
                1059684195,
            ],
        };
        assert(r.weights@ =~= default_weights());
        r
    }
}

/// Where the first review after a whole day or more stands in a history;
/// its length where there is none.
pub open spec fn first_long(s: Seq<Review>) -> int
    decreases s.len(),
{
    if s.len() == 0 {
        0
    } else if s[0].delta_t >= 1 {
        0
    } else {
        1 + first_long(s.drop_first())
    }
}

/// The reviews up to and including the first after a whole day or more, or
/// all of them.
pub open spec fn through_first_long(s: Seq<Review>) -> Seq<Review> {
    if first_long(s) < s.len() {
        s.take(first_long(s) + 1)
    } else {
        s
    }
}

/// The extra sample of a history: its beginning up to its first long
/// interval, where that beginning ends with a long interval and is shorter
/// than the history.
pub open spec fn long_term_sample(s: Seq<Review>) -> Option<Seq<Review>> {
    let a = through_first_long(s);
    if a.len() == 0 || a.last().delta_t < 1 || a.len() == s.len() {
        None
    } else {
        Some(a)
    }
}

/// The extra samples of a list of histories, in order.
pub open spec fn long_term_samples(items: Seq<Seq<Review>>) -> Seq<Seq<Review>>
    decreases items.len(),
{
    if items.len() == 0 {
        Seq::empty()
    } else {
        let init = long_term_samples(items.drop_last());
        match long_term_sample(items.last()) {
            Some(a) => init.push(a),
            None => init,
        }
    }
}

/// The review histories of the started tasks, in order.
pub open spec fn histories(tasks: Seq<TaskWrapper<Task>>) -> Seq<Seq<Review>>
    decreases tasks.len(),
{
    if tasks.len() == 0 {
        Seq::empty()
    } else {
        let init = histories(tasks.drop_last());
        match tasks.last().task.level_spec() {
            Level::Started(s) => init.push(s.history_spec()),
            Level::NotStarted => init,
        }
    }
}

/// What the model is fitted to: every history, then the extra samples.
pub open spec fn training_spec(tasks: Seq<TaskWrapper<Task>>) -> Seq<Seq<Review>> {
    histories(tasks) + long_term_samples(histories(tasks))
}

/// A review on the same calendar day as the one before it.
pub fn is_short(r: &Review) -> (b: bool)
    ensures
        b == (r.delta_t < 1),
{
    r.delta_t < 1
}

/// Relies on `Itertools::take_while_inclusive`: the items up to and
/// including the first on which the predicate fails, or all of them.
#[verifier::external_body]
fn take_through_first_long(reviews: &Vec<Review>) -> (r: Vec<Review>)
    ensures
        r@ == through_first_long(reviews@),
{
    reviews.iter().copied().take_while_inclusive(|r| is_short(r)).collect()
}

fn copy_reviews(v: &Vec<Review>) -> (r: Vec<Review>)
    ensures
        r@ == v@,
{
    let r = v.clone();
    assert(r@ =~= v@);
    r
}

/// The extra samples of a list of histories.
pub fn extract_first_long_term_reviews(items: &Vec<Vec<Review>>) -> (r: Vec<Vec<Review>>)
    ensures
        r.deep_view() == long_term_samples(items.deep_view()),
{
    let mut out: Vec<Vec<Review>> = Vec::new();
    let mut i: usize = 0;
    while i < items.len()
        invariant
            i <= items.len(),
            out.deep_view() == long_term_samples(items.deep_view().take(i as int)),
        decreases items.len() - i,
    {
        let ghost d = items.deep_view();
        proof {
            assert(d.take(i + 1).drop_last() =~= d.take(i as int));
            assert(d.take(i + 1).last() == items[i as int]@);
            assert(items[i as int].deep_view() =~= items[i as int]@);
        }
        let a = take_through_first_long(&items[i]);
        if a.len() > 0 && a[a.len() - 1].delta_t >= 1 && a.len() != items[i].len() {
            let ghost before = out.deep_view();
            out.push(a);
            proof {
                assert(a.deep_view() =~= a@);
                assert(out.deep_view() =~= before.push(a@));
            }
        }
        i += 1;
    }
    proof {
        assert(items.deep_view().take(items.len() as int) =~= items.deep_view());
    }
    out
}

/// Appends the histories of the started tasks among `tasks` to `out`.
fn push_histories(tasks: &Vec<TaskWrapper<Task>>, out: &mut Vec<Vec<Review>>)
    ensures
        final(out).deep_view() == old(out).deep_view() + histories(tasks@),
{
    let ghost start = out.deep_view();
    let mut i: usize = 0;
    proof {
        assert(tasks@.take(0) =~= Seq::<TaskWrapper<Task>>::empty());
        assert(start + Seq::<Seq<Review>>::empty() =~= start);
    }
    while i < tasks.len()
        invariant
            i <= tasks.len(),
            out.deep_view() == start + histories(tasks@.take(i as int)),
        decreases tasks.len() - i,
    {
        proof {
            assert(tasks@.take(i + 1).drop_last() =~= tasks@.take(i as int));
        }
        match tasks[i].task.level().history() {
            Some(h) => {
                let ghost before = out.deep_view();
                let c = copy_reviews(h);
                assert(c.deep_view() =~= h@);
                out.push(c);
                proof {
                    assert(out.deep_view() =~= before.push(h@));
                    assert(start + histories(tasks@.take(i as int)).push(h@) =~= (start + histories(
                        tasks@.take(i as int),
                    )).push(h@));
                }
            },
            None => {},
        }
        i += 1;
    }
    proof {
        assert(tasks@.take(tasks.len() as int) =~= tasks@);
    }
}

proof fn lemma_histories_append(a: Seq<TaskWrapper<Task>>, b: Seq<TaskWrapper<Task>>)
    ensures
        histories(a + b) == histories(a) + histories(b),
    decreases b.len(),
{
    if b.len() == 0 {
        assert(a + b =~= a);
        assert(histories(a) + Seq::<Seq<Review>>::empty() =~= histories(a));
    } else {
        lemma_histories_append(a, b.drop_last());
        assert((a + b).drop_last() =~= a + b.drop_last());
        assert((a + b).last() == b.last());
        let h = histories(a);
        let t = histories(b.drop_last());
        match b.last().task.level_spec() {
            Level::Started(s) => {
                assert((h + t).push(s.history_spec()) =~= h + t.push(s.history_spec()));
            },
            Level::NotStarted => {},
        }
    }
}

impl Facade<Task, Weights> {
    /// The review histories that the model is fitted to: that of every
    /// started task, then the extra samples drawn from them.
    pub fn training_items(&self) -> (r: Vec<Vec<Review>>)
        ensures
            r.deep_view() == training_spec(self.all_tasks()),
    {
        let mut items: Vec<Vec<Review>> = Vec::new();
        proof {
            assert(items.deep_view() =~= Seq::<Seq<Review>>::empty());
        }
        push_histories(self.not_due(), &mut items);
        push_histories(self.due(), &mut items);
        proof {
            lemma_histories_append(self.pool(), self.recall());
            assert(Seq::<Seq<Review>>::empty() + histories(self.pool()) + histories(self.recall())
                =~= histories(self.all_tasks()));
        }
        let extra = extract_first_long_term_reviews(&items);
        let ghost before = items.deep_view();
        let mut extra = extra;
        let ghost ev = extra.deep_view();
        items.append(&mut extra);
        proof {
            assert(items.deep_view() =~= before + ev);
        }
        items
    }

    /// Takes newly fitted parameters (`fitted`, as `f32` bits, where the
    /// fitting succeeded) and sorts the tasks again under them (
    /// `next_repetitions` as for [`Facade::reload_all_tasks_timings`], under
    /// the new parameters). Fails, with nothing changed, where there is no
    /// history to fit or the fitting gave no parameters of the right count.
    pub fn optimize(&mut self, fitted: Option<Vec<u32>>, now: i64, next_repetitions: &Vec<i64>) -> (r:
        Result<(), Error>)
        requires
            old(self).wf(),
            next_repetitions.len() == old(self).pool().len() + old(self).recall().len(),
        ensures
            r is Err <==> (training_spec(old(self).all_tasks()).len() == 0 || fitted is None
                || fitted->Some_0@.len() != WEIGHT_COUNT),
            r is Err ==> r == Err::<(), Error>(Error::OptimizeFailed) && *final(self) == *old(self),
            r is Ok ==> final(self).state_spec().weights@ == fitted->Some_0@ && final(self).pool()
                == kept(old(self).all_tasks(), next_repetitions@, now) && final(self).recall()
                == moved(old(self).all_tasks(), next_repetitions@, now),
            final(self).name_spec() == old(self).name_spec(),
            final(self).retention_spec() == old(self).retention_spec(),
            final(self).in_flight_spec() == old(self).in_flight_spec(),
            final(self).id_bag() == old(self).id_bag(),
            final(self).wf(),
    {
        let items = self.training_items();
        if items.len() == 0 {
            return Err(Error::OptimizeFailed);
        }
        match fitted {
            Some(v) => {
                if v.len() != WEIGHT_COUNT {
                    return Err(Error::OptimizeFailed);
                }
                let mut weights: [u32; 19] = [0; 19];
                let mut i: usize = 0;
                while i < WEIGHT_COUNT
                    invariant
                        i <= WEIGHT_COUNT,
                        v@.len() == WEIGHT_COUNT,
                        weights@.len() == WEIGHT_COUNT,
                        forall|j: int| 0 <= j < i ==> weights@[j] == v@[j],
                    decreases WEIGHT_COUNT - i,
                {
                    weights[i] = v[i];
                    i += 1;
                }
                assert(weights@ =~= v@);
                self.replace_state(Weights { weights }, now, next_repetitions);
                Ok(())
            },
            None => Err(Error::OptimizeFailed),
        }
    }
}

} // verus!
