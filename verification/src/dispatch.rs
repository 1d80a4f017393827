//! Handling the updates of a batch one by one, so that the failure of one
//! touches no other.

use vstd::prelude::*;
use crate::telegram_client::Update;

verus! {

/// How the handling of one update ended.
#[derive(Debug)]
pub struct Handled<E> {
    pub update_id: i64,
    pub result: Result<(), E>,
}

/// The identifiers of the updates of `log`, in their order.
pub open spec fn handled_ids<E>(log: Seq<Handled<E>>) -> Seq<i64> {
    log.map_values(|h: Handled<E>| h.update_id)
}

/// The identifiers of the updates of `log` that were handled without
/// error, in their order.
pub open spec fn processed_ids<E>(log: Seq<Handled<E>>) -> Seq<i64>
    decreases log.len(),
{
    if log.len() == 0 {
        Seq::empty()
    } else if log.last().result is Ok {
        processed_ids(log.drop_last()).push(log.last().update_id)
    } else {
        processed_ids(log.drop_last())
    }
}

/// The identifiers of the updates of `log` whose handling failed, in their
/// order, each as often as it failed.
pub open spec fn failed_ids<E>(log: Seq<Handled<E>>) -> Seq<i64>
    decreases log.len(),
{
    if log.len() == 0 {
        Seq::empty()
    } else if log.last().result is Err {
        failed_ids(log.drop_last()).push(log.last().update_id)
    } else {
        failed_ids(log.drop_last())
    }
}

/// The record of how each update that was handed in ended.
#[derive(Debug)]
pub struct Dispatcher<E> {
    pub handled: Vec<Handled<E>>,
}

impl<E> Dispatcher<E> {
    /// A dispatcher that has handled nothing.
    pub fn new() -> (r: Self)
        ensures
            r.handled@ == Seq::<Handled<E>>::empty(),
    {
        Dispatcher { handled: Vec::new() }
    }

    /// Notes how the handling of the update `update_id` ended.
    pub fn record(&mut self, update_id: i64, result: Result<(), E>)
        ensures
            final(self).handled@ == old(self).handled@.push(Handled { update_id, result }),
    {
        self.handled.push(Handled { update_id, result });
    }

    /// Hands each update of `batch` to `handler`, whatever became of the
    /// ones before it, and returns when all are handled. Each update is
    /// handled once, and how it ended is noted in the order of the batch.
    pub fn submit<F: Fn(&Update) -> Result<(), E>>(&mut self, batch: &Vec<Update>, handler: F)
        requires
            forall|i: int| 0 <= i < batch.len() ==> call_requires(handler, (&#[trigger] batch[i],)),
        ensures
            final(self).handled@.len() == old(self).handled@.len() + batch.len(),
            final(self).handled@.take(old(self).handled@.len() as int) == old(self).handled@,
            forall|i: int|
                0 <= i < batch.len() ==> {
                    let h = #[trigger] final(self).handled@[old(self).handled@.len() + i];
                    h.update_id == batch[i].update_id && call_ensures(
                        handler,
                        (&batch[i],),
                        h.result,
                    )
                },
    {
        let ghost before = self.handled@;
        let mut i: usize = 0;
        while i < batch.len()
            invariant
                i <= batch.len(),
                before == old(self).handled@,
                self.handled@.len() == before.len() + i,
                self.handled@.take(before.len() as int) == before,
                forall|j: int| 0 <= j < batch.len() ==> call_requires(handler, (&#[trigger] batch[j],)),
                forall|j: int|
                    0 <= j < i ==> {
                        let h = #[trigger] self.handled@[before.len() + j];
                        h.update_id == batch[j].update_id && call_ensures(
                            handler,
                            (&batch[j],),
                            h.result,
                        )
                    },
            decreases batch.len() - i,
        {
            let ghost so_far = self.handled@;
            let result = handler(&batch[i]);
            self.record(batch[i].update_id, result);
            proof {
                assert(self.handled@.take(before.len() as int) =~= so_far.take(before.len() as int));
                assert forall|j: int| 0 <= j < i + 1 implies {
                    let h = #[trigger] self.handled@[before.len() + j];
                    h.update_id == batch[j].update_id && call_ensures(
                        handler,
                        (&batch[j],),
                        h.result,
                    )
                } by {
                    if j < i {
                        assert(self.handled@[before.len() + j] == so_far[before.len() + j]);
                    }
                }
            }
            i += 1;
        }
    }

    /// The identifiers of the updates that were handled without error.
    pub fn processed(&self) -> (r: Vec<i64>)
        ensures
            r@ == processed_ids(self.handled@),
    {
        let mut out: Vec<i64> = Vec::new();
        let mut i: usize = 0;
        while i < self.handled.len()
            invariant
                i <= self.handled.len(),
                out@ == processed_ids(self.handled@.take(i as int)),
            decreases self.handled.len() - i,
        {
            proof {
                let next = self.handled@.take(i + 1);
                assert(next.drop_last() =~= self.handled@.take(i as int));
                assert(next.last() == self.handled@[i as int]);
            }
            if self.handled[i].result.is_ok() {
                out.push(self.handled[i].update_id);
            }
            i += 1;
        }
        assert(self.handled@.take(self.handled.len() as int) =~= self.handled@);
        out
    }

    /// The identifiers of the updates whose handling failed.
    pub fn failed(&self) -> (r: Vec<i64>)
        ensures
            r@ == failed_ids(self.handled@),
    {
        let mut out: Vec<i64> = Vec::new();
        let mut i: usize = 0;
        while i < self.handled.len()
            invariant
                i <= self.handled.len(),
                out@ == failed_ids(self.handled@.take(i as int)),
            decreases self.handled.len() - i,
        {
            proof {
                let next = self.handled@.take(i + 1);
                assert(next.drop_last() =~= self.handled@.take(i as int));
                assert(next.last() == self.handled@[i as int]);
            }
            if self.handled[i].result.is_err() {
                out.push(self.handled[i].update_id);
            }
            i += 1;
        }
        assert(self.handled@.take(self.handled.len() as int) =~= self.handled@);
        out
    }
}

/// Where no handling failed, every update counts as processed and none as
/// failed.
pub proof fn lemma_all_processed<E>(log: Seq<Handled<E>>)
    requires
        forall|i: int| 0 <= i < log.len() ==> (#[trigger] log[i]).result is Ok,
    ensures
        processed_ids(log) == handled_ids(log),
        failed_ids(log) == Seq::<i64>::empty(),
    decreases log.len(),
{
    if log.len() > 0 {
        let front = log.drop_last();
        assert forall|i: int| 0 <= i < front.len() implies (#[trigger] front[i]).result is Ok by {
            assert(front[i] == log[i]);
        }
        lemma_all_processed(front);
        assert(log.last() == log[log.len() - 1]);
        assert(handled_ids(log) =~= handled_ids(front).push(log.last().update_id));
    } else {
        assert(handled_ids(log) =~= Seq::<i64>::empty());
    }
}

/// Where the handling of the update at `k` failed and no other did, every
/// other update counts as processed, and the failure is noted once.
pub proof fn lemma_dispatch_isolation<E>(log: Seq<Handled<E>>, k: int)
    requires
        0 <= k < log.len(),
        log[k].result is Err,
        forall|i: int| 0 <= i < log.len() && i != k ==> (#[trigger] log[i]).result is Ok,
    ensures
        processed_ids(log) == handled_ids(log).remove(k),
        processed_ids(log).len() == log.len() - 1,
        failed_ids(log) == seq![log[k].update_id],
    decreases log.len(),
{
    let front = log.drop_last();
    assert(log.last() == log[log.len() - 1]);
    if k == log.len() - 1 {
        assert forall|i: int| 0 <= i < front.len() implies (#[trigger] front[i]).result is Ok by {
            assert(front[i] == log[i]);
        }
        lemma_all_processed(front);
        assert(handled_ids(front) =~= handled_ids(log).remove(k));
        assert(failed_ids(log) =~= seq![log[k].update_id]);
    } else {
        assert(front[k] == log[k]);
        assert forall|i: int| 0 <= i < front.len() && i != k implies (#[trigger] front[i]).result is Ok by {
            assert(front[i] == log[i]);
        }
        lemma_dispatch_isolation(front, k);
        assert(handled_ids(front).remove(k).push(log.last().update_id) =~= handled_ids(log).remove(
            k,
        ));
    }
}

} // verus!
