//! What a worker does with one ledger entry: check the account ids it
//! needs, hand the operation to the store, and report how it ended.

use crate::bank::{Bank, Outcome};
use crate::ledger::{Ledger, Mode};
use crate::model::{BankModel, Request};
use vstd::prelude::*;

verus! {

/// The report of an entry that was turned down before it reached the
/// store, because an account id it needs lies outside the store.
#[derive(Clone, Copy, Debug, PartialEq, Eq)]
pub struct Rejection {
    pub worker_id: i32,
    pub entry: Ledger,
}

/// The request that `entry` puts to a store of `n` accounts, or `None`
/// where an id it needs lies outside `[0, n)`. Every entry needs its
/// `from` account; only a transfer needs its `to` account.
pub open spec fn dispatch_of(entry: Ledger, n: int) -> Option<Request> {
    if !(0 <= entry.from < n) {
        None
    } else {
        match entry.mode {
            Mode::Deposit => Some(
                Request::Deposit { account_id: entry.from, amount: entry.amount },
            ),
            Mode::Withdraw => Some(
                Request::Withdraw { account_id: entry.from, amount: entry.amount },
            ),
            Mode::Transfer => if 0 <= entry.to < n {
                Some(
                    Request::Transfer {
                        src_id: entry.from as usize,
                        dest_id: entry.to as usize,
                        amount: entry.amount,
                    },
                )
            } else {
                None
            },
            Mode::CheckBalance => Some(Request::CheckBalance { account_id: entry.from }),
        }
    }
}

/// The requests that reach the store of `n` accounts when `entries`
/// are worked through in order.
pub open spec fn dispatched(entries: Seq<Ledger>, n: int) -> Seq<Request>
    decreases entries.len(),
{
    if entries.len() == 0 {
        Seq::empty()
    } else {
        let before = dispatched(entries.drop_last(), n);
        match dispatch_of(entries.last(), n) {
            Some(request) => before.push(request),
            None => before,
        }
    }
}

impl BankModel {
    /// The state after a worker has dealt with `entry`: the store
    /// answers the request where there is one and is left alone where
    /// there is none.
    pub open spec fn process(self, entry: Ledger) -> BankModel {
        match dispatch_of(entry, self.balances.len() as int) {
            Some(request) => self.apply(request),
            None => self,
        }
    }

    /// The state after `entries` have been dealt with one after another.
    pub open spec fn process_all(self, entries: Seq<Ledger>) -> BankModel
        decreases entries.len(),
    {
        if entries.len() == 0 {
            self
        } else {
            self.process_all(entries.drop_last()).process(entries.last())
        }
    }
}

/// Whether `report` is what a worker `worker_id` hands back for `entry`
/// when the store was in the state `before`: the store's outcome for
/// the request that the entry puts, or a rejection where it puts none.
pub open spec fn reports(
    before: BankModel,
    worker_id: i32,
    entry: Ledger,
    report: Result<Outcome, Rejection>,
) -> bool {
    match report {
        Ok(out) => {
            &&& dispatch_of(entry, before.balances.len() as int) == Some(out.request)
            &&& out.worker_id == worker_id
            &&& out.ledger_id == entry.ledger_id
            &&& match out.result {
                Ok(balance) => {
                    &&& before.rejection(out.request) is None
                    &&& balance == before.apply(out.request).balances[out.request.account()]
                },
                Err(e) => before.rejection(out.request) == Some(e),
            }
        },
        Err(rejection) => {
            &&& dispatch_of(entry, before.balances.len() as int) is None
            &&& rejection == Rejection { worker_id, entry }
        },
    }
}

/// Whether `report` is what a worker `worker_id` hands back for the
/// `k`-th of `entries` on its way through them from the state `start`:
/// the entry could be dealt with within the machine integers, and the
/// report is that of the entry in the state that the entries before it
/// led to.
pub open spec fn worked_through(
    start: BankModel,
    worker_id: i32,
    entries: Seq<Ledger>,
    k: int,
    report: Result<Outcome, Rejection>,
) -> bool {
    &&& entries[k].valid()
    &&& start.process_all(entries.take(k + 1)).representable()
    &&& reports(start.process_all(entries.take(k)), worker_id, entries[k], report)
}

/// Checks the account ids that `entry` needs against a store of `num`
/// accounts and names the request to put to it.
pub fn dispatch(entry: &Ledger, num: i32) -> (r: Option<Request>)
    ensures
        r == dispatch_of(*entry, num as int),
{
    if entry.from < 0 || entry.from >= num {
        return None;
    }
    match entry.mode {
        Mode::Deposit => Some(Request::Deposit { account_id: entry.from, amount: entry.amount }),
        Mode::Withdraw => Some(Request::Withdraw { account_id: entry.from, amount: entry.amount }),
        Mode::Transfer => {
            if entry.to < 0 || entry.to >= num {
                None
            } else {
                Some(
                    Request::Transfer {
                        src_id: entry.from as usize,
                        dest_id: entry.to as usize,
                        amount: entry.amount,
                    },
                )
            }
        },
        Mode::CheckBalance => Some(Request::CheckBalance { account_id: entry.from }),
    }
}

/// The pause, in milliseconds, of worker `worker` before each entry when
/// a run is slowed down for show.
pub open spec fn delay_of(worker: usize) -> u64 {
    if worker == 3 || worker == 6 || worker == 7 {
        300
    } else if worker == 2 || worker == 8 || worker == 9 {
        50
    } else {
        150
    }
}

/// How long worker `worker` pauses before each entry when a run is
/// slowed down for show. The pause changes no outcome; it only makes
/// the workers take turns in a way that can be seen.
pub fn simulated_delay_ms(worker: usize) -> (ms: u64)
    ensures
        ms == delay_of(worker),
{
    if worker == 3 || worker == 6 || worker == 7 {
        300
    } else if worker == 2 || worker == 8 || worker == 9 {
        50
    } else {
        150
    }
}

impl Bank {
    /// Deals with one entry. An entry that needs an account outside the
    /// store is rejected and the store is left alone, counters
    /// included; any other is handed to the store, which counts it as
    /// succeeded or failed.
    pub fn process(&mut self, worker_id: i32, entry: &Ledger) -> (report: Result<
        Outcome,
        Rejection,
    >)
        requires
            old(self).wf(),
            entry.valid(),
            old(self)@.process(*entry).representable(),
        ensures
            final(self).wf(),
            final(self)@ == old(self)@.process(*entry),
            reports(old(self)@, worker_id, *entry, report),
    {
        match dispatch(entry, self.num()) {
            Some(request) => Ok(self.apply(worker_id, entry.ledger_id, request)),
            None => Err(Rejection { worker_id, entry: *entry }),
        }
    }

    /// Deals with one entry where that can be done within the machine
    /// integers of the store. Where the amount is negative, or a
    /// balance or a counter would pass `i32::MAX`, nothing is done and
    /// `None` comes back.
    pub fn try_process(&mut self, worker_id: i32, entry: &Ledger) -> (report: Option<
        Result<Outcome, Rejection>,
    >)
        requires
            old(self).wf(),
        ensures
            final(self).wf(),
            match report {
                Some(r) => {
                    &&& entry.valid()
                    &&& old(self)@.process(*entry).representable()
                    &&& final(self)@ == old(self)@.process(*entry)
                    &&& reports(old(self)@, worker_id, *entry, r)
                },
                None => {
                    &&& !(entry.valid() && old(self)@.process(*entry).representable())
                    &&& final(self)@ == old(self)@
                },
            },
    {
        if entry.amount < 0 {
            return None;
        }
        match dispatch(entry, self.num()) {
            Some(request) => {
                if self.can_apply(request) {
                    Some(Ok(self.apply(worker_id, entry.ledger_id, request)))
                } else {
                    None
                }
            },
            None => Some(Err(Rejection { worker_id, entry: *entry })),
        }
    }

    /// Works through `entries` in order, as one worker does with a
    /// ledger that is all there from the start. It stops before the
    /// first entry that cannot be dealt with within the machine
    /// integers of the store (see `try_process`), so the reports that
    /// come back are those of the entries before it, one each.
    pub fn process_all(&mut self, worker_id: i32, entries: &[Ledger]) -> (done: Vec<
        Result<Outcome, Rejection>,
    >)
        requires
            old(self).wf(),
        ensures
            final(self).wf(),
            done@.len() <= entries@.len(),
            final(self)@ == old(self)@.process_all(entries@.take(done@.len() as int)),
            forall|k: int|
                0 <= k < done@.len() ==> #[trigger] worked_through(
                    old(self)@,
                    worker_id,
                    entries@,
                    k,
                    done@[k],
                ),
            done@.len() < entries@.len() ==> ({
                let next = entries@[done@.len() as int];
                !(next.valid() && final(self)@.process(next).representable())
            }),
    {
        let count: usize = entries.len();
        let mut done: Vec<Result<Outcome, Rejection>> = Vec::new();
        let mut i: usize = 0;
        while i < count
            invariant
                i <= count,
                count == entries@.len(),
                done@.len() == i,
                self.wf(),
                self@ == old(self)@.process_all(entries@.take(i as int)),
                forall|k: int|
                    0 <= k < i ==> #[trigger] worked_through(
                        old(self)@,
                        worker_id,
                        entries@,
                        k,
                        done@[k],
                    ),
            decreases count - i,
        {
            match self.try_process(worker_id, &entries[i]) {
                Some(report) => {
                    assert(entries@.take(i + 1).drop_last() =~= entries@.take(i as int));
                    done.push(report);
                    i = i + 1;
                },
                None => {
                    return done;
                },
            }
        }
        done
    }
}

} // verus!
