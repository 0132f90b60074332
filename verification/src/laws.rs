//! What holds of the account store over whole runs of operations.

use crate::bank::spec_acquisition_order;
use crate::ledger::Ledger;
use crate::model::{BankModel, Request};
use crate::worker::{dispatch_of, dispatched};
use vstd::prelude::*;

verus! {

/// The sum of the amounts of the deposits among `reqs` that the store
/// carries out when it answers `reqs` in order from the state `s`.
pub open spec fn deposited(s: BankModel, reqs: Seq<Request>) -> int
    decreases reqs.len(),
{
    if reqs.len() == 0 {
        0
    } else {
        let before = s.run(reqs.drop_last());
        let earlier = deposited(s, reqs.drop_last());
        if reqs.last() is Deposit && before.rejection(reqs.last()) is None {
            earlier + reqs.last().amount()
        } else {
            earlier
        }
    }
}

/// The sum of the amounts of the withdrawals among `reqs` that the
/// store carries out when it answers `reqs` in order from the state `s`.
pub open spec fn withdrawn(s: BankModel, reqs: Seq<Request>) -> int
    decreases reqs.len(),
{
    if reqs.len() == 0 {
        0
    } else {
        let before = s.run(reqs.drop_last());
        let earlier = withdrawn(s, reqs.drop_last());
        if reqs.last() is Withdraw && before.rejection(reqs.last()) is None {
            earlier + reqs.last().amount()
        } else {
            earlier
        }
    }
}

/// The requests of all `runs`, one run after the other.
pub open spec fn serial(runs: Seq<Seq<Request>>) -> Seq<Request>
    decreases runs.len(),
{
    if runs.len() == 0 {
        Seq::empty()
    } else {
        serial(runs.drop_last()) + runs.last()
    }
}

/// Whether `merged` is an interleaving of `runs`: it holds the requests
/// of all of them, those of each run in the order of that run.
pub open spec fn interleaves(merged: Seq<Request>, runs: Seq<Seq<Request>>) -> bool
    decreases merged.len(),
{
    if merged.len() == 0 {
        forall|w: int| 0 <= w < runs.len() ==> (#[trigger] runs[w]).len() == 0
    } else {
        exists|w: int|
            0 <= w < runs.len() && (#[trigger] runs[w]).len() > 0 && runs[w].last()
                == merged.last() && interleaves(
                merged.drop_last(),
                runs.update(w, runs[w].drop_last()),
            )
    }
}

/// Whether no request of one run names an account that a request of
/// another run names.
pub open spec fn separate(runs: Seq<Seq<Request>>) -> bool {
    forall|v: int, w: int, i: int, j: int|
        0 <= v < w < runs.len() && 0 <= i < runs[v].len() && 0 <= j < runs[w].len() ==> (
        #[trigger] runs[v][i]).disjoint(#[trigger] runs[w][j])
}

/// A rejected operation counts as failed and moves no balance; an
/// operation that is carried out counts as succeeded. The number of
/// accounts never changes.
pub proof fn lemma_apply_counts_once(s: BankModel, req: Request)
    ensures
        s.apply(req).balances.len() == s.balances.len(),
        s.apply(req).completed() == s.completed() + 1,
        s.rejection(req) is Some ==> s.apply(req).balances == s.balances && s.apply(req).failed
            == s.failed + 1 && s.apply(req).succeeded == s.succeeded,
        s.rejection(req) is None ==> s.apply(req).succeeded == s.succeeded + 1 && s.apply(
            req,
        ).failed == s.failed,
{
}

/// Answering one more request after `reqs` is one more step from the
/// state that `reqs` lead to.
pub proof fn lemma_run_push(s: BankModel, reqs: Seq<Request>, req: Request)
    ensures
        s.run(reqs.push(req)) == s.run(reqs).apply(req),
{
    assert(reqs.push(req).drop_last() =~= reqs);
}

/// Answering `a` and then `b` is answering `a + b`.
pub proof fn lemma_run_concat(s: BankModel, a: Seq<Request>, b: Seq<Request>)
    ensures
        s.run(a + b) == s.run(a).run(b),
    decreases b.len(),
{
    if b.len() > 0 {
        lemma_run_concat(s, a, b.drop_last());
        assert((a + b).drop_last() =~= a + b.drop_last());
    }
}

/// A run keeps the number of accounts and counts every request once,
/// as succeeded or as failed.
pub proof fn lemma_run_counts_every_request(s: BankModel, reqs: Seq<Request>)
    ensures
        s.run(reqs).balances.len() == s.balances.len(),
        s.run(reqs).completed() == s.completed() + reqs.len(),
    decreases reqs.len(),
{
    if reqs.len() > 0 {
        lemma_run_counts_every_request(s, reqs.drop_last());
    }
}

/// On one account, with nothing else going on, deposits and
/// withdrawals add up: the final balance is the first balance plus the
/// deposits carried out minus the withdrawals carried out, and a
/// rejected request leaves every balance as it was.
pub proof fn lemma_single_account_balance(s: BankModel, account_id: i32, reqs: Seq<Request>)
    requires
        forall|k: int|
            0 <= k < reqs.len() ==> (#[trigger] reqs[k] is Deposit || reqs[k] is Withdraw)
                && reqs[k].account() == account_id,
    ensures
        s.run(reqs).balances[account_id as int] == s.balances[account_id as int] + deposited(
            s,
            reqs,
        ) - withdrawn(s, reqs),
        forall|k: int|
            0 <= k < reqs.len() && s.run(reqs.take(k)).rejection(reqs[k]) is Some ==> s.run(
                #[trigger] reqs.take(k + 1),
            ).balances == s.run(reqs.take(k)).balances,
    decreases reqs.len(),
{
    assert forall|k: int|
        0 <= k < reqs.len() && s.run(reqs.take(k)).rejection(reqs[k]) is Some implies s.run(
        #[trigger] reqs.take(k + 1),
    ).balances == s.run(reqs.take(k)).balances by {
        assert(reqs.take(k + 1).drop_last() =~= reqs.take(k));
    }
    if reqs.len() > 0 {
        lemma_single_account_balance(s, account_id, reqs.drop_last());
    }
}

/// Either a transfer moves both balances by the amount, in opposite
/// directions, and no other balance; or it moves no balance at all.
pub proof fn lemma_transfer_is_atomic(s: BankModel, src_id: usize, dest_id: usize, amount: i32)
    ensures
        ({
            let after = s.apply(Request::Transfer { src_id, dest_id, amount });
            ||| after.balances == s.balances
            ||| {
                &&& src_id != dest_id
                &&& s.has_account(src_id as int)
                &&& s.has_account(dest_id as int)
                &&& after.balances[src_id as int] == s.balances[src_id as int] - amount
                &&& after.balances[dest_id as int] == s.balances[dest_id as int] + amount
                &&& forall|i: int|
                    0 <= i < s.balances.len() && i != src_id && i != dest_id
                        ==> after.balances[i] == s.balances[i]
            }
        }),
{
}

/// No request with a non-negative amount makes a balance negative.
pub proof fn lemma_apply_keeps_balances_nonnegative(s: BankModel, req: Request)
    requires
        s.wf(),
        req.valid(),
    ensures
        s.apply(req).wf(),
{
}

/// However many requests the store answers, no balance is negative
/// afterwards.
pub proof fn lemma_run_keeps_balances_nonnegative(s: BankModel, reqs: Seq<Request>)
    requires
        s.wf(),
        forall|k: int| 0 <= k < reqs.len() ==> (#[trigger] reqs[k]).valid(),
    ensures
        s.run(reqs).wf(),
    decreases reqs.len(),
{
    if reqs.len() > 0 {
        lemma_run_keeps_balances_nonnegative(s, reqs.drop_last());
    }
}

/// Working through a ledger is answering, in order, the requests of
/// its entries that reach the store.
pub proof fn lemma_process_all_is_run(s: BankModel, entries: Seq<Ledger>)
    ensures
        s.process_all(entries) == s.run(dispatched(entries, s.balances.len() as int)),
    decreases entries.len(),
{
    if entries.len() > 0 {
        let n = s.balances.len() as int;
        let earlier = entries.drop_last();
        lemma_process_all_is_run(s, earlier);
        lemma_run_counts_every_request(s, dispatched(earlier, n));
        match dispatch_of(entries.last(), n) {
            Some(request) => {
                lemma_run_push(s, dispatched(earlier, n), request);
            },
            None => {},
        }
    }
}

/// The requests that a ledger of valid entries puts to the store have
/// no negative amount.
pub proof fn lemma_dispatched_are_valid(entries: Seq<Ledger>, n: int)
    requires
        forall|k: int| 0 <= k < entries.len() ==> (#[trigger] entries[k]).valid(),
    ensures
        forall|k: int|
            0 <= k < dispatched(entries, n).len() ==> (#[trigger] dispatched(entries, n)[k]).valid(),
        dispatched(entries, n).len() <= entries.len(),
    decreases entries.len(),
{
    if entries.len() > 0 {
        lemma_dispatched_are_valid(entries.drop_last(), n);
    }
}

/// Whatever ledger of valid entries is worked through, no balance is
/// negative afterwards.
pub proof fn lemma_ledger_keeps_balances_nonnegative(s: BankModel, entries: Seq<Ledger>)
    requires
        s.wf(),
        forall|k: int| 0 <= k < entries.len() ==> (#[trigger] entries[k]).valid(),
    ensures
        s.process_all(entries).wf(),
{
    let n = s.balances.len() as int;
    lemma_process_all_is_run(s, entries);
    lemma_dispatched_are_valid(entries, n);
    lemma_run_keeps_balances_nonnegative(s, dispatched(entries, n));
}

/// Every entry that reaches the store is counted once, as succeeded or
/// as failed, and no other entry is counted.
pub proof fn lemma_every_dispatched_entry_counts(s: BankModel, entries: Seq<Ledger>)
    ensures
        s.process_all(entries).completed() == s.completed() + dispatched(
            entries,
            s.balances.len() as int,
        ).len(),
        s.process_all(entries).balances.len() == s.balances.len(),
{
    lemma_process_all_is_run(s, entries);
    lemma_run_counts_every_request(s, dispatched(entries, s.balances.len() as int));
}

/// Two requests that name no account in common can be answered in
/// either order: the store ends in the same state, and each request
/// gets the same answer whether or not the other went first.
pub proof fn lemma_disjoint_requests_commute(s: BankModel, a: Request, b: Request)
    requires
        a.disjoint(b),
    ensures
        s.apply(a).apply(b) == s.apply(b).apply(a),
        s.apply(a).rejection(b) == s.rejection(b),
        s.apply(b).rejection(a) == s.rejection(a),
{
    assert(s.apply(a).apply(b).balances =~= s.apply(b).apply(a).balances);
}

/// A request that names no account of `b` can be answered before `b`
/// or after it.
pub proof fn lemma_request_moves_across(s: BankModel, req: Request, b: Seq<Request>)
    requires
        forall|k: int| 0 <= k < b.len() ==> req.disjoint(#[trigger] b[k]),
    ensures
        s.run(b).apply(req) == s.apply(req).run(b),
    decreases b.len(),
{
    if b.len() > 0 {
        lemma_request_moves_across(s, req, b.drop_last());
        lemma_disjoint_requests_commute(s.run(b.drop_last()), b.last(), req);
    }
}

/// Empty runs make an empty whole.
proof fn lemma_serial_of_empty_runs(runs: Seq<Seq<Request>>)
    requires
        forall|w: int| 0 <= w < runs.len() ==> (#[trigger] runs[w]).len() == 0,
    ensures
        serial(runs).len() == 0,
    decreases runs.len(),
{
    if runs.len() > 0 {
        lemma_serial_of_empty_runs(runs.drop_last());
    }
}

/// The whole is the runs before `w`, then run `w`, then the runs after.
proof fn lemma_serial_split(runs: Seq<Seq<Request>>, w: int)
    requires
        0 <= w < runs.len(),
    ensures
        serial(runs) == serial(runs.take(w)) + runs[w] + serial(runs.skip(w + 1)),
    decreases runs.len(),
{
    if w < runs.len() - 1 {
        let earlier = runs.drop_last();
        lemma_serial_split(earlier, w);
        assert(earlier.take(w) =~= runs.take(w));
        assert(runs.skip(w + 1).drop_last() =~= earlier.skip(w + 1));
    }
}

/// Every request of the whole is a request of one of the runs: the
/// request `at.1` of the run `at.0`.
proof fn lemma_serial_member(runs: Seq<Seq<Request>>, k: int) -> (at: (int, int))
    requires
        0 <= k < serial(runs).len(),
    ensures
        0 <= at.0 < runs.len(),
        0 <= at.1 < runs[at.0].len(),
        serial(runs)[k] == runs[at.0][at.1],
    decreases runs.len(),
{
    let earlier = runs.drop_last();
    if k < serial(earlier).len() {
        lemma_serial_member(earlier, k)
    } else {
        (runs.len() - 1, k - serial(earlier).len())
    }
}

/// Where the runs of several workers name no account in common, every
/// interleaving of them leaves the store in the state that the runs
/// leave it in when they are made one after the other.
pub proof fn lemma_interleaving_is_serial(
    s: BankModel,
    merged: Seq<Request>,
    runs: Seq<Seq<Request>>,
)
    requires
        interleaves(merged, runs),
        separate(runs),
    ensures
        s.run(merged) == s.run(serial(runs)),
    decreases merged.len(),
{
    if merged.len() == 0 {
        lemma_serial_of_empty_runs(runs);
    } else {
        let w = choose|w: int|
            0 <= w < runs.len() && (#[trigger] runs[w]).len() > 0 && runs[w].last()
                == merged.last() && interleaves(
                merged.drop_last(),
                runs.update(w, runs[w].drop_last()),
            );
        let req = runs[w].last();
        let shorter = runs.update(w, runs[w].drop_last());
        assert(separate(shorter)) by {
            assert forall|u: int, v: int, i: int, j: int|
                0 <= u < v < shorter.len() && 0 <= i < shorter[u].len() && 0 <= j
                    < shorter[v].len() implies (#[trigger] shorter[u][i]).disjoint(
                #[trigger] shorter[v][j],
            ) by {
                assert(shorter[u][i] == runs[u][i]);
                assert(shorter[v][j] == runs[v][j]);
            }
        }
        lemma_interleaving_is_serial(s, merged.drop_last(), shorter);

        let head = serial(runs.take(w)) + runs[w].drop_last();
        let tail = serial(runs.skip(w + 1));
        lemma_serial_split(runs, w);
        lemma_serial_split(shorter, w);
        assert(shorter.take(w) =~= runs.take(w));
        assert(shorter.skip(w + 1) =~= runs.skip(w + 1));
        assert(serial(runs) =~= head.push(req) + tail);

        assert forall|k: int| 0 <= k < tail.len() implies req.disjoint(#[trigger] tail[k]) by {
            let at = lemma_serial_member(runs.skip(w + 1), k);
            assert(tail[k] == runs[w + 1 + at.0][at.1]);
            assert(req == runs[w][runs[w].len() - 1]);
        }
        lemma_run_concat(s, head, tail);
        lemma_request_moves_across(s.run(head), req, tail);
        lemma_run_push(s, head, req);
        lemma_run_concat(s, head.push(req), tail);
    }
}

/// Transfers take hold of their accounts in ascending order of id.
/// So along any chain of transfers between distinct accounts, in which
/// each waits for the account that the next took first, the ids rise;
/// the last never waits for what the first holds, and no such chain
/// closes to a ring.
pub proof fn lemma_waiting_chain_rises(chain: Seq<(usize, usize)>)
    requires
        chain.len() > 0,
        forall|k: int| 0 <= k < chain.len() ==> (#[trigger] chain[k]).0 != chain[k].1,
        forall|k: int|
            0 <= k < chain.len() - 1 ==> spec_acquisition_order(
                (#[trigger] chain[k]).0,
                chain[k].1,
            ).1 == spec_acquisition_order(chain[k + 1].0, chain[k + 1].1).0,
    ensures
        spec_acquisition_order(chain[0].0, chain[0].1).0 < spec_acquisition_order(
            chain.last().0,
            chain.last().1,
        ).1,
    decreases chain.len(),
{
    if chain.len() > 1 {
        let earlier = chain.drop_last();
        let k = chain.len() - 2;
        assert forall|i: int| 0 <= i < earlier.len() implies #[trigger] earlier[i]
            == chain[i] by {}
        lemma_waiting_chain_rises(earlier);
        assert(earlier.last() == chain[k] && chain.last() == chain[k + 1]);
    }
}

} // verus!
