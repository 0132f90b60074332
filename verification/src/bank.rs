//! The account store: a fixed set of accounts and the two counters of
//! completed operations, with the operations that change them.

use crate::model::{BankError, BankModel, Request};
use vstd::prelude::*;

verus! {

/// One account: its id, which is its place in the store, and its balance.
struct Account {
    account_id: i32,
    balance: i32,
}

/// The account store.
pub struct Bank {
    num: i32,
    accounts: Vec<Account>,
    num_succ: i32,
    num_fail: i32,
}

/// What the store reports of one operation: who asked, under which
/// ledger id, what was asked, and how it ended. `Ok` carries the balance
/// that `request.account()` holds once the operation is done.
#[derive(Clone, Copy, Debug, PartialEq, Eq)]
pub struct Outcome {
    pub worker_id: i32,
    pub ledger_id: i32,
    pub request: Request,
    pub result: Result<i32, BankError>,
}

/// The two accounts of a transfer in the order in which they are taken
/// hold of: the lower id first, whichever of them is the source.
pub open spec fn spec_acquisition_order(src_id: usize, dest_id: usize) -> (usize, usize) {
    if src_id <= dest_id {
        (src_id, dest_id)
    } else {
        (dest_id, src_id)
    }
}

/// The order in which a transfer takes hold of its two accounts:
/// ascending by id, so that all transfers agree on one order.
pub fn acquisition_order(src_id: usize, dest_id: usize) -> (order: (usize, usize))
    ensures
        order == spec_acquisition_order(src_id, dest_id),
{
    if src_id <= dest_id {
        (src_id, dest_id)
    } else {
        (dest_id, src_id)
    }
}

/// The balances and counters of a store as read at one time.
#[derive(Debug, PartialEq, Eq)]
pub struct Snapshot {
    /// The balance of each account, in id order.
    pub balances: Vec<i32>,
    /// The number of operations that succeeded.
    pub succeeded: i32,
    /// The number of operations that failed.
    pub failed: i32,
}

impl View for Snapshot {
    type V = BankModel;

    open spec fn view(&self) -> BankModel {
        BankModel {
            balances: Seq::new(self.balances@.len(), |i: int| self.balances@[i] as int),
            succeeded: self.succeeded as int,
            failed: self.failed as int,
        }
    }
}

impl View for Bank {
    type V = BankModel;

    closed spec fn view(&self) -> BankModel {
        BankModel {
            balances: Seq::new(self.accounts@.len(), |i: int| self.accounts@[i].balance as int),
            succeeded: self.num_succ as int,
            failed: self.num_fail as int,
        }
    }
}

impl Bank {
    /// The accounts stand in id order and their number is `num`.
    pub closed spec fn inv(&self) -> bool {
        &&& self.num == self.accounts@.len()
        &&& forall|i: int|
            0 <= i < self.accounts@.len() ==> (#[trigger] self.accounts@[i]).account_id == i
    }

    /// The store is in order: its layout holds, no balance or counter is
    /// negative, and everything fits the machine integers.
    pub open spec fn wf(&self) -> bool {
        &&& self.inv()
        &&& self@.wf()
        &&& self@.representable()
    }

    /// A store of `num` accounts with ids `0..num`, each with balance 0,
    /// that has completed no operation.
    pub fn new(num: i32) -> (bank: Bank)
        requires
            num >= 0,
        ensures
            bank.wf(),
            bank@ == BankModel::fresh(num as nat),
    {
        let mut accounts: Vec<Account> = Vec::with_capacity(num as usize);
        let mut i: i32 = 0;
        while i < num
            invariant
                0 <= i <= num,
                accounts@.len() == i,
                forall|k: int|
                    0 <= k < i ==> (#[trigger] accounts@[k]).account_id == k && accounts@[k].balance
                        == 0,
            decreases num - i,
        {
            accounts.push(Account { account_id: i, balance: 0 });
            i = i + 1;
        }
        let bank = Bank { num, num_succ: 0, num_fail: 0, accounts };
        assert(bank@.balances =~= BankModel::fresh(num as nat).balances);
        bank
    }

    /// The number of accounts.
    pub fn num(&self) -> (n: i32)
        requires
            self.wf(),
        ensures
            n == self@.balances.len(),
    {
        self.num
    }

    /// Adds `amount` to the balance of `account_id`. An id outside the
    /// store is answered with `InvalidAccount` and counted as failed;
    /// any other deposit succeeds. The worker and ledger ids only pass
    /// into the outcome.
    pub fn deposit(&mut self, worker_id: i32, ledger_id: i32, account_id: i32, amount: i32) -> (out:
        Outcome)
        requires
            old(self).wf(),
            amount >= 0,
            old(self)@.apply(Request::Deposit { account_id, amount }).representable(),
        ensures
            final(self).wf(),
            final(self)@ == old(self)@.apply(Request::Deposit { account_id, amount }),
            out.worker_id == worker_id,
            out.ledger_id == ledger_id,
            out.request == (Request::Deposit { account_id, amount }),
            match out.result {
                Ok(balance) => {
                    &&& old(self)@.has_account(account_id as int)
                    &&& balance == old(self)@.balances[account_id as int] + amount
                    &&& final(self)@.balances == old(self)@.balances.update(
                        account_id as int,
                        balance as int,
                    )
                },
                Err(e) => {
                    &&& !old(self)@.has_account(account_id as int)
                    &&& e == BankError::InvalidAccount
                    &&& final(self)@.balances == old(self)@.balances
                },
            },
    {
        let request = Request::Deposit { account_id, amount };
        if account_id < 0 || account_id >= self.num {
            self.num_fail = self.num_fail + 1;
            return Outcome { worker_id, ledger_id, request, result: Err(BankError::InvalidAccount) };
        }
        let idx: usize = account_id as usize;
        assert(old(self)@.apply(request).balances[idx as int] <= i32::MAX);
        let balance: i32 = self.accounts[idx].balance + amount;
        self.accounts[idx].balance = balance;
        self.num_succ = self.num_succ + 1;
        assert(self@.balances =~= old(self)@.settled(request));
        Outcome { worker_id, ledger_id, request, result: Ok(balance) }
    }

    /// Takes `amount` from the balance of `account_id`. An id outside
    /// the store is answered with `InvalidAccount`, a balance below
    /// `amount` with `InsufficientFunds`; both count as failed and move
    /// nothing.
    pub fn withdraw(&mut self, worker_id: i32, ledger_id: i32, account_id: i32, amount: i32) -> (out:
        Outcome)
        requires
            old(self).wf(),
            amount >= 0,
            old(self)@.apply(Request::Withdraw { account_id, amount }).representable(),
        ensures
            final(self).wf(),
            final(self)@ == old(self)@.apply(Request::Withdraw { account_id, amount }),
            out.worker_id == worker_id,
            out.ledger_id == ledger_id,
            out.request == (Request::Withdraw { account_id, amount }),
            match out.result {
                Ok(balance) => {
                    &&& old(self)@.rejection(out.request) is None
                    &&& balance == old(self)@.balances[account_id as int] - amount
                    &&& final(self)@.balances == old(self)@.balances.update(
                        account_id as int,
                        balance as int,
                    )
                },
                Err(e) => {
                    &&& old(self)@.rejection(out.request) == Some(e)
                    &&& final(self)@.balances == old(self)@.balances
                },
            },
    {
        let request = Request::Withdraw { account_id, amount };
        if account_id < 0 || account_id >= self.num {
            self.num_fail = self.num_fail + 1;
            return Outcome { worker_id, ledger_id, request, result: Err(BankError::InvalidAccount) };
        }
        let idx: usize = account_id as usize;
        if self.accounts[idx].balance < amount {
            self.num_fail = self.num_fail + 1;
            return Outcome {
                worker_id,
                ledger_id,
                request,
                result: Err(BankError::InsufficientFunds),
            };
        }
        let balance: i32 = self.accounts[idx].balance - amount;
        self.accounts[idx].balance = balance;
        self.num_succ = self.num_succ + 1;
        assert(self@.balances =~= old(self)@.settled(request));
        Outcome { worker_id, ledger_id, request, result: Ok(balance) }
    }

    /// Moves `amount` from `src_id` to `dest_id`. Either both balances
    /// move by `amount`, in opposite directions, or the transfer is
    /// answered with an error, counted as failed, and no balance moves:
    /// `InvalidAccount` where an id lies outside the store,
    /// `SelfTransfer` where the two ids are one, `InsufficientFunds`
    /// where the source holds less than `amount`. The two accounts are
    /// taken hold of in the order that `acquisition_order` gives.
    pub fn transfer(
        &mut self,
        worker_id: i32,
        ledger_id: i32,
        src_id: usize,
        dest_id: usize,
        amount: i32,
    ) -> (out: Outcome)
        requires
            old(self).wf(),
            amount >= 0,
            old(self)@.apply(Request::Transfer { src_id, dest_id, amount }).representable(),
        ensures
            final(self).wf(),
            final(self)@ == old(self)@.apply(Request::Transfer { src_id, dest_id, amount }),
            out.worker_id == worker_id,
            out.ledger_id == ledger_id,
            out.request == (Request::Transfer { src_id, dest_id, amount }),
            match out.result {
                Ok(balance) => {
                    &&& old(self)@.rejection(out.request) is None
                    &&& balance == old(self)@.balances[src_id as int] - amount
                    &&& final(self)@.balances == old(self)@.balances.update(
                        src_id as int,
                        old(self)@.balances[src_id as int] - amount,
                    ).update(dest_id as int, old(self)@.balances[dest_id as int] + amount)
                },
                Err(e) => {
                    &&& old(self)@.rejection(out.request) == Some(e)
                    &&& final(self)@.balances == old(self)@.balances
                },
            },
    {
        let request = Request::Transfer { src_id, dest_id, amount };
        let n: usize = self.accounts.len();
        if src_id >= n || dest_id >= n {
            self.num_fail = self.num_fail + 1;
            return Outcome { worker_id, ledger_id, request, result: Err(BankError::InvalidAccount) };
        }
        if src_id == dest_id {
            self.num_fail = self.num_fail + 1;
            return Outcome { worker_id, ledger_id, request, result: Err(BankError::SelfTransfer) };
        }
        let order: (usize, usize) = acquisition_order(src_id, dest_id);
        let (lower, upper) = self.accounts.as_mut_slice().split_at_mut(order.1);
        let (src, dest) = if src_id < dest_id {
            (&mut lower[order.0], &mut upper[0])
        } else {
            (&mut upper[0], &mut lower[order.0])
        };
        if src.balance < amount {
            self.num_fail = self.num_fail + 1;
            assert(self@.balances =~= old(self)@.balances);
            return Outcome {
                worker_id,
                ledger_id,
                request,
                result: Err(BankError::InsufficientFunds),
            };
        }
        assert(old(self)@.apply(request).balances[dest_id as int] <= i32::MAX);
        let debited: i32 = src.balance - amount;
        src.balance = debited;
        dest.balance = dest.balance + amount;
        self.num_succ = self.num_succ + 1;
        assert(self@.balances =~= old(self)@.settled(request));
        Outcome { worker_id, ledger_id, request, result: Ok(debited) }
    }

    /// Reads the balance of `account_id` and counts the read as
    /// succeeded. An id outside the store is answered with
    /// `InvalidAccount` and counted as failed.
    pub fn check_balance(&mut self, worker_id: i32, ledger_id: i32, account_id: i32) -> (out:
        Outcome)
        requires
            old(self).wf(),
            old(self)@.apply(Request::CheckBalance { account_id }).representable(),
        ensures
            final(self).wf(),
            final(self)@ == old(self)@.apply(Request::CheckBalance { account_id }),
            out.worker_id == worker_id,
            out.ledger_id == ledger_id,
            out.request == (Request::CheckBalance { account_id }),
            final(self)@.balances == old(self)@.balances,
            match out.result {
                Ok(balance) => {
                    &&& old(self)@.has_account(account_id as int)
                    &&& balance == old(self)@.balances[account_id as int]
                },
                Err(e) => {
                    &&& !old(self)@.has_account(account_id as int)
                    &&& e == BankError::InvalidAccount
                },
            },
    {
        let request = Request::CheckBalance { account_id };
        if account_id < 0 || account_id >= self.num {
            self.num_fail = self.num_fail + 1;
            return Outcome { worker_id, ledger_id, request, result: Err(BankError::InvalidAccount) };
        }
        let balance: i32 = self.accounts[account_id as usize].balance;
        self.num_succ = self.num_succ + 1;
        Outcome { worker_id, ledger_id, request, result: Ok(balance) }
    }

    /// Reads every balance and both counters. Nothing is counted.
    pub fn snapshot(&self) -> (snap: Snapshot)
        requires
            self.wf(),
        ensures
            snap@ == self@,
    {
        let n: usize = self.accounts.len();
        let mut balances: Vec<i32> = Vec::with_capacity(n);
        let mut i: usize = 0;
        while i < n
            invariant
                i <= n,
                n == self.accounts@.len(),
                balances@.len() == i,
                forall|k: int| 0 <= k < i ==> balances@[k] == self.accounts@[k].balance,
            decreases n - i,
        {
            balances.push(self.accounts[i].balance);
            i = i + 1;
        }
        let snap = Snapshot { balances, succeeded: self.num_succ, failed: self.num_fail };
        assert(snap@.balances =~= self@.balances);
        snap
    }

    /// Whether the store can answer `request` within its machine
    /// integers: the amount is not negative, and no balance and no
    /// counter would pass `i32::MAX`.
    pub fn can_apply(&self, request: Request) -> (b: bool)
        requires
            self.wf(),
        ensures
            b == (request.valid() && self@.apply(request).representable()),
    {
        let n: usize = self.accounts.len();
        match request {
            Request::Deposit { account_id, amount } => {
                if amount < 0 {
                    false
                } else if account_id < 0 || account_id >= self.num {
                    self.num_fail < i32::MAX
                } else {
                    let balance: i32 = self.accounts[account_id as usize].balance;
                    let fits: bool = self.num_succ < i32::MAX && amount <= i32::MAX - balance;
                    proof {
                        if !fits && self.num_succ < i32::MAX {
                            assert(self@.apply(request).balances[account_id as int] > i32::MAX);
                        }
                    }
                    fits
                }
            },
            Request::Withdraw { account_id, amount } => {
                if amount < 0 {
                    false
                } else if account_id < 0 || account_id >= self.num {
                    self.num_fail < i32::MAX
                } else if self.accounts[account_id as usize].balance < amount {
                    self.num_fail < i32::MAX
                } else {
                    self.num_succ < i32::MAX
                }
            },
            Request::Transfer { src_id, dest_id, amount } => {
                if amount < 0 {
                    false
                } else if src_id >= n || dest_id >= n || src_id == dest_id {
                    self.num_fail < i32::MAX
                } else if self.accounts[src_id].balance < amount {
                    self.num_fail < i32::MAX
                } else {
                    let balance: i32 = self.accounts[dest_id].balance;
                    assert(balance == self@.balances[dest_id as int]);
                    let fits: bool = self.num_succ < i32::MAX && amount <= i32::MAX - balance;
                    proof {
                        if !fits && self.num_succ < i32::MAX {
                            assert(self@.apply(request).balances[dest_id as int] > i32::MAX);
                        }
                    }
                    fits
                }
            },
            Request::CheckBalance { account_id } => {
                if account_id < 0 || account_id >= self.num {
                    self.num_fail < i32::MAX
                } else {
                    self.num_succ < i32::MAX
                }
            },
        }
    }

    /// Answers `request` by the operation it names.
    pub fn apply(&mut self, worker_id: i32, ledger_id: i32, request: Request) -> (out: Outcome)
        requires
            old(self).wf(),
            request.valid(),
            old(self)@.apply(request).representable(),
        ensures
            final(self).wf(),
            final(self)@ == old(self)@.apply(request),
            out.worker_id == worker_id,
            out.ledger_id == ledger_id,
            out.request == request,
            match out.result {
                Ok(balance) => {
                    &&& old(self)@.rejection(request) is None
                    &&& balance == final(self)@.balances[request.account()]
                },
                Err(e) => old(self)@.rejection(request) == Some(e),
            },
    {
        match request {
            Request::Deposit { account_id, amount } => self.deposit(
                worker_id,
                ledger_id,
                account_id,
                amount,
            ),
            Request::Withdraw { account_id, amount } => self.withdraw(
                worker_id,
                ledger_id,
                account_id,
                amount,
            ),
            Request::Transfer { src_id, dest_id, amount } => self.transfer(
                worker_id,
                ledger_id,
                src_id,
                dest_id,
                amount,
            ),
            Request::CheckBalance { account_id } => self.check_balance(
                worker_id,
                ledger_id,
                account_id,
            ),
        }
    }
}

} // verus!
