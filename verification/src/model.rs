//! The mathematical model of the account store: balances and counters as
//! unbounded integers, and the effect of each operation on them.

use vstd::prelude::*;

verus! {

/// Why the account store turned an operation down.
#[derive(Clone, Copy, Debug, PartialEq, Eq)]
pub enum BankError {
    /// An account id lies outside `[0, N)`.
    InvalidAccount,
    /// A transfer names the same account as source and destination.
    SelfTransfer,
    /// The source account holds less than the amount asked for.
    InsufficientFunds,
}

/// One operation asked of the account store, with its operands.
#[derive(Clone, Copy, Debug, PartialEq, Eq)]
pub enum Request {
    /// Add `amount` to the balance of `account_id`.
    Deposit { account_id: i32, amount: i32 },
    /// Take `amount` from the balance of `account_id`.
    Withdraw { account_id: i32, amount: i32 },
    /// Move `amount` from `src_id` to `dest_id`.
    Transfer { src_id: usize, dest_id: usize, amount: i32 },
    /// Read the balance of `account_id`.
    CheckBalance { account_id: i32 },
}

impl Request {
    /// The account the operation reads or debits: the only account of a
    /// deposit, a withdrawal or a balance check, the source of a transfer.
    pub open spec fn account(self) -> int {
        match self {
            Request::Deposit { account_id, .. } => account_id as int,
            Request::Withdraw { account_id, .. } => account_id as int,
            Request::Transfer { src_id, .. } => src_id as int,
            Request::CheckBalance { account_id } => account_id as int,
        }
    }

    /// The second account of a transfer; for the other operations the
    /// account itself.
    pub open spec fn counterpart(self) -> int {
        match self {
            Request::Transfer { dest_id, .. } => dest_id as int,
            _ => self.account(),
        }
    }

    /// The amount to move; a balance check moves nothing.
    pub open spec fn amount(self) -> int {
        match self {
            Request::Deposit { amount, .. } => amount as int,
            Request::Withdraw { amount, .. } => amount as int,
            Request::Transfer { amount, .. } => amount as int,
            Request::CheckBalance { .. } => 0,
        }
    }

    /// Amounts are never negative.
    pub open spec fn valid(self) -> bool {
        self.amount() >= 0
    }

    /// Whether the operation names account `id`.
    pub open spec fn touches(self, id: int) -> bool {
        id == self.account() || id == self.counterpart()
    }

    /// Whether two operations name no account in common.
    pub open spec fn disjoint(self, other: Request) -> bool {
        &&& !other.touches(self.account())
        &&& !other.touches(self.counterpart())
    }
}

/// The state of the account store: one balance per account id, in id
/// order, and the two counters of completed operations.
pub struct BankModel {
    pub balances: Seq<int>,
    pub succeeded: int,
    pub failed: int,
}

impl BankModel {
    /// A store of `n` accounts, all at zero, that has completed nothing.
    pub open spec fn fresh(n: nat) -> BankModel {
        BankModel { balances: Seq::new(n, |i: int| 0int), succeeded: 0, failed: 0 }
    }

    /// Whether `id` names an account of the store.
    pub open spec fn has_account(self, id: int) -> bool {
        0 <= id < self.balances.len()
    }

    /// No balance and no counter is negative.
    pub open spec fn wf(self) -> bool {
        &&& forall|i: int| 0 <= i < self.balances.len() ==> self.balances[i] >= 0
        &&& self.succeeded >= 0
        &&& self.failed >= 0
    }

    /// The account ids, the balances and the counters all fit in an `i32`.
    pub open spec fn representable(self) -> bool {
        &&& self.balances.len() <= i32::MAX
        &&& forall|i: int| 0 <= i < self.balances.len() ==> self.balances[i] <= i32::MAX
        &&& self.succeeded <= i32::MAX
        &&& self.failed <= i32::MAX
    }

    /// The number of operations the store has completed.
    pub open spec fn completed(self) -> int {
        self.succeeded + self.failed
    }

    /// The error with which the store answers `req` in this state, or
    /// `None` where it carries the operation out.
    pub open spec fn rejection(self, req: Request) -> Option<BankError> {
        match req {
            Request::Deposit { .. } | Request::CheckBalance { .. } => {
                if !self.has_account(req.account()) {
                    Some(BankError::InvalidAccount)
                } else {
                    None
                }
            },
            Request::Withdraw { .. } => {
                if !self.has_account(req.account()) {
                    Some(BankError::InvalidAccount)
                } else if self.balances[req.account()] < req.amount() {
                    Some(BankError::InsufficientFunds)
                } else {
                    None
                }
            },
            Request::Transfer { .. } => {
                if !self.has_account(req.account()) || !self.has_account(req.counterpart()) {
                    Some(BankError::InvalidAccount)
                } else if req.account() == req.counterpart() {
                    Some(BankError::SelfTransfer)
                } else if self.balances[req.account()] < req.amount() {
                    Some(BankError::InsufficientFunds)
                } else {
                    None
                }
            },
        }
    }

    /// The balances once `req` has been carried out.
    pub open spec fn settled(self, req: Request) -> Seq<int> {
        let a = req.account();
        let b = req.counterpart();
        match req {
            Request::Deposit { .. } => self.balances.update(a, self.balances[a] + req.amount()),
            Request::Withdraw { .. } => self.balances.update(a, self.balances[a] - req.amount()),
            Request::Transfer { .. } => self.balances.update(
                a,
                self.balances[a] - req.amount(),
            ).update(b, self.balances[b] + req.amount()),
            Request::CheckBalance { .. } => self.balances,
        }
    }

    /// The state after the store has answered `req`: a rejected
    /// operation counts as failed and moves nothing; any other counts as
    /// succeeded and settles.
    pub open spec fn apply(self, req: Request) -> BankModel {
        if self.rejection(req) is Some {
            BankModel { failed: self.failed + 1, ..self }
        } else {
            BankModel { balances: self.settled(req), succeeded: self.succeeded + 1, ..self }
        }
    }

    /// The state after the store has answered `reqs` one after another.
    pub open spec fn run(self, reqs: Seq<Request>) -> BankModel
        decreases reqs.len(),
    {
        if reqs.len() == 0 {
            self
        } else {
            self.run(reqs.drop_last()).apply(reqs.last())
        }
    }
}

} // verus!
