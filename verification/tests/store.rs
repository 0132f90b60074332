use bank_ledger::bank::{acquisition_order, Bank, Outcome, Snapshot};
use bank_ledger::model::{BankError, Request};

fn balances(bank: &Bank) -> Vec<i32> {
    bank.snapshot().balances
}

#[test]
fn new_store_has_zeroed_accounts_and_counters() {
    let bank = Bank::new(5);
    assert_eq!(bank.num(), 5);
    assert_eq!(bank.snapshot(), Snapshot { balances: vec![0, 0, 0, 0, 0], succeeded: 0, failed: 0 });
}

#[test]
fn new_store_may_be_empty() {
    let mut bank = Bank::new(0);
    assert_eq!(bank.num(), 0);
    assert_eq!(bank.snapshot(), Snapshot { balances: vec![], succeeded: 0, failed: 0 });
    let out = bank.deposit(0, 0, 0, 1);
    assert_eq!(out.result, Err(BankError::InvalidAccount));
}

#[test]
fn deposit_adds_and_reports_who_asked() {
    let mut bank = Bank::new(3);
    let out = bank.deposit(7, 42, 2, 250);
    assert_eq!(
        out,
        Outcome {
            worker_id: 7,
            ledger_id: 42,
            request: Request::Deposit { account_id: 2, amount: 250 },
            result: Ok(250),
        }
    );
    assert_eq!(bank.snapshot(), Snapshot { balances: vec![0, 0, 250], succeeded: 1, failed: 0 });
}

#[test]
fn deposit_of_zero_succeeds() {
    let mut bank = Bank::new(1);
    let out = bank.deposit(0, 0, 0, 0);
    assert_eq!(out.result, Ok(0));
    assert_eq!(bank.snapshot(), Snapshot { balances: vec![0], succeeded: 1, failed: 0 });
}

#[test]
fn deposit_up_to_the_largest_balance() {
    let mut bank = Bank::new(1);
    assert_eq!(bank.deposit(0, 0, 0, i32::MAX - 1).result, Ok(i32::MAX - 1));
    assert_eq!(bank.deposit(0, 1, 0, 1).result, Ok(i32::MAX));
}

#[test]
fn withdraw_takes_what_is_there() {
    let mut bank = Bank::new(2);
    bank.deposit(0, 0, 1, 100);
    let out = bank.withdraw(3, 9, 1, 100);
    assert_eq!(
        out,
        Outcome {
            worker_id: 3,
            ledger_id: 9,
            request: Request::Withdraw { account_id: 1, amount: 100 },
            result: Ok(0),
        }
    );
    assert_eq!(bank.snapshot(), Snapshot { balances: vec![0, 0], succeeded: 2, failed: 0 });
}

#[test]
fn withdraw_beyond_the_balance_is_refused() {
    let mut bank = Bank::new(2);
    bank.deposit(0, 0, 1, 100);
    let out = bank.withdraw(0, 1, 1, 101);
    assert_eq!(out.result, Err(BankError::InsufficientFunds));
    assert_eq!(bank.snapshot(), Snapshot { balances: vec![0, 100], succeeded: 1, failed: 1 });
}

#[test]
fn transfer_moves_the_amount_between_two_accounts() {
    let mut bank = Bank::new(4);
    bank.deposit(0, 0, 3, 500);
    let out = bank.transfer(2, 1, 3, 1, 120);
    assert_eq!(
        out,
        Outcome {
            worker_id: 2,
            ledger_id: 1,
            request: Request::Transfer { src_id: 3, dest_id: 1, amount: 120 },
            result: Ok(380),
        }
    );
    assert_eq!(bank.snapshot(), Snapshot { balances: vec![0, 120, 0, 380], succeeded: 2, failed: 0 });
    let back = bank.transfer(2, 2, 1, 3, 20);
    assert_eq!(back.result, Ok(100));
    assert_eq!(balances(&bank), vec![0, 100, 0, 400]);
}

#[test]
fn transfer_is_all_or_nothing() {
    let mut bank = Bank::new(3);
    bank.deposit(0, 0, 0, 50);
    bank.deposit(0, 1, 1, 70);
    let before: Vec<i32> = balances(&bank);

    let short = bank.transfer(0, 2, 0, 1, 51);
    assert_eq!(short.result, Err(BankError::InsufficientFunds));
    assert_eq!(balances(&bank), before);

    let own = bank.transfer(0, 3, 1, 1, 10);
    assert_eq!(own.result, Err(BankError::SelfTransfer));
    assert_eq!(balances(&bank), before);

    let nowhere = bank.transfer(0, 4, 0, 3, 10);
    assert_eq!(nowhere.result, Err(BankError::InvalidAccount));
    assert_eq!(balances(&bank), before);

    let from_nowhere = bank.transfer(0, 5, 17, 0, 10);
    assert_eq!(from_nowhere.result, Err(BankError::InvalidAccount));
    assert_eq!(balances(&bank), before);

    let done = bank.transfer(0, 6, 0, 1, 50);
    assert_eq!(done.result, Ok(0));
    assert_eq!(balances(&bank), vec![0, 120, 0]);
    assert_eq!(bank.snapshot().succeeded, 3);
    assert_eq!(bank.snapshot().failed, 4);
}

#[test]
fn transfer_to_self_outside_the_store_is_an_invalid_account() {
    let mut bank = Bank::new(2);
    let out = bank.transfer(0, 0, 5, 5, 1);
    assert_eq!(out.result, Err(BankError::InvalidAccount));
}

#[test]
fn transfer_from_the_largest_id_is_invalid() {
    let mut bank = Bank::new(2);
    let out = bank.transfer(0, 0, usize::MAX, 0, 0);
    assert_eq!(out.result, Err(BankError::InvalidAccount));
    assert_eq!(bank.snapshot(), Snapshot { balances: vec![0, 0], succeeded: 0, failed: 1 });
}

#[test]
fn check_balance_reads_and_counts() {
    let mut bank = Bank::new(2);
    bank.deposit(0, 0, 1, 33);
    let out = bank.check_balance(4, 8, 1);
    assert_eq!(
        out,
        Outcome {
            worker_id: 4,
            ledger_id: 8,
            request: Request::CheckBalance { account_id: 1 },
            result: Ok(33),
        }
    );
    assert_eq!(bank.snapshot(), Snapshot { balances: vec![0, 33], succeeded: 2, failed: 0 });
}

#[test]
fn negative_account_ids_are_invalid() {
    let mut bank = Bank::new(2);
    assert_eq!(bank.deposit(0, 0, -1, 5).result, Err(BankError::InvalidAccount));
    assert_eq!(bank.withdraw(0, 1, -1, 5).result, Err(BankError::InvalidAccount));
    assert_eq!(bank.check_balance(0, 2, -1).result, Err(BankError::InvalidAccount));
    assert_eq!(bank.deposit(0, 3, 2, 5).result, Err(BankError::InvalidAccount));
    assert_eq!(bank.snapshot(), Snapshot { balances: vec![0, 0], succeeded: 0, failed: 4 });
}

#[test]
fn walk_through_six_operations() {
    let mut bank = Bank::new(5);
    assert_eq!(balances(&bank), vec![0, 0, 0, 0, 0]);

    assert_eq!(bank.deposit(0, 0, 0, 300).result, Ok(300));
    assert_eq!(balances(&bank)[0], 300);

    assert_eq!(bank.withdraw(0, 1, 0, 200).result, Ok(100));
    assert_eq!(balances(&bank)[0], 100);

    let failed_before: i32 = bank.snapshot().failed;
    assert_eq!(bank.withdraw(0, 2, 0, 200).result, Err(BankError::InsufficientFunds));
    assert_eq!(balances(&bank)[0], 100);
    assert_eq!(bank.snapshot().failed, failed_before + 1);

    assert_eq!(bank.deposit(0, 3, 1, 500).result, Ok(500));
    assert_eq!(balances(&bank)[1], 500);

    assert_eq!(bank.transfer(0, 4, 1, 0, 300).result, Ok(200));
    assert_eq!(balances(&bank)[0], 400);
    assert_eq!(balances(&bank)[1], 200);

    assert_eq!(bank.check_balance(0, 5, 1).result, Ok(200));
    assert_eq!(bank.snapshot(), Snapshot { balances: vec![400, 200, 0, 0, 0], succeeded: 5, failed: 1 });
}

#[test]
fn account_99_of_a_store_of_five_is_invalid_for_every_operation() {
    let mut bank = Bank::new(5);
    bank.deposit(0, 0, 2, 40);
    let before: Snapshot = bank.snapshot();

    assert_eq!(bank.deposit(0, 1, 99, 10).result, Err(BankError::InvalidAccount));
    assert_eq!(bank.snapshot().failed, before.failed + 1);
    assert_eq!(bank.withdraw(0, 2, 99, 10).result, Err(BankError::InvalidAccount));
    assert_eq!(bank.snapshot().failed, before.failed + 2);
    assert_eq!(bank.transfer(0, 3, 99, 2, 10).result, Err(BankError::InvalidAccount));
    assert_eq!(bank.snapshot().failed, before.failed + 3);
    assert_eq!(bank.transfer(0, 4, 2, 99, 10).result, Err(BankError::InvalidAccount));
    assert_eq!(bank.snapshot().failed, before.failed + 4);
    assert_eq!(bank.check_balance(0, 5, 99).result, Err(BankError::InvalidAccount));
    assert_eq!(bank.snapshot().failed, before.failed + 5);

    assert_eq!(bank.snapshot().balances, before.balances);
    assert_eq!(bank.snapshot().succeeded, before.succeeded);
}

#[test]
fn apply_answers_each_kind_of_request() {
    let mut bank = Bank::new(3);
    assert_eq!(bank.apply(1, 0, Request::Deposit { account_id: 0, amount: 90 }).result, Ok(90));
    assert_eq!(bank.apply(1, 1, Request::Withdraw { account_id: 0, amount: 30 }).result, Ok(60));
    assert_eq!(
        bank.apply(1, 2, Request::Transfer { src_id: 0, dest_id: 2, amount: 25 }).result,
        Ok(35)
    );
    let read = bank.apply(1, 3, Request::CheckBalance { account_id: 2 });
    assert_eq!(read.result, Ok(25));
    assert_eq!(read.worker_id, 1);
    assert_eq!(read.ledger_id, 3);
    assert_eq!(read.request, Request::CheckBalance { account_id: 2 });
    assert_eq!(bank.snapshot(), Snapshot { balances: vec![35, 0, 25], succeeded: 4, failed: 0 });
}

#[test]
fn can_apply_tells_when_the_integers_would_not_hold_the_result() {
    let mut bank = Bank::new(2);
    bank.deposit(0, 0, 0, i32::MAX);
    bank.deposit(0, 1, 1, 10);
    assert!(!bank.can_apply(Request::Deposit { account_id: 0, amount: 1 }));
    assert!(bank.can_apply(Request::Deposit { account_id: 0, amount: 0 }));
    assert!(bank.can_apply(Request::Deposit { account_id: 1, amount: i32::MAX - 10 }));
    assert!(!bank.can_apply(Request::Deposit { account_id: 1, amount: i32::MAX - 9 }));
    assert!(!bank.can_apply(Request::Transfer { src_id: 1, dest_id: 0, amount: 1 }));
    assert!(bank.can_apply(Request::Transfer { src_id: 1, dest_id: 0, amount: 11 }));
    assert!(bank.can_apply(Request::Transfer { src_id: 0, dest_id: 1, amount: i32::MAX - 10 }));
    assert!(!bank.can_apply(Request::Transfer { src_id: 0, dest_id: 1, amount: i32::MAX - 9 }));
    assert!(bank.can_apply(Request::Withdraw { account_id: 0, amount: i32::MAX }));
    assert!(bank.can_apply(Request::CheckBalance { account_id: 7 }));
    assert!(!bank.can_apply(Request::Deposit { account_id: 1, amount: -1 }));
    assert!(!bank.can_apply(Request::Withdraw { account_id: 1, amount: -1 }));
    assert!(!bank.can_apply(Request::Transfer { src_id: 0, dest_id: 1, amount: -1 }));
}

#[test]
fn accounts_are_taken_hold_of_in_ascending_order() {
    assert_eq!(acquisition_order(1, 3), (1, 3));
    assert_eq!(acquisition_order(3, 1), (1, 3));
    assert_eq!(acquisition_order(4, 4), (4, 4));
    assert_eq!(acquisition_order(0, usize::MAX), (0, usize::MAX));
    assert_eq!(acquisition_order(usize::MAX, 0), (0, usize::MAX));
}

#[test]
fn opposite_transfers_agree_on_the_order_and_both_go_through() {
    assert_eq!(acquisition_order(2, 5), acquisition_order(5, 2));
    let mut bank = Bank::new(6);
    bank.deposit(0, 0, 2, 10);
    bank.deposit(0, 1, 5, 20);
    assert_eq!(bank.transfer(1, 2, 2, 5, 10).result, Ok(0));
    assert_eq!(bank.transfer(2, 3, 5, 2, 30).result, Ok(0));
    assert_eq!(balances(&bank), vec![0, 0, 30, 0, 0, 0]);
}
