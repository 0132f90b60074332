use bank_ledger::bank::{Bank, Snapshot};
use bank_ledger::ledger::{parse_ledger, Ledger, Mode};
use bank_ledger::model::Request;

fn asked(from: i32, to: i32, amount: i32, mode: Mode, ledger_id: i32) -> Ledger {
    Ledger { from, to, amount, mode, ledger_id }
}

fn run(bank: &mut Bank, requests: &[Request]) {
    for request in requests.iter() {
        bank.apply(0, 0, *request);
    }
}

#[test]
fn deposits_and_withdrawals_on_one_account_add_up() {
    let mut bank = Bank::new(3);
    let moves: Vec<(bool, i32)> = vec![
        (true, 100),
        (false, 30),
        (false, 80),
        (true, 5),
        (false, 75),
        (false, 1),
        (true, 0),
        (true, 20),
        (false, 20),
    ];
    let mut deposited: i32 = 0;
    let mut withdrawn: i32 = 0;
    for (is_deposit, amount) in moves.iter() {
        let before: i32 = bank.snapshot().balances[1];
        if *is_deposit {
            assert!(bank.deposit(0, 0, 1, *amount).result.is_ok());
            deposited += *amount;
        } else if bank.withdraw(0, 0, 1, *amount).result.is_ok() {
            withdrawn += *amount;
        } else {
            assert_eq!(bank.snapshot().balances[1], before);
        }
    }
    assert_eq!(deposited, 125);
    assert_eq!(withdrawn, 125);
    assert_eq!(bank.snapshot(), Snapshot { balances: vec![0, 0, 0], succeeded: 7, failed: 2 });
}

#[test]
fn no_balance_is_negative_after_a_ledger() {
    let text: &[u8] = b"0 0 50 W\n0 1 10 T\n0 0 40 D\n0 1 41 T\n0 1 40 T\n1 2 15 T\n2 0 16 T\n1 0 25 W\n1 0 26 W\n2 2 15 W\n";
    let mut bank = Bank::new(3);
    for parsed in parse_ledger(text).iter() {
        let e: Ledger = parsed.unwrap();
        assert!(bank.try_process(0, &e).is_some());
        for balance in bank.snapshot().balances.iter() {
            assert!(*balance >= 0);
        }
    }
    assert_eq!(bank.snapshot(), Snapshot { balances: vec![0, 0, 0], succeeded: 5, failed: 5 });
}

#[test]
fn every_dispatched_entry_is_counted_once() {
    let ledger: Vec<Ledger> = vec![
        asked(0, 0, 10, Mode::Deposit, 0),
        asked(5, 0, 10, Mode::Deposit, 1),
        asked(0, 1, 11, Mode::Transfer, 2),
        asked(0, 7, 1, Mode::Transfer, 3),
        asked(-1, 0, 1, Mode::Withdraw, 4),
        asked(1, 1, 1, Mode::Transfer, 5),
        asked(1, 0, 0, Mode::CheckBalance, 6),
        asked(9, 0, 0, Mode::CheckBalance, 7),
    ];
    let mut bank = Bank::new(2);
    let mut dispatched: i32 = 0;
    for e in ledger.iter() {
        if bank.process(0, e).is_ok() {
            dispatched += 1;
        }
        let snap: Snapshot = bank.snapshot();
        assert_eq!(snap.succeeded + snap.failed, dispatched);
    }
    assert_eq!(dispatched, 4);
    assert_eq!(bank.snapshot(), Snapshot { balances: vec![10, 0], succeeded: 2, failed: 2 });
}

#[test]
fn runs_on_separate_accounts_may_interleave_in_any_way() {
    let a: Vec<Request> = vec![
        Request::Deposit { account_id: 0, amount: 100 },
        Request::Transfer { src_id: 0, dest_id: 1, amount: 60 },
        Request::Withdraw { account_id: 1, amount: 70 },
        Request::Transfer { src_id: 1, dest_id: 0, amount: 60 },
    ];
    let b: Vec<Request> = vec![
        Request::Withdraw { account_id: 2, amount: 1 },
        Request::Deposit { account_id: 3, amount: 9 },
        Request::Transfer { src_id: 3, dest_id: 2, amount: 4 },
        Request::CheckBalance { account_id: 2 },
        Request::Deposit { account_id: 7, amount: 1 },
    ];
    let mut serial = Bank::new(4);
    run(&mut serial, &a);
    run(&mut serial, &b);
    assert_eq!(
        serial.snapshot(),
        Snapshot { balances: vec![100, 0, 4, 5], succeeded: 6, failed: 3 }
    );

    let mut other_way = Bank::new(4);
    run(&mut other_way, &b);
    run(&mut other_way, &a);
    assert_eq!(other_way.snapshot(), serial.snapshot());

    let mut zipped = Bank::new(4);
    run(&mut zipped, &[b[0], a[0], a[1], b[1], b[2], a[2], b[3], a[3], b[4]]);
    assert_eq!(zipped.snapshot(), serial.snapshot());
}

#[test]
fn runs_on_a_shared_account_depend_on_the_order() {
    let deposit: Request = Request::Deposit { account_id: 0, amount: 10 };
    let withdraw: Request = Request::Withdraw { account_id: 0, amount: 10 };
    let mut one = Bank::new(1);
    run(&mut one, &[deposit, withdraw]);
    let mut other = Bank::new(1);
    run(&mut other, &[withdraw, deposit]);
    assert_eq!(one.snapshot(), Snapshot { balances: vec![0], succeeded: 2, failed: 0 });
    assert_eq!(other.snapshot(), Snapshot { balances: vec![10], succeeded: 1, failed: 1 });
}
