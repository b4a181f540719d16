use qr_payments_back::amount::{Amount, MAX_MANTISSA};
use qr_payments_back::flow::{CreateFlow, Step};
use qr_payments_back::ledger::Ledger;
use qr_payments_back::reply::Reply;
use qr_payments_back::store::{Answer, Request, StoreError};
use qr_payments_back::transaction::{Transaction, TransactionStatus};
use qr_payments_back::wallet::Wallet;

fn ledger_with(id: u64, units: i64) -> Ledger {
    let mut ledger = Ledger::new();
    assert!(ledger.open_wallet(Wallet { id, balance: Amount::from_units(units) }));
    ledger
}

fn balance_of(ledger: &Ledger, id: u64) -> Amount {
    ledger.find_wallet(id).unwrap().balance
}

fn token_of(reply: Reply) -> String {
    match reply {
        Reply::Token(token) => token,
        other => panic!("unexpected reply {:?}", other),
    }
}

fn ask(step: Step) -> Request {
    match step {
        Step::Ask(request) => request,
        Step::Finish(reply) => panic!("unexpected reply {:?}", reply),
    }
}

#[test]
fn open_wallet_refuses_zero_and_duplicates() {
    let mut ledger = Ledger::new();
    assert!(!ledger.open_wallet(Wallet { id: 0, balance: Amount::from_units(1) }));
    assert!(ledger.open_wallet(Wallet { id: 1, balance: Amount::from_units(1) }));
    assert!(!ledger.open_wallet(Wallet { id: 1, balance: Amount::from_units(2) }));
    assert!(ledger.open_wallet(Wallet { id: 2, balance: Amount::from_units(2) }));
    let wallets = ledger.wallets();
    assert_eq!(wallets.len(), 2);
    assert_eq!(wallets[0].id, 1);
    assert_eq!(wallets[0].balance.mantissa(), 1);
    assert_eq!(wallets[1].id, 2);
    assert!(ledger.find_wallet(3).is_none());
    assert!(ledger.find_wallet(0).is_none());
}

#[test]
fn an_overdrawing_debit_is_refused_and_changes_nothing() {
    let mut ledger = ledger_with(1, 100);
    let reply = ledger.new_transaction(1, Amount::from_units(-150));
    assert!(matches!(reply, Reply::InsufficientBalance));
    assert_eq!(reply.status_code(), 412);
    assert!(balance_of(&ledger, 1).same_value(&Amount::from_units(100)));
    assert_eq!(ledger.transactions().len(), 0);
}

#[test]
fn a_covered_debit_is_accepted_and_lowers_the_balance() {
    let mut ledger = ledger_with(1, 100);
    let reply = ledger.new_transaction(1, Amount::from_units(-40));
    assert_eq!(reply.status_code(), 200);
    let token = token_of(reply);
    assert_eq!(token.chars().count(), 32);
    assert!(token.chars().all(|c| c.is_ascii_alphanumeric()));
    assert!(balance_of(&ledger, 1).same_value(&Amount::from_units(60)));
    let rows = ledger.transactions();
    assert_eq!(rows.len(), 1);
    assert_eq!(rows[0].id, 1);
    assert_eq!(rows[0].wallets_id, Some(1));
    assert_eq!(rows[0].amount.mantissa(), -40);
    assert_eq!(rows[0].status, TransactionStatus::Initialized);
    assert_eq!(rows[0].token, Some(token));
    assert_eq!(rows[0].errors, None);
}

#[test]
fn a_credit_raises_the_balance() {
    let mut ledger = ledger_with(1, 100);
    let reply = ledger.new_transaction(1, Amount::new(2550, 2).unwrap());
    assert_eq!(reply.status_code(), 200);
    let balance = balance_of(&ledger, 1);
    assert_eq!(balance.mantissa(), 12550);
    assert_eq!(balance.scale(), 2);
}

#[test]
fn a_debit_of_the_whole_balance_leaves_zero() {
    let mut ledger = ledger_with(1, 100);
    let reply = ledger.new_transaction(1, Amount::from_units(-100));
    assert_eq!(reply.status_code(), 200);
    assert!(balance_of(&ledger, 1).is_zero());
    let reply = ledger.new_transaction(1, Amount::new(-1, 2).unwrap());
    assert!(matches!(reply, Reply::InsufficientBalance));
}

#[test]
fn an_unknown_wallet_is_refused_and_recorded() {
    let mut ledger = ledger_with(1, 100);
    let reply = ledger.new_transaction(999, Amount::from_units(10));
    assert!(matches!(reply, Reply::UnknownWallet(999)));
    assert_eq!(reply.status_code(), 400);
    assert_eq!(
        reply.message(),
        Some(String::from("Wallet with ID: 999 does not exist. Aborting transaction"))
    );
    let rows = ledger.transactions();
    assert_eq!(rows.len(), 1);
    assert_eq!(rows[0].id, 1);
    assert_eq!(rows[0].status, TransactionStatus::Log);
    assert_eq!(rows[0].wallets_id, None);
    assert_eq!(rows[0].token, None);
    assert_eq!(rows[0].amount.mantissa(), 10);
    assert_eq!(rows[0].errors, Some(String::from("Invalid wallet received with ID: 999")));
    assert!(balance_of(&ledger, 1).same_value(&Amount::from_units(100)));
}

#[test]
fn a_zero_amount_is_always_refused() {
    for balance in [-100i64, 0, 100] {
        let mut ledger = ledger_with(1, balance);
        for zero in [Amount::zero(), Amount::new(0, 2).unwrap(), Amount::new(0, 28).unwrap()] {
            let reply = ledger.new_transaction(1, zero);
            assert!(matches!(reply, Reply::InvalidAmount));
            assert_eq!(reply.status_code(), 412);
        }
        assert!(balance_of(&ledger, 1).same_value(&Amount::from_units(balance)));
        assert_eq!(ledger.transactions().len(), 0);
    }
    let mut ledger = ledger_with(1, 100);
    let reply = ledger.new_transaction(2, Amount::zero());
    assert_eq!(reply.status_code(), 400);
}

#[test]
fn a_debit_on_an_overdrawn_wallet_is_refused_and_changes_nothing() {
    let mut ledger = ledger_with(1, -100);
    for units in [-50i64, -40, -100, -1] {
        let reply = ledger.new_transaction(1, Amount::from_units(units));
        assert!(matches!(reply, Reply::InsufficientBalance));
        assert_eq!(reply.status_code(), 412);
    }
    assert!(balance_of(&ledger, 1).same_value(&Amount::from_units(-100)));
    assert_eq!(ledger.transactions().len(), 0);
    let reply = ledger.new_transaction(1, Amount::from_units(30));
    assert_eq!(reply.status_code(), 200);
    assert!(balance_of(&ledger, 1).same_value(&Amount::from_units(-70)));
}

#[test]
fn a_balance_that_cannot_be_held_is_rolled_back() {
    let mut ledger = Ledger::new();
    let max = Amount::new(MAX_MANTISSA, 0).unwrap();
    assert!(ledger.open_wallet(Wallet { id: 1, balance: max }));
    let reply = ledger.new_transaction(1, Amount::from_units(1));
    assert!(matches!(reply, Reply::StorageFailure));
    assert_eq!(balance_of(&ledger, 1).mantissa(), MAX_MANTISSA);
    let rows = ledger.transactions();
    assert_eq!(rows[0].status, TransactionStatus::InternalError);
    assert_eq!(rows[0].errors, Some(String::from("MySql error while affecting wallet balance")));
}

#[test]
fn confirming_an_unknown_pair_changes_nothing() {
    let mut ledger = ledger_with(1, 100);
    let token = token_of(ledger.new_transaction(1, Amount::from_units(-40)));
    let reply = ledger.confirm_transaction(1, String::from("not-the-token"));
    assert!(matches!(reply, Reply::TransactionNotFound));
    assert_eq!(reply.status_code(), 404);
    let reply = ledger.confirm_transaction(2, token.clone());
    assert!(matches!(reply, Reply::TransactionNotFound));
    let rows = ledger.transactions();
    assert_eq!(rows.len(), 1);
    assert_eq!(rows[0].status, TransactionStatus::Initialized);
    assert_eq!(rows[0].token, Some(token));
    assert!(balance_of(&ledger, 1).same_value(&Amount::from_units(60)));
}

#[test]
fn a_transaction_is_confirmed_once() {
    let mut ledger = ledger_with(1, 100);
    let token = token_of(ledger.new_transaction(1, Amount::from_units(-40)));
    let first = ledger.confirm_transaction(1, token.clone());
    assert!(matches!(first, Reply::Confirmed));
    assert_eq!(first.status_code(), 200);
    assert_eq!(first.message(), None);
    assert_eq!(ledger.transactions()[0].status, TransactionStatus::Confirmed);
    let second = ledger.confirm_transaction(1, token.clone());
    assert!(matches!(second, Reply::Inconsistent));
    assert_eq!(second.status_code(), 500);
    let rows = ledger.transactions();
    assert_eq!(rows.len(), 1);
    assert_eq!(rows[0].status, TransactionStatus::Confirmed);
    assert_eq!(rows[0].errors, None);
    assert!(balance_of(&ledger, 1).same_value(&Amount::from_units(60)));
}

#[test]
fn a_rolled_back_transaction_cannot_be_confirmed() {
    let mut ledger = Ledger::new();
    let max = Amount::new(MAX_MANTISSA, 0).unwrap();
    assert!(ledger.open_wallet(Wallet { id: 1, balance: max }));
    let reply = ledger.new_transaction(1, Amount::from_units(1));
    assert!(matches!(reply, Reply::StorageFailure));
    assert_eq!(ledger.transactions()[0].status, TransactionStatus::InternalError);
    let token = ledger.transactions()[0].token.clone().unwrap();
    let reply = ledger.confirm_transaction(1, token);
    assert!(matches!(reply, Reply::Inconsistent));
    assert_eq!(ledger.transactions()[0].status, TransactionStatus::InternalError);
}

#[test]
fn adjust_balance_is_one_step() {
    let mut ledger = ledger_with(1, 100);
    assert_eq!(ledger.adjust_balance(0, Amount::from_units(1)), Err(StoreError::ZeroWalletId));
    assert_eq!(ledger.adjust_balance(7, Amount::from_units(1)), Ok(false));
    assert_eq!(ledger.adjust_balance(1, Amount::from_units(-101)), Ok(false));
    assert!(balance_of(&ledger, 1).same_value(&Amount::from_units(100)));
    assert_eq!(ledger.adjust_balance(1, Amount::from_units(-100)), Ok(true));
    assert!(balance_of(&ledger, 1).is_zero());
    assert_eq!(ledger.adjust_balance(1, Amount::new(MAX_MANTISSA, 0).unwrap()), Ok(true));
    assert_eq!(ledger.adjust_balance(1, Amount::from_units(1)), Err(StoreError::OutOfRange));
    assert_eq!(balance_of(&ledger, 1).mantissa(), MAX_MANTISSA);
}

#[test]
fn insert_needs_a_token_and_a_fresh_pair() {
    let mut ledger = ledger_with(1, 100);
    let mut t = Transaction::new(Amount::from_units(5));
    t.wallets_id = Some(1);
    assert_eq!(ledger.insert_transaction(&t), Err(StoreError::MissingToken));
    t.token = Some(String::from("tok"));
    t.errors = Some(String::from("not stored"));
    assert_eq!(ledger.insert_transaction(&t), Ok(1));
    assert_eq!(ledger.insert_transaction(&t), Err(StoreError::DuplicateToken));
    t.wallets_id = Some(2);
    assert_eq!(ledger.insert_transaction(&t), Ok(2));
    let rows = ledger.transactions();
    assert_eq!(rows.len(), 2);
    assert_eq!(rows[0].errors, None);
    assert_eq!(rows[1].id, 2);
    assert_eq!(rows[1].wallets_id, Some(2));
}

#[test]
fn update_status_compares_and_sets() {
    let mut ledger = ledger_with(1, 100);
    let mut t = Transaction::new(Amount::from_units(5));
    t.wallets_id = Some(1);
    t.token = Some(String::from("tok"));
    assert_eq!(
        ledger.update_status(&t, TransactionStatus::Initialized),
        Err(StoreError::ZeroTransactionId)
    );
    t.id = ledger.insert_transaction(&t).unwrap();
    t.status = TransactionStatus::Declined;
    t.errors = Some(String::from("declined by hand"));
    assert_eq!(ledger.update_status(&t, TransactionStatus::Confirmed), Ok(false));
    assert_eq!(ledger.transactions()[0].status, TransactionStatus::Initialized);
    assert_eq!(ledger.update_status(&t, TransactionStatus::Initialized), Ok(true));
    let row = ledger.transactions()[0].clone();
    assert_eq!(row.status, TransactionStatus::Declined);
    assert_eq!(row.errors, Some(String::from("declined by hand")));
    assert_eq!(row.token, Some(String::from("tok")));
    assert_eq!(ledger.update_status(&t, TransactionStatus::Initialized), Ok(false));
    t.id = 2;
    assert_eq!(ledger.update_status(&t, TransactionStatus::Initialized), Ok(false));
    t.id = 1;
    t.errors = None;
    t.status = TransactionStatus::Cancelled;
    assert_eq!(ledger.update_status(&t, TransactionStatus::Declined), Ok(true));
    let row = ledger.transactions()[0].clone();
    assert_eq!(row.status, TransactionStatus::Cancelled);
    assert_eq!(row.errors, Some(String::from("declined by hand")));
}

#[test]
fn log_rejection_writes_an_audit_row() {
    let mut ledger = Ledger::new();
    let mut t = Transaction::new(Amount::from_units(5));
    t.wallets_id = Some(1);
    t.token = Some(String::from("tok"));
    t.errors = Some(String::from("why"));
    assert_eq!(ledger.log_rejection(&t), Ok(true));
    let row = ledger.transactions()[0].clone();
    assert_eq!(row.id, 1);
    assert_eq!(row.status, TransactionStatus::Log);
    assert_eq!(row.wallets_id, None);
    assert_eq!(row.token, None);
    assert_eq!(row.errors, Some(String::from("why")));
    assert!(ledger.find_transaction(1, &String::from("tok")).is_none());
}

#[test]
fn execute_answers_in_kind() {
    let mut ledger = ledger_with(1, 100);
    assert!(matches!(
        ledger.execute(&Request::FindWallet { wallets_id: 1 }),
        Answer::Wallet(Ok(Some(_)))
    ));
    assert!(matches!(
        ledger.execute(&Request::FindWallet { wallets_id: 2 }),
        Answer::Wallet(Ok(None))
    ));
    assert!(matches!(
        ledger.execute(&Request::AdjustBalance { wallets_id: 1, delta: Amount::from_units(5) }),
        Answer::Adjusted(Ok(true))
    ));
    assert!(matches!(
        ledger.execute(&Request::FindTransaction { wallets_id: 1, token: String::from("none") }),
        Answer::Transaction(Ok(None))
    ));
    let transaction = Transaction::new(Amount::from_units(5));
    assert!(matches!(
        ledger.execute(&Request::InsertTransaction { transaction: transaction.clone() }),
        Answer::Inserted(Err(StoreError::MissingToken))
    ));
    assert!(matches!(
        ledger.execute(&Request::LogRejection { transaction: transaction.clone() }),
        Answer::Logged(Ok(true))
    ));
    assert!(matches!(
        ledger.execute(&Request::UpdateStatus {
            transaction,
            expected: TransactionStatus::Initialized
        }),
        Answer::Updated(Err(StoreError::ZeroTransactionId))
    ));
}

#[test]
fn interleaved_debits_do_not_overdraw() {
    let mut ledger = ledger_with(1, 100);
    let (first, first_step) = CreateFlow::start(1, Amount::from_units(-70));
    let (second, second_step) = CreateFlow::start(1, Amount::from_units(-60));
    let answer = ledger.execute(&ask(first_step));
    let (first, first_step) = first.advance(answer);
    let answer = ledger.execute(&ask(second_step));
    let (second, second_step) = second.advance(answer);
    let answer = ledger.execute(&ask(first_step));
    let (first, first_step) = first.advance(answer);
    let answer = ledger.execute(&ask(second_step));
    let (second, second_step) = second.advance(answer);
    let answer = ledger.execute(&ask(second_step));
    let (second, second_step) = second.advance(answer);
    let answer = ledger.execute(&ask(first_step));
    let (first, first_step) = first.advance(answer);
    assert!(matches!(second_step, Step::Finish(Reply::Token(_))));
    assert!(balance_of(&ledger, 1).same_value(&Amount::from_units(40)));
    let answer = ledger.execute(&ask(first_step));
    let (_, first_step) = first.advance(answer);
    assert!(matches!(first_step, Step::Finish(Reply::StorageFailure)));
    assert!(balance_of(&ledger, 1).same_value(&Amount::from_units(40)));
    let rows = ledger.transactions();
    assert_eq!(rows.len(), 2);
    assert_eq!(rows[0].status, TransactionStatus::InternalError);
    assert_eq!(rows[0].errors, Some(String::from("Could not affect wallet balance")));
    assert_eq!(rows[0].amount.mantissa(), -70);
    assert_eq!(rows[1].status, TransactionStatus::Initialized);
    assert_eq!(second.transaction.id, 2);
}

#[test]
fn the_balance_is_the_opening_balance_plus_what_was_accepted() {
    let mut ledger = ledger_with(1, 100);
    assert!(ledger.open_wallet(Wallet { id: 2, balance: Amount::from_units(10) }));
    let requests: [(u64, i64); 8] =
        [(1, -30), (2, 5), (1, -80), (1, 0), (3, 9), (1, 25), (2, -16), (1, -95)];
    let mut accepted_one: i64 = 0;
    let mut accepted_two: i64 = 0;
    for (wallets_id, units) in requests {
        let reply = ledger.new_transaction(wallets_id, Amount::from_units(units));
        if reply.status_code() == 200 {
            if wallets_id == 1 {
                accepted_one += units;
            } else {
                accepted_two += units;
            }
        }
        assert!(!balance_of(&ledger, 1).is_negative());
        assert!(!balance_of(&ledger, 2).is_negative());
    }
    assert_eq!(accepted_one, -30 + 25 - 95);
    assert_eq!(accepted_two, 5);
    assert!(balance_of(&ledger, 1).same_value(&Amount::from_units(100 + accepted_one)));
    assert!(balance_of(&ledger, 2).same_value(&Amount::from_units(10 + accepted_two)));
}
