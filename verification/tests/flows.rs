use qr_payments_back::amount::Amount;
use qr_payments_back::flow::{
    get_wallet, get_wallets, ConfirmFlow, ConfirmPhase, CreateFlow, CreatePhase, Step,
};
use qr_payments_back::reply::Reply;
use qr_payments_back::store::{Answer, Request, StoreError};
use qr_payments_back::transaction::{Transaction, TransactionStatus};
use qr_payments_back::wallet::Wallet;

const TOKEN: &str = "abcdefghijklmnopqrstuvwxyz012345";

fn wallet_of(id: u64, units: i64) -> Wallet {
    Wallet { id, balance: Amount::from_units(units) }
}

fn started(wallets_id: u64, units: i64) -> CreateFlow {
    let (flow, step) = CreateFlow::start(wallets_id, Amount::from_units(units));
    assert!(matches!(step, Step::Ask(Request::FindWallet { wallets_id: id }) if id == wallets_id));
    flow
}

fn at_insert(units: i64) -> CreateFlow {
    let flow = started(1, units);
    let (flow, _) =
        flow.advance_with(Answer::Wallet(Ok(Some(wallet_of(1, 100)))), String::from(TOKEN));
    assert_eq!(flow.phase, CreatePhase::AwaitInsert);
    flow
}

fn at_adjust(units: i64) -> CreateFlow {
    let (flow, _) = at_insert(units).advance_with(Answer::Inserted(Ok(17)), String::new());
    assert_eq!(flow.phase, CreatePhase::AwaitAdjust);
    flow
}

fn found_transaction(status: TransactionStatus) -> Transaction {
    let mut t = Transaction::new(Amount::from_units(-40));
    t.id = 17;
    t.wallets_id = Some(1);
    t.token = Some(String::from(TOKEN));
    t.status = status;
    t
}

#[test]
fn create_starts_by_looking_up_the_wallet() {
    let (flow, step) = CreateFlow::start(5, Amount::from_units(10));
    assert_eq!(flow.phase, CreatePhase::AwaitWallet);
    assert_eq!(flow.wallets_id, 5);
    assert_eq!(flow.transaction.id, 0);
    assert_eq!(flow.transaction.status, TransactionStatus::Initialized);
    assert!(matches!(step, Step::Ask(Request::FindWallet { wallets_id: 5 })));
}

#[test]
fn create_stores_the_transaction_once_the_wallet_is_found() {
    let flow = started(1, -40);
    let (flow, step) =
        flow.advance_with(Answer::Wallet(Ok(Some(wallet_of(1, 100)))), String::from(TOKEN));
    assert_eq!(flow.phase, CreatePhase::AwaitInsert);
    assert_eq!(flow.transaction.token, Some(String::from(TOKEN)));
    assert_eq!(flow.transaction.wallets_id, Some(1));
    match step {
        Step::Ask(Request::InsertTransaction { transaction }) => {
            assert_eq!(transaction.token, Some(String::from(TOKEN)));
            assert_eq!(transaction.wallets_id, Some(1));
            assert_eq!(transaction.amount.mantissa(), -40);
            assert_eq!(transaction.status, TransactionStatus::Initialized);
            assert_eq!(transaction.id, 0);
        }
        other => panic!("unexpected step {:?}", other),
    }
}

#[test]
fn create_refuses_a_zero_amount_whatever_the_balance() {
    for balance in [-5i64, 0, 100, i64::MAX] {
        let flow = started(1, 0);
        let (flow, step) = flow
            .advance_with(Answer::Wallet(Ok(Some(wallet_of(1, balance)))), String::from(TOKEN));
        assert_eq!(flow.phase, CreatePhase::Done);
        assert_eq!(flow.transaction.token, None);
        assert!(matches!(step, Step::Finish(Reply::InvalidAmount)));
    }
}

#[test]
fn create_refuses_an_insufficient_balance() {
    let flow = started(1, -150);
    let (flow, step) =
        flow.advance_with(Answer::Wallet(Ok(Some(wallet_of(1, 100)))), String::from(TOKEN));
    assert_eq!(flow.phase, CreatePhase::Done);
    assert!(matches!(step, Step::Finish(Reply::InsufficientBalance)));
}

#[test]
fn create_records_an_unknown_wallet() {
    let flow = started(999, 10);
    let (flow, step) = flow.advance_with(Answer::Wallet(Ok(None)), String::from(TOKEN));
    assert_eq!(flow.phase, CreatePhase::AwaitLog);
    match step {
        Step::Ask(Request::LogRejection { transaction }) => {
            assert_eq!(
                transaction.errors,
                Some(String::from("Invalid wallet received with ID: 999"))
            );
            assert_eq!(transaction.wallets_id, None);
            assert_eq!(transaction.token, None);
            assert_eq!(transaction.amount.mantissa(), 10);
        }
        other => panic!("unexpected step {:?}", other),
    }
    for logged in [Ok(true), Ok(false), Err(StoreError::Unavailable)] {
        let again = started(999, 10);
        let (again, _) = again.advance_with(Answer::Wallet(Ok(None)), String::new());
        let (again, step) = again.advance_with(Answer::Logged(logged), String::new());
        assert_eq!(again.phase, CreatePhase::Done);
        assert!(matches!(step, Step::Finish(Reply::UnknownWallet(999))));
    }
}

#[test]
fn create_refuses_every_debit_on_an_overdrawn_wallet() {
    for units in [-50i64, -1, -100, -150] {
        let flow = started(1, units);
        let (flow, step) = flow
            .advance_with(Answer::Wallet(Ok(Some(wallet_of(1, -100)))), String::from(TOKEN));
        assert_eq!(flow.phase, CreatePhase::Done);
        assert_eq!(flow.transaction.token, None);
        assert!(matches!(step, Step::Finish(Reply::InsufficientBalance)));
    }
}

#[test]
fn create_fails_when_the_lookup_fails() {
    let flow = started(1, 10);
    let (flow, step) =
        flow.advance_with(Answer::Wallet(Err(StoreError::Unavailable)), String::from(TOKEN));
    assert_eq!(flow.phase, CreatePhase::Done);
    assert!(matches!(step, Step::Finish(Reply::StorageFailure)));
}

#[test]
fn create_adjusts_the_balance_once_stored() {
    let (flow, step) = at_insert(-40).advance_with(Answer::Inserted(Ok(17)), String::new());
    assert_eq!(flow.phase, CreatePhase::AwaitAdjust);
    assert_eq!(flow.transaction.id, 17);
    match step {
        Step::Ask(Request::AdjustBalance { wallets_id, delta }) => {
            assert_eq!(wallets_id, 1);
            assert_eq!(delta.mantissa(), -40);
        }
        other => panic!("unexpected step {:?}", other),
    }
}

#[test]
fn create_fails_when_the_insert_fails() {
    let (flow, step) =
        at_insert(-40).advance_with(Answer::Inserted(Err(StoreError::Unavailable)), String::new());
    assert_eq!(flow.phase, CreatePhase::Done);
    assert!(matches!(step, Step::Finish(Reply::StorageFailure)));
}

#[test]
fn create_ends_with_the_token() {
    let (flow, step) = at_adjust(-40).advance_with(Answer::Adjusted(Ok(true)), String::new());
    assert_eq!(flow.phase, CreatePhase::Done);
    assert_eq!(flow.transaction.status, TransactionStatus::Initialized);
    match step {
        Step::Finish(Reply::Token(token)) => assert_eq!(token, TOKEN),
        other => panic!("unexpected step {:?}", other),
    }
}

#[test]
fn create_rolls_back_when_no_balance_changed() {
    let (flow, step) = at_adjust(-40).advance_with(Answer::Adjusted(Ok(false)), String::new());
    assert_eq!(flow.phase, CreatePhase::AwaitRollback);
    match step {
        Step::Ask(Request::UpdateStatus { transaction, expected }) => {
            assert_eq!(expected, TransactionStatus::Initialized);
            assert_eq!(transaction.id, 17);
            assert_eq!(transaction.status, TransactionStatus::InternalError);
            assert_eq!(transaction.errors, Some(String::from("Could not affect wallet balance")));
        }
        other => panic!("unexpected step {:?}", other),
    }
}

#[test]
fn create_rolls_back_when_the_adjustment_fails() {
    let (flow, step) =
        at_adjust(-40).advance_with(Answer::Adjusted(Err(StoreError::Unavailable)), String::new());
    assert_eq!(flow.phase, CreatePhase::AwaitRollback);
    match step {
        Step::Ask(Request::UpdateStatus { transaction, .. }) => {
            assert_eq!(transaction.status, TransactionStatus::InternalError);
            assert_eq!(
                transaction.errors,
                Some(String::from("MySql error while affecting wallet balance"))
            );
        }
        other => panic!("unexpected step {:?}", other),
    }
}

#[test]
fn create_reports_a_failure_after_a_rollback() {
    let (flow, _) = at_adjust(-40).advance_with(Answer::Adjusted(Ok(false)), String::new());
    let (flow, step) = flow.advance_with(Answer::Updated(Ok(true)), String::new());
    assert_eq!(flow.phase, CreatePhase::Done);
    assert!(matches!(step, Step::Finish(Reply::StorageFailure)));
}

#[test]
fn create_is_inconsistent_when_the_rollback_does_not_apply() {
    for updated in [Ok(false), Err(StoreError::Unavailable)] {
        let (flow, _) = at_adjust(-40).advance_with(Answer::Adjusted(Ok(false)), String::new());
        let (flow, step) = flow.advance_with(Answer::Updated(updated), String::new());
        assert_eq!(flow.phase, CreatePhase::Done);
        assert!(matches!(step, Step::Finish(Reply::Inconsistent)));
    }
}

#[test]
fn create_does_not_roll_back_from_another_status() {
    let mut flow = at_adjust(-40);
    flow.transaction.status = TransactionStatus::Confirmed;
    let (flow, step) = flow.advance_with(Answer::Adjusted(Ok(false)), String::new());
    assert_eq!(flow.phase, CreatePhase::Done);
    assert!(matches!(step, Step::Finish(Reply::Inconsistent)));
}

#[test]
fn create_treats_a_stray_answer_as_a_failure() {
    let (flow, step) = started(1, 10).advance_with(Answer::Adjusted(Ok(true)), String::new());
    assert_eq!(flow.phase, CreatePhase::Done);
    assert!(matches!(step, Step::Finish(Reply::StorageFailure)));
    let (flow, step) = flow.advance_with(Answer::Wallet(Ok(None)), String::new());
    assert_eq!(flow.phase, CreatePhase::Done);
    assert!(matches!(step, Step::Finish(Reply::StorageFailure)));
    let (_, step) = at_adjust(5).advance_with(Answer::Updated(Ok(true)), String::new());
    assert!(matches!(step, Step::Finish(Reply::StorageFailure)));
}

#[test]
fn create_advance_draws_a_token() {
    let (flow, step) = started(1, -40).advance(Answer::Wallet(Ok(Some(wallet_of(1, 100)))));
    let token = flow.transaction.token.clone().unwrap();
    assert_eq!(token.chars().count(), 32);
    assert!(token.chars().all(|c| c.is_ascii_alphanumeric()));
    match step {
        Step::Ask(Request::InsertTransaction { transaction }) => {
            assert_eq!(transaction.token, Some(token));
        }
        other => panic!("unexpected step {:?}", other),
    }
    let (flow, step) = started(1, -40).advance(Answer::Wallet(Ok(None)));
    assert_eq!(flow.transaction.token, None);
    assert!(matches!(step, Step::Ask(Request::LogRejection { .. })));
}

#[test]
fn confirm_starts_by_looking_up_the_transaction() {
    let (flow, step) = ConfirmFlow::start(1, String::from(TOKEN));
    assert_eq!(flow.phase, ConfirmPhase::AwaitTransaction);
    match step {
        Step::Ask(Request::FindTransaction { wallets_id, token }) => {
            assert_eq!(wallets_id, 1);
            assert_eq!(token, TOKEN);
        }
        other => panic!("unexpected step {:?}", other),
    }
}

#[test]
fn confirm_marks_an_initialized_transaction() {
    let (flow, _) = ConfirmFlow::start(1, String::from(TOKEN));
    let found = found_transaction(TransactionStatus::Initialized);
    let (flow, step) = flow.advance(Answer::Transaction(Ok(Some(found))));
    assert_eq!(flow.phase, ConfirmPhase::AwaitUpdate);
    match step {
        Step::Ask(Request::UpdateStatus { transaction, expected }) => {
            assert_eq!(expected, TransactionStatus::Initialized);
            assert_eq!(transaction.id, 17);
            assert_eq!(transaction.status, TransactionStatus::Confirmed);
            assert_eq!(transaction.errors, None);
        }
        other => panic!("unexpected step {:?}", other),
    }
    let (flow, step) = flow.advance(Answer::Updated(Ok(true)));
    assert_eq!(flow.phase, ConfirmPhase::Done);
    assert!(matches!(step, Step::Finish(Reply::Confirmed)));
}

#[test]
fn confirm_refuses_every_status_but_initialized() {
    let others = [
        TransactionStatus::Confirmed,
        TransactionStatus::Declined,
        TransactionStatus::Cancelled,
        TransactionStatus::InternalError,
        TransactionStatus::Log,
    ];
    for status in others {
        let (flow, _) = ConfirmFlow::start(1, String::from(TOKEN));
        let (flow, step) = flow.advance(Answer::Transaction(Ok(Some(found_transaction(status)))));
        assert_eq!(flow.phase, ConfirmPhase::Done);
        assert!(matches!(step, Step::Finish(Reply::Inconsistent)));
    }
}

#[test]
fn confirm_reports_what_is_not_found() {
    let (flow, _) = ConfirmFlow::start(1, String::from(TOKEN));
    let (flow, step) = flow.advance(Answer::Transaction(Ok(None)));
    assert_eq!(flow.phase, ConfirmPhase::Done);
    assert!(matches!(step, Step::Finish(Reply::TransactionNotFound)));
}

#[test]
fn confirm_fails_when_the_store_fails() {
    let (flow, _) = ConfirmFlow::start(1, String::from(TOKEN));
    let (_, step) = flow.advance(Answer::Transaction(Err(StoreError::Unavailable)));
    assert!(matches!(step, Step::Finish(Reply::StorageFailure)));
    let (flow, _) = ConfirmFlow::start(1, String::from(TOKEN));
    let found = found_transaction(TransactionStatus::Initialized);
    let (flow, _) = flow.advance(Answer::Transaction(Ok(Some(found))));
    let (_, step) = flow.advance(Answer::Updated(Err(StoreError::Unavailable)));
    assert!(matches!(step, Step::Finish(Reply::StorageFailure)));
}

#[test]
fn confirm_is_inconsistent_when_no_row_changed() {
    let (flow, _) = ConfirmFlow::start(1, String::from(TOKEN));
    let found = found_transaction(TransactionStatus::Initialized);
    let (flow, _) = flow.advance(Answer::Transaction(Ok(Some(found))));
    let (flow, step) = flow.advance(Answer::Updated(Ok(false)));
    assert_eq!(flow.phase, ConfirmPhase::Done);
    assert!(matches!(step, Step::Finish(Reply::Inconsistent)));
    let (_, step) = flow.advance(Answer::Updated(Ok(true)));
    assert!(matches!(step, Step::Finish(Reply::StorageFailure)));
}

#[test]
fn get_wallet_replies() {
    let found = get_wallet(Answer::Wallet(Ok(Some(wallet_of(3, 50)))), 3);
    match found {
        Reply::Wallet(w) => {
            assert_eq!(w.id, 3);
            assert_eq!(w.balance.mantissa(), 50);
        }
        other => panic!("unexpected reply {:?}", other),
    }
    assert!(matches!(get_wallet(Answer::Wallet(Ok(None)), 3), Reply::WalletNotFound(3)));
    assert!(matches!(
        get_wallet(Answer::Wallet(Err(StoreError::Unavailable)), 3),
        Reply::StorageFailure
    ));
    assert!(matches!(get_wallet(Answer::Logged(Ok(true)), 3), Reply::StorageFailure));
}

#[test]
fn get_wallets_replies() {
    match get_wallets(Ok(vec![wallet_of(1, 10), wallet_of(2, 20)])) {
        Reply::Wallets(list) => {
            assert_eq!(list.len(), 2);
            assert_eq!(list[1].id, 2);
        }
        other => panic!("unexpected reply {:?}", other),
    }
    assert!(matches!(get_wallets(Err(StoreError::Unavailable)), Reply::StorageFailure));
}
