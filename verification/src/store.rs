//! What the flows ask of a store and what a store answers.
//!
//! A flow never touches storage. It hands out a `Request`; whoever runs the
//! flow carries the request out against the wallet and transaction tables and
//! hands back the `Answer`.

use crate::amount::Amount;
use crate::transaction::{Transaction, TransactionStatus, TransactionView};
use crate::wallet::{Wallet, WalletView};
use vstd::prelude::*;
use vstd::string::*;

verus! {

/// Why a store could not carry out a request.
#[derive(Debug, Clone, Copy, PartialEq, Eq, Structural)]
pub enum StoreError {
    /// The store could not be reached, or it refused the statement.
    Unavailable,
    /// A row held a value that could not be read.
    Malformed,
    /// A balance was to be adjusted for the wallet identifier zero.
    ZeroWalletId,
    /// A transaction was to be stored without a token.
    MissingToken,
    /// A transaction was to be updated that has never been stored.
    ZeroTransactionId,
    /// The wallet already has a transaction with this token.
    DuplicateToken,
    /// The new balance cannot be held exactly.
    OutOfRange,
}

impl StoreError {
    /// The text that describes the error.
    pub open spec fn text(self) -> Seq<char> {
        match self {
            StoreError::Unavailable => "The store is unavailable"@,
            StoreError::Malformed => "A stored row could not be read"@,
            StoreError::ZeroWalletId => "Wallet cannot have an ID of zero when affecting its balance"@,
            StoreError::MissingToken => "Cannot process transaction without token"@,
            StoreError::ZeroTransactionId => "Transaction ID cannot be zero for an update operation"@,
            StoreError::DuplicateToken => "The wallet already has a transaction with this token"@,
            StoreError::OutOfRange => "The new balance cannot be held exactly"@,
        }
    }

    /// The text that describes the error.
    pub fn message(&self) -> (r: String)
        ensures
            r@ == self.text(),
    {
        match self {
            StoreError::Unavailable => String::from_str("The store is unavailable"),
            StoreError::Malformed => String::from_str("A stored row could not be read"),
            StoreError::ZeroWalletId => String::from_str(
                "Wallet cannot have an ID of zero when affecting its balance",
            ),
            StoreError::MissingToken => String::from_str(
                "Cannot process transaction without token",
            ),
            StoreError::ZeroTransactionId => String::from_str(
                "Transaction ID cannot be zero for an update operation",
            ),
            StoreError::DuplicateToken => String::from_str(
                "The wallet already has a transaction with this token",
            ),
            StoreError::OutOfRange => String::from_str("The new balance cannot be held exactly"),
        }
    }
}

/// One operation on the store.
#[derive(Debug)]
pub enum Request {
    /// Read the wallet with this identifier.
    FindWallet { wallets_id: u64 },
    /// Store an audit row for an attempt that never reached a wallet: the
    /// amount and the error text of `transaction`, with the status `Log`.
    LogRejection { transaction: Transaction },
    /// Store `transaction` as a new row.
    InsertTransaction { transaction: Transaction },
    /// Add `delta` to the wallet's balance, in one atomic step that leaves
    /// the balance alone where a debit would take it below zero.
    AdjustBalance { wallets_id: u64, delta: Amount },
    /// Give the row of `transaction` its status and, where it has one, its
    /// error text, provided that the row still has the status `expected`.
    UpdateStatus { transaction: Transaction, expected: TransactionStatus },
    /// Read the transaction of this wallet with this token.
    FindTransaction { wallets_id: u64, token: String },
}

/// What a request is to the contracts.
pub enum RequestView {
    FindWallet { wallets_id: u64 },
    LogRejection { transaction: TransactionView },
    InsertTransaction { transaction: TransactionView },
    AdjustBalance { wallets_id: u64, delta: int },
    UpdateStatus { transaction: TransactionView, expected: TransactionStatus },
    FindTransaction { wallets_id: u64, token: Seq<char> },
}

impl View for Request {
    type V = RequestView;

    open spec fn view(&self) -> RequestView {
        match self {
            Request::FindWallet { wallets_id } => RequestView::FindWallet {
                wallets_id: *wallets_id,
            },
            Request::LogRejection { transaction } => RequestView::LogRejection {
                transaction: transaction@,
            },
            Request::InsertTransaction { transaction } => RequestView::InsertTransaction {
                transaction: transaction@,
            },
            Request::AdjustBalance { wallets_id, delta } => RequestView::AdjustBalance {
                wallets_id: *wallets_id,
                delta: delta@,
            },
            Request::UpdateStatus { transaction, expected } => RequestView::UpdateStatus {
                transaction: transaction@,
                expected: *expected,
            },
            Request::FindTransaction { wallets_id, token } => RequestView::FindTransaction {
                wallets_id: *wallets_id,
                token: token@,
            },
        }
    }
}

/// What the store answers to a request.
#[derive(Debug)]
pub enum Answer {
    /// To `FindWallet`: the wallet, if there is one.
    Wallet(Result<Option<Wallet>, StoreError>),
    /// To `LogRejection`: whether a row was written.
    Logged(Result<bool, StoreError>),
    /// To `InsertTransaction`: the identifier of the new row.
    Inserted(Result<u64, StoreError>),
    /// To `AdjustBalance`: whether the balance was changed.
    Adjusted(Result<bool, StoreError>),
    /// To `UpdateStatus`: whether the row was changed.
    Updated(Result<bool, StoreError>),
    /// To `FindTransaction`: the transaction, if there is one.
    Transaction(Result<Option<Transaction>, StoreError>),
}

/// What an answer is to the contracts.
pub enum AnswerView {
    Wallet(Result<Option<WalletView>, StoreError>),
    Logged(Result<bool, StoreError>),
    Inserted(Result<u64, StoreError>),
    Adjusted(Result<bool, StoreError>),
    Updated(Result<bool, StoreError>),
    Transaction(Result<Option<TransactionView>, StoreError>),
}

impl View for Answer {
    type V = AnswerView;

    open spec fn view(&self) -> AnswerView {
        match self {
            Answer::Wallet(Ok(Some(wallet))) => AnswerView::Wallet(Ok(Some(wallet@))),
            Answer::Wallet(Ok(None)) => AnswerView::Wallet(Ok(None)),
            Answer::Wallet(Err(error)) => AnswerView::Wallet(Err(*error)),
            Answer::Logged(result) => AnswerView::Logged(*result),
            Answer::Inserted(result) => AnswerView::Inserted(*result),
            Answer::Adjusted(result) => AnswerView::Adjusted(*result),
            Answer::Updated(result) => AnswerView::Updated(*result),
            Answer::Transaction(Ok(Some(transaction))) => AnswerView::Transaction(
                Ok(Some(transaction@)),
            ),
            Answer::Transaction(Ok(None)) => AnswerView::Transaction(Ok(None)),
            Answer::Transaction(Err(error)) => AnswerView::Transaction(Err(*error)),
        }
    }
}

} // verus!
