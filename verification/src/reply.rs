//! What a flow tells the caller when it ends.

use crate::text::{decimal_text, text_around_number, text_of};
use crate::wallet::{Wallet, WalletView};
use vstd::prelude::*;
use vstd::string::*;

verus! {

/// How loudly the operator is told of a reply.
#[derive(Debug, Clone, Copy, PartialEq, Eq, Structural)]
pub enum Severity {
    /// An expected outcome, rejections included.
    Info,
    /// The store failed.
    Error,
    /// The state of the ledger is in doubt and needs an operator.
    Critical,
}

/// The outcome of a request.
#[derive(Debug)]
pub enum Reply {
    /// The transaction was created; the token confirms it.
    Token(String),
    /// The transaction was confirmed.
    Confirmed,
    /// The wallet that was asked for.
    Wallet(Wallet),
    /// Every wallet.
    Wallets(Vec<Wallet>),
    /// A transaction was requested for a wallet that does not exist.
    UnknownWallet(u64),
    /// The wallet that was asked for does not exist.
    WalletNotFound(u64),
    /// The amount of the transaction is zero.
    InvalidAmount,
    /// The wallet's balance does not authorise the transaction.
    InsufficientBalance,
    /// No transaction has this wallet and token.
    TransactionNotFound,
    /// The store failed.
    StorageFailure,
    /// A write that had to apply did not, or a transition was asked from a
    /// status that does not allow it.
    Inconsistent,
}

/// What a reply is to the contracts.
pub enum ReplyView {
    Token(Seq<char>),
    Confirmed,
    Wallet(WalletView),
    Wallets(Seq<WalletView>),
    UnknownWallet(u64),
    WalletNotFound(u64),
    InvalidAmount,
    InsufficientBalance,
    TransactionNotFound,
    StorageFailure,
    Inconsistent,
}

/// The views of a list of wallets.
pub open spec fn wallet_views(wallets: Seq<Wallet>) -> Seq<WalletView> {
    Seq::new(wallets.len(), |i: int| wallets[i]@)
}

impl View for Reply {
    type V = ReplyView;

    open spec fn view(&self) -> ReplyView {
        match self {
            Reply::Token(token) => ReplyView::Token(token@),
            Reply::Confirmed => ReplyView::Confirmed,
            Reply::Wallet(wallet) => ReplyView::Wallet(wallet@),
            Reply::Wallets(wallets) => ReplyView::Wallets(wallet_views(wallets@)),
            Reply::UnknownWallet(id) => ReplyView::UnknownWallet(*id),
            Reply::WalletNotFound(id) => ReplyView::WalletNotFound(*id),
            Reply::InvalidAmount => ReplyView::InvalidAmount,
            Reply::InsufficientBalance => ReplyView::InsufficientBalance,
            Reply::TransactionNotFound => ReplyView::TransactionNotFound,
            Reply::StorageFailure => ReplyView::StorageFailure,
            Reply::Inconsistent => ReplyView::Inconsistent,
        }
    }
}

impl ReplyView {
    /// The HTTP status of the reply.
    pub open spec fn status(self) -> u16 {
        match self {
            ReplyView::Token(_) => 200,
            ReplyView::Confirmed => 200,
            ReplyView::Wallet(_) => 200,
            ReplyView::Wallets(_) => 200,
            ReplyView::UnknownWallet(_) => 400,
            ReplyView::WalletNotFound(_) => 404,
            ReplyView::InvalidAmount => 412,
            ReplyView::InsufficientBalance => 412,
            ReplyView::TransactionNotFound => 404,
            ReplyView::StorageFailure => 500,
            ReplyView::Inconsistent => 500,
        }
    }

    /// The text that the reply carries, if it carries one.
    pub open spec fn message(self) -> Option<Seq<char>> {
        match self {
            ReplyView::Token(token) => Some(token),
            ReplyView::UnknownWallet(id) => Some(
                "Wallet with ID: "@ + decimal_text(id as nat)
                    + " does not exist. Aborting transaction"@,
            ),
            ReplyView::WalletNotFound(id) => Some(
                "Wallet with ID: "@ + decimal_text(id as nat) + " was not found"@,
            ),
            ReplyView::InvalidAmount => Some("Amount cannot be zero for transaction"@),
            ReplyView::InsufficientBalance => Some(
                "Wallet has insufficient balance for transaction"@,
            ),
            ReplyView::TransactionNotFound => Some(
                "No transaction found for the required criteria"@,
            ),
            _ => None,
        }
    }

    /// How loudly the operator is told.
    pub open spec fn severity(self) -> Severity {
        match self {
            ReplyView::StorageFailure => Severity::Error,
            ReplyView::Inconsistent => Severity::Critical,
            _ => Severity::Info,
        }
    }

    /// Whether the reply reports that the request was carried out.
    pub open spec fn is_success(self) -> bool {
        self.status() == 200
    }
}

impl Reply {
    /// The HTTP status of the reply: 200 for success, 400 for an unknown
    /// wallet, 404 for what was not found, 412 for a movement that is not
    /// allowed, 500 for every failure of the store.
    pub fn status_code(&self) -> (r: u16)
        ensures
            r == self@.status(),
    {
        match self {
            Reply::Token(_) => 200,
            Reply::Confirmed => 200,
            Reply::Wallet(_) => 200,
            Reply::Wallets(_) => 200,
            Reply::UnknownWallet(_) => 400,
            Reply::WalletNotFound(_) => 404,
            Reply::InvalidAmount => 412,
            Reply::InsufficientBalance => 412,
            Reply::TransactionNotFound => 404,
            Reply::StorageFailure => 500,
            Reply::Inconsistent => 500,
        }
    }

    /// The text that the reply carries, if it carries one: the token, or the
    /// reason of a rejection. Failures of the store carry none.
    pub fn message(&self) -> (r: Option<String>)
        ensures
            text_of(r) == self@.message(),
    {
        match self {
            Reply::Token(token) => Some(token.clone()),
            Reply::UnknownWallet(id) => Some(
                text_around_number(
                    "Wallet with ID: ",
                    *id,
                    " does not exist. Aborting transaction",
                ),
            ),
            Reply::WalletNotFound(id) => Some(
                text_around_number("Wallet with ID: ", *id, " was not found"),
            ),
            Reply::InvalidAmount => Some(String::from_str("Amount cannot be zero for transaction")),
            Reply::InsufficientBalance => Some(
                String::from_str("Wallet has insufficient balance for transaction"),
            ),
            Reply::TransactionNotFound => Some(
                String::from_str("No transaction found for the required criteria"),
            ),
            _ => None,
        }
    }

    /// How loudly the operator is told: failures of the store are errors, a
    /// ledger in doubt is critical, everything else is information.
    pub fn severity(&self) -> (r: Severity)
        ensures
            r == self@.severity(),
    {
        match self {
            Reply::StorageFailure => Severity::Error,
            Reply::Inconsistent => Severity::Critical,
            _ => Severity::Info,
        }
    }
}

} // verus!
