//! Transactions and their lifecycle.

use crate::amount::Amount;
use crate::text::text_of;
use crate::token::{fresh_token, is_token};
use vstd::prelude::*;
use vstd::string::*;

verus! {

/// Where a transaction stands in its lifecycle.
#[derive(Debug, Clone, Copy, PartialEq, Eq, Structural)]
pub enum TransactionStatus {
    /// Created and reserved against the wallet; awaits confirmation.
    Initialized,
    /// Confirmed by the client.
    Confirmed,
    /// Declined.
    Declined,
    /// Cancelled.
    Cancelled,
    /// The balance could not be adjusted after the transaction was recorded.
    InternalError,
    /// An audit record of an attempt that never reached a wallet.
    Log,
}

impl Default for TransactionStatus {
    fn default() -> (r: Self)
        ensures
            r == TransactionStatus::Initialized,
    {
        TransactionStatus::Initialized
    }
}

impl TransactionStatus {
    /// The name under which the status is stored.
    pub open spec fn name(self) -> Seq<char> {
        match self {
            TransactionStatus::Initialized => "Initialized"@,
            TransactionStatus::Confirmed => "Confirmed"@,
            TransactionStatus::Declined => "Declined"@,
            TransactionStatus::Cancelled => "Cancelled"@,
            TransactionStatus::InternalError => "InternalError"@,
            TransactionStatus::Log => "Log"@,
        }
    }

    /// The status stored under `text`, if there is one.
    pub open spec fn named(text: Seq<char>) -> Option<TransactionStatus> {
        if text == "Initialized"@ {
            Some(TransactionStatus::Initialized)
        } else if text == "Confirmed"@ {
            Some(TransactionStatus::Confirmed)
        } else if text == "Declined"@ {
            Some(TransactionStatus::Declined)
        } else if text == "Cancelled"@ {
            Some(TransactionStatus::Cancelled)
        } else if text == "InternalError"@ {
            Some(TransactionStatus::InternalError)
        } else if text == "Log"@ {
            Some(TransactionStatus::Log)
        } else {
            None
        }
    }

    /// The status a transaction must have had before it takes this one.
    pub open spec fn required_predecessor(self) -> Option<TransactionStatus> {
        match self {
            TransactionStatus::Initialized => None,
            TransactionStatus::Confirmed => Some(TransactionStatus::Initialized),
            TransactionStatus::Declined => Some(TransactionStatus::Initialized),
            TransactionStatus::Cancelled => Some(TransactionStatus::Initialized),
            TransactionStatus::InternalError => Some(TransactionStatus::Initialized),
            TransactionStatus::Log => None,
        }
    }

    /// Whether a transaction may go from `from` to `to`.
    pub open spec fn may_follow(from: TransactionStatus, to: TransactionStatus) -> bool {
        to.required_predecessor() == Some(from)
    }

    /// Reads a status from its stored name.
    pub fn from_string(input: String) -> (r: Option<Self>)
        ensures
            r == Self::named(input@),
    {
        if input == String::from_str("Initialized") {
            Some(Self::Initialized)
        } else if input == String::from_str("Confirmed") {
            Some(Self::Confirmed)
        } else if input == String::from_str("Declined") {
            Some(Self::Declined)
        } else if input == String::from_str("Cancelled") {
            Some(Self::Cancelled)
        } else if input == String::from_str("InternalError") {
            Some(Self::InternalError)
        } else if input == String::from_str("Log") {
            Some(Self::Log)
        } else {
            None
        }
    }

    /// The name under which the status is stored.
    pub fn to_string(&self) -> (r: String)
        ensures
            r@ == self.name(),
    {
        match self {
            Self::Initialized => String::from_str("Initialized"),
            Self::Confirmed => String::from_str("Confirmed"),
            Self::Declined => String::from_str("Declined"),
            Self::Cancelled => String::from_str("Cancelled"),
            Self::InternalError => String::from_str("InternalError"),
            Self::Log => String::from_str("Log"),
        }
    }

    /// The status a transaction must have had before it takes this one:
    /// `Initialized` for every status that ends a transaction, none for
    /// `Initialized` itself and for `Log`.
    pub fn previous_state(&self) -> (r: Option<Self>)
        ensures
            r == self.required_predecessor(),
    {
        match self {
            Self::Initialized => None,
            Self::Confirmed => Some(Self::Initialized),
            Self::Declined => Some(Self::Initialized),
            Self::Cancelled => Some(Self::Initialized),
            Self::InternalError => Some(Self::Initialized),
            Self::Log => None,
        }
    }
}

/// Every status is read back from its own name.
pub proof fn lemma_status_name_round_trip(status: TransactionStatus)
    ensures
        TransactionStatus::named(status.name()) == Some(status),
{
    reveal_strlit("Initialized");
    reveal_strlit("Confirmed");
    reveal_strlit("Declined");
    reveal_strlit("Cancelled");
    reveal_strlit("InternalError");
    reveal_strlit("Log");
    assert("Initialized"@.len() == 11);
    assert("Confirmed"@.len() == 9);
    assert("Declined"@.len() == 8);
    assert("Cancelled"@.len() == 9);
    assert("InternalError"@.len() == 13);
    assert("Log"@.len() == 3);
    assert("Confirmed"@[1] == 'o' && "Cancelled"@[1] == 'a');
}

/// No transition leaves a status that ends a transaction: only `Initialized`
/// is ever a required predecessor.
pub proof fn lemma_only_initialized_moves_on(from: TransactionStatus, to: TransactionStatus)
    requires
        TransactionStatus::may_follow(from, to),
    ensures
        from == TransactionStatus::Initialized,
        to != TransactionStatus::Initialized,
        to != TransactionStatus::Log,
{
}

/// A recorded attempt to move an amount against a wallet.
#[derive(Debug)]
pub struct Transaction {
    /// The row's identifier; zero until the transaction is stored.
    pub id: u64,
    /// The wallet, once one has been found for the request.
    pub wallets_id: Option<u64>,
    /// The movement: positive for a credit, negative for a debit.
    pub amount: Amount,
    pub status: TransactionStatus,
    /// The handle by which the client confirms the transaction.
    pub token: Option<String>,
    /// Why the attempt did not complete, if it did not.
    pub errors: Option<String>,
}

/// What a transaction is to the contracts.
pub struct TransactionView {
    pub id: u64,
    pub wallets_id: Option<u64>,
    pub amount: int,
    pub status: TransactionStatus,
    pub token: Option<Seq<char>>,
    pub errors: Option<Seq<char>>,
}

impl View for Transaction {
    type V = TransactionView;

    open spec fn view(&self) -> TransactionView {
        TransactionView {
            id: self.id,
            wallets_id: self.wallets_id,
            amount: self.amount@,
            status: self.status,
            token: text_of(self.token),
            errors: text_of(self.errors),
        }
    }
}

impl Clone for Transaction {
    fn clone(&self) -> (r: Self)
        ensures
            r == *self,
    {
        Transaction {
            id: self.id,
            wallets_id: self.wallets_id,
            amount: self.amount,
            status: self.status,
            token: self.token.clone(),
            errors: self.errors.clone(),
        }
    }
}

/// The text with which a zero amount is refused.
pub open spec fn zero_amount_message() -> Seq<char> {
    "Amount cannot be zero for transaction"@
}

/// A transaction as `Transaction::new` makes it.
pub open spec fn new_transaction(amount: int) -> TransactionView {
    TransactionView {
        id: 0,
        wallets_id: None,
        amount,
        status: TransactionStatus::Initialized,
        token: None,
        errors: None,
    }
}

/// What holds of every stored row: an `Initialized` transaction has a token
/// and a wallet, a `Log` row has neither.
pub open spec fn row_invariant(row: TransactionView) -> bool {
    &&& row.status == TransactionStatus::Initialized ==> row.token is Some && row.wallets_id is Some
    &&& row.status == TransactionStatus::Log ==> row.token is None && row.wallets_id is None
}

/// The answer of `validate_previous_status`: `Some(false)` where the status
/// `current` requires a predecessor other than `previous`, else `None`.
pub open spec fn predecessor_verdict(
    current: TransactionStatus,
    previous: TransactionStatus,
) -> Option<bool> {
    match current.required_predecessor() {
        Some(required) => if previous != required {
            Some(false)
        } else {
            None
        },
        None => None,
    }
}

impl Transaction {
    /// A new transaction for `amount`: `Initialized`, not yet stored, with no
    /// wallet and no token.
    pub fn new(amount: Amount) -> (r: Self)
        ensures
            r@ == new_transaction(amount@),
            r.amount == amount,
    {
        Transaction {
            id: 0,
            wallets_id: None,
            amount,
            token: None,
            status: TransactionStatus::default(),
            errors: None,
        }
    }

    /// Why the transaction cannot be carried out, if it cannot: a zero
    /// amount moves nothing.
    pub fn validate(&self) -> (r: Option<String>)
        ensures
            self.amount@ == 0 ==> text_of(r) == Some(zero_amount_message()),
            self.amount@ != 0 ==> r is None,
    {
        if self.amount.is_zero() {
            return Some(String::from_str("Amount cannot be zero for transaction"));
        }
        None
    }

    /// Holds the status the transaction had before, `previous_status`,
    /// against the one its present status requires: `Some(false)` where they
    /// differ, `None` where they agree or nothing is required.
    pub fn validate_previous_status(&self, previous_status: TransactionStatus) -> (r: Option<bool>)
        ensures
            r == predecessor_verdict(self.status, previous_status),
    {
        let previous_valid_status = self.status.previous_state();
        if let Some(previous_valid) = previous_valid_status {
            if previous_status != previous_valid {
                return Some(false);
            }
        }
        None
    }

    /// Gives the transaction a fresh random token.
    pub fn generate_token(&mut self)
        ensures
            final(self).token matches Some(token) && is_token(token@),
            final(self).id == old(self).id,
            final(self).wallets_id == old(self).wallets_id,
            final(self).amount == old(self).amount,
            final(self).status == old(self).status,
            final(self).errors == old(self).errors,
    {
        self.token = Some(fresh_token());
    }
}

} // verus!
