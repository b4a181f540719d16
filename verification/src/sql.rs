//! The statements that carry a request to a MySQL store, and the reading of
//! what comes back.
//!
//! A statement is text with `?` where a value goes, and the values in order.
//! Sending it is not done here.

use crate::amount::Amount;
use crate::store::{Answer, AnswerView, Request, RequestView, StoreError};
use crate::text::text_of;
use crate::transaction::{Transaction, TransactionStatus, TransactionView};
use crate::wallet::{Wallet, WalletView};
use vstd::prelude::*;
use vstd::string::*;

verus! {

/// A value bound to a `?` of a statement.
#[derive(Debug)]
pub enum Param {
    /// SQL `NULL`.
    Null,
    /// An identifier.
    Id(u64),
    /// A decimal amount.
    Amount(Amount),
    /// A text.
    Text(String),
}

/// What a parameter is to the contracts.
pub enum ParamView {
    Null,
    Id(u64),
    Amount(int),
    Text(Seq<char>),
}

impl View for Param {
    type V = ParamView;

    open spec fn view(&self) -> ParamView {
        match self {
            Param::Null => ParamView::Null,
            Param::Id(id) => ParamView::Id(*id),
            Param::Amount(amount) => ParamView::Amount(amount@),
            Param::Text(text) => ParamView::Text(text@),
        }
    }
}

/// A statement and its parameters.
#[derive(Debug)]
pub struct Statement {
    pub sql: String,
    pub params: Vec<Param>,
}

/// What a statement is to the contracts.
pub struct StatementView {
    pub sql: Seq<char>,
    pub params: Seq<ParamView>,
}

impl View for Statement {
    type V = StatementView;

    open spec fn view(&self) -> StatementView {
        StatementView {
            sql: self.sql@,
            params: Seq::new(self.params@.len(), |i: int| self.params@[i]@),
        }
    }
}

/// The parameter for an identifier that may be absent.
pub open spec fn id_or_null(id: Option<u64>) -> ParamView {
    match id {
        Some(id) => ParamView::Id(id),
        None => ParamView::Null,
    }
}

/// The parameter for a text that may be absent.
pub open spec fn text_or_null(text: Option<Seq<char>>) -> ParamView {
    match text {
        Some(text) => ParamView::Text(text),
        None => ParamView::Null,
    }
}

/// The statement that reads every wallet.
pub open spec fn select_all_wallets() -> StatementView {
    StatementView { sql: "SELECT * FROM wallets"@, params: seq![] }
}

/// The statement that reads one wallet.
pub open spec fn select_wallet(wallet_id: u64) -> StatementView {
    StatementView {
        sql: "SELECT * FROM wallets WHERE ID = ?;"@,
        params: seq![ParamView::Id(wallet_id)],
    }
}

/// The statement that adjusts a balance. It is one `UPDATE`, so the store
/// checks and changes the balance in one step: a credit always applies, a
/// debit only where it leaves the balance at zero or above.
pub open spec fn adjust_wallet(wallet_id: u64, delta: int) -> StatementView {
    StatementView {
        sql: "UPDATE `wallets` SET `balance` = `balance` + ? WHERE `ID` = ? AND (? >= 0 OR `balance` + ? >= 0);"@,
        params: seq![
            ParamView::Amount(delta),
            ParamView::Id(wallet_id),
            ParamView::Amount(delta),
            ParamView::Amount(delta),
        ],
    }
}

/// The statement that reads the transaction of a wallet and a token.
pub open spec fn select_transaction(wallets_id: u64, token: Seq<char>) -> StatementView {
    StatementView {
        sql: "SELECT * FROM `transactions` WHERE `wallets_ID` = ? AND `token` = ?;"@,
        params: seq![ParamView::Id(wallets_id), ParamView::Text(token)],
    }
}

/// The statement that stores a transaction that has the token `token`.
pub open spec fn insert_transaction(
    transaction: TransactionView,
    token: Seq<char>,
) -> StatementView {
    StatementView {
        sql: "INSERT INTO `transactions`(`wallets_ID`, `amount`, `status`, `token`) VALUES(?, ?, ?, ?);"@,
        params: seq![
            id_or_null(transaction.wallets_id),
            ParamView::Amount(transaction.amount),
            ParamView::Text(transaction.status.name()),
            ParamView::Text(token),
        ],
    }
}

/// The statement that stores an audit row.
pub open spec fn log_transaction(transaction: TransactionView) -> StatementView {
    StatementView {
        sql: "INSERT INTO `transactions`(`amount`, `status`, `errors`) VALUES(?, ?, ?);"@,
        params: seq![
            ParamView::Amount(transaction.amount),
            ParamView::Text(TransactionStatus::Log.name()),
            text_or_null(transaction.errors),
        ],
    }
}

/// The statement that gives a stored transaction its status and, where it
/// has one, its error text, provided that the row still has the status
/// `expected`.
pub open spec fn update_transaction(
    transaction: TransactionView,
    expected: TransactionStatus,
) -> StatementView {
    match transaction.errors {
        Some(errors) => StatementView {
            sql: "UPDATE `transactions` SET `status` = ?"@ + ", `errors` = ?"@
                + " WHERE `ID` = ? AND `status` = ?;"@,
            params: seq![
                ParamView::Text(transaction.status.name()),
                ParamView::Text(errors),
                ParamView::Id(transaction.id),
                ParamView::Text(expected.name()),
            ],
        },
        None => StatementView {
            sql: "UPDATE `transactions` SET `status` = ?"@ + " WHERE `ID` = ? AND `status` = ?;"@,
            params: seq![
                ParamView::Text(transaction.status.name()),
                ParamView::Id(transaction.id),
                ParamView::Text(expected.name()),
            ],
        },
    }
}

/// The statement for a request, or why there is none: a balance is not
/// adjusted for the wallet identifier zero, a transaction is not stored
/// without a token, and one that was never stored is not updated.
pub open spec fn statement_for(request: RequestView) -> Result<StatementView, StoreError> {
    match request {
        RequestView::FindWallet { wallets_id } => Ok(select_wallet(wallets_id)),
        RequestView::LogRejection { transaction } => Ok(log_transaction(transaction)),
        RequestView::InsertTransaction { transaction } => match transaction.token {
            Some(token) => Ok(insert_transaction(transaction, token)),
            None => Err(StoreError::MissingToken),
        },
        RequestView::AdjustBalance { wallets_id, delta } => if wallets_id == 0 {
            Err(StoreError::ZeroWalletId)
        } else {
            Ok(adjust_wallet(wallets_id, delta))
        },
        RequestView::UpdateStatus { transaction, expected } => if transaction.id == 0 {
            Err(StoreError::ZeroTransactionId)
        } else {
            Ok(update_transaction(transaction, expected))
        },
        RequestView::FindTransaction { wallets_id, token } => Ok(
            select_transaction(wallets_id, token),
        ),
    }
}

/// The view of the result of a statement builder.
pub open spec fn built(result: Result<Statement, StoreError>) -> Result<StatementView, StoreError> {
    match result {
        Ok(statement) => Ok(statement@),
        Err(error) => Err(error),
    }
}

fn text_param(text: &Option<String>) -> (r: Param)
    ensures
        r@ == text_or_null(text_of(*text)),
{
    match text {
        Some(text) => Param::Text(text.clone()),
        None => Param::Null,
    }
}

impl Wallet {
    /// The statement that reads every wallet.
    pub fn select_all() -> (r: Statement)
        ensures
            r@ == select_all_wallets(),
    {
        let r = Statement { sql: String::from_str("SELECT * FROM wallets"), params: Vec::new() };
        assert(r@.params =~= seq![]);
        r
    }

    /// The statement that reads the wallet `wallet_id`.
    pub fn select_by_id(wallet_id: u64) -> (r: Statement)
        ensures
            r@ == select_wallet(wallet_id),
    {
        let mut params: Vec<Param> = Vec::new();
        params.push(Param::Id(wallet_id));
        let r = Statement { sql: String::from_str("SELECT * FROM wallets WHERE ID = ?;"), params };
        assert(r@.params =~= seq![ParamView::Id(wallet_id)]);
        r
    }

    /// The statement that adds `requested_amount` to the balance of the
    /// wallet `wallet_id`; an error for the identifier zero.
    pub fn affect_balance(wallet_id: u64, requested_amount: Amount) -> (r: Result<
        Statement,
        StoreError,
    >)
        ensures
            built(r) == statement_for(
                RequestView::AdjustBalance { wallets_id: wallet_id, delta: requested_amount@ },
            ),
    {
        if wallet_id == 0 {
            return Err(StoreError::ZeroWalletId);
        }
        let mut params: Vec<Param> = Vec::new();
        params.push(Param::Amount(requested_amount));
        params.push(Param::Id(wallet_id));
        params.push(Param::Amount(requested_amount));
        params.push(Param::Amount(requested_amount));
        let r = Statement {
            sql: String::from_str(
                "UPDATE `wallets` SET `balance` = `balance` + ? WHERE `ID` = ? AND (? >= 0 OR `balance` + ? >= 0);",
            ),
            params,
        };
        assert(r@.params =~= adjust_wallet(wallet_id, requested_amount@).params);
        Ok(r)
    }
}

impl Transaction {
    /// The statement that reads the transaction that the wallet `wallets_id`
    /// has under `token`.
    pub fn select_by_token_and_wallets_id(wallets_id: u64, token: String) -> (r: Statement)
        ensures
            r@ == select_transaction(wallets_id, token@),
    {
        let mut params: Vec<Param> = Vec::new();
        params.push(Param::Id(wallets_id));
        params.push(Param::Text(token));
        let r = Statement {
            sql: String::from_str(
                "SELECT * FROM `transactions` WHERE `wallets_ID` = ? AND `token` = ?;",
            ),
            params,
        };
        assert(r@.params =~= select_transaction(wallets_id, token@).params);
        r
    }

    /// The statement that stores the transaction; an error where it has no
    /// token.
    pub fn insert(&self) -> (r: Result<Statement, StoreError>)
        ensures
            built(r) == statement_for(RequestView::InsertTransaction { transaction: self@ }),
    {
        let Some(token) = self.token.clone() else {
            return Err(StoreError::MissingToken);
        };
        let mut params: Vec<Param> = Vec::new();
        params.push(
            match self.wallets_id {
                Some(id) => Param::Id(id),
                None => Param::Null,
            },
        );
        params.push(Param::Amount(self.amount));
        params.push(Param::Text(self.status.to_string()));
        params.push(Param::Text(token));
        let r = Statement {
            sql: String::from_str(
                "INSERT INTO `transactions`(`wallets_ID`, `amount`, `status`, `token`) VALUES(?, ?, ?, ?);",
            ),
            params,
        };
        assert(r@.params =~= insert_transaction(self@, token@).params);
        Ok(r)
    }

    /// The statement that stores the audit row of the transaction.
    pub fn log(&self) -> (r: Statement)
        ensures
            r@ == log_transaction(self@),
    {
        let mut params: Vec<Param> = Vec::new();
        params.push(Param::Amount(self.amount));
        params.push(Param::Text(TransactionStatus::Log.to_string()));
        params.push(text_param(&self.errors));
        let r = Statement {
            sql: String::from_str(
                "INSERT INTO `transactions`(`amount`, `status`, `errors`) VALUES(?, ?, ?);",
            ),
            params,
        };
        assert(r@.params =~= log_transaction(self@).params);
        r
    }

    /// The statement that gives the stored transaction its status and, where
    /// it has one, its error text, provided that the row still has the
    /// status `expected`; an error where the transaction was never stored.
    pub fn update_status_and_error(&self, expected: TransactionStatus) -> (r: Result<
        Statement,
        StoreError,
    >)
        ensures
            built(r) == statement_for(
                RequestView::UpdateStatus { transaction: self@, expected },
            ),
    {
        if self.id == 0 {
            return Err(StoreError::ZeroTransactionId);
        }
        let mut query = String::from_str("UPDATE `transactions` SET `status` = ?");
        let mut params: Vec<Param> = Vec::new();
        params.push(Param::Text(self.status.to_string()));
        if let Some(error) = &self.errors {
            query.append(", `errors` = ?");
            params.push(Param::Text(error.clone()));
        }
        query.append(" WHERE `ID` = ? AND `status` = ?;");
        params.push(Param::Id(self.id));
        params.push(Param::Text(expected.to_string()));
        let r = Statement { sql: query, params };
        assert(r@.params =~= update_transaction(self@, expected).params);
        Ok(r)
    }
}

impl Request {
    /// The statement that carries the request to the store, or why there is
    /// none (`statement_for`).
    pub fn statement(&self) -> (r: Result<Statement, StoreError>)
        ensures
            built(r) == statement_for(self@),
    {
        match self {
            Request::FindWallet { wallets_id } => Ok(Wallet::select_by_id(*wallets_id)),
            Request::LogRejection { transaction } => Ok(transaction.log()),
            Request::InsertTransaction { transaction } => transaction.insert(),
            Request::AdjustBalance { wallets_id, delta } => Wallet::affect_balance(
                *wallets_id,
                *delta,
            ),
            Request::UpdateStatus { transaction, expected } => transaction.update_status_and_error(
                *expected,
            ),
            Request::FindTransaction { wallets_id, token } => Ok(
                Transaction::select_by_token_and_wallets_id(*wallets_id, token.clone()),
            ),
        }
    }
}

/// What the statement of a request brings back when it runs.
#[derive(Debug, Clone, Copy, PartialEq, Eq, Structural)]
pub enum Yields {
    /// A row of the wallet table, if there is one.
    Wallet,
    /// A row of the transaction table, if there is one.
    Transaction,
    /// No row: the statement writes.
    Written,
}

/// What the statement of `request` brings back: the two lookups read a row,
/// every other request writes.
pub open spec fn yields_for(request: RequestView) -> Yields {
    match request {
        RequestView::FindWallet { .. } => Yields::Wallet,
        RequestView::FindTransaction { .. } => Yields::Transaction,
        RequestView::LogRejection { .. } => Yields::Written,
        RequestView::InsertTransaction { .. } => Yields::Written,
        RequestView::AdjustBalance { .. } => Yields::Written,
        RequestView::UpdateStatus { .. } => Yields::Written,
    }
}

impl Request {
    /// What the statement of the request brings back (`yields_for`): whoever
    /// sends the statement reads a row or the counts of a write accordingly.
    pub fn yields(&self) -> (r: Yields)
        ensures
            r == yields_for(self@),
    {
        match self {
            Request::FindWallet { .. } => Yields::Wallet,
            Request::FindTransaction { .. } => Yields::Transaction,
            Request::LogRejection { .. } => Yields::Written,
            Request::InsertTransaction { .. } => Yields::Written,
            Request::AdjustBalance { .. } => Yields::Written,
            Request::UpdateStatus { .. } => Yields::Written,
        }
    }
}

/// What came back from the store for a statement.
#[derive(Debug)]
pub enum Outcome {
    /// A statement that reads a wallet ran; this is the row, if there was one.
    Wallet(Option<Wallet>),
    /// A statement that reads a transaction ran; this is the row, if there
    /// was one.
    Transaction(Option<Transaction>),
    /// A statement that writes ran: the number of rows it changed, and the
    /// identifier of a row it inserted.
    Written { affected_rows: u64, last_insert_id: u64 },
    /// The statement did not run.
    Failed(StoreError),
}

/// What an outcome is to the contracts.
pub enum OutcomeView {
    Wallet(Option<WalletView>),
    Transaction(Option<TransactionView>),
    Written { affected_rows: u64, last_insert_id: u64 },
    Failed(StoreError),
}

impl View for Outcome {
    type V = OutcomeView;

    open spec fn view(&self) -> OutcomeView {
        match self {
            Outcome::Wallet(Some(wallet)) => OutcomeView::Wallet(Some(wallet@)),
            Outcome::Wallet(None) => OutcomeView::Wallet(None),
            Outcome::Transaction(Some(transaction)) => OutcomeView::Transaction(Some(transaction@)),
            Outcome::Transaction(None) => OutcomeView::Transaction(None),
            Outcome::Written { affected_rows, last_insert_id } => OutcomeView::Written {
                affected_rows: *affected_rows,
                last_insert_id: *last_insert_id,
            },
            Outcome::Failed(error) => OutcomeView::Failed(*error),
        }
    }
}

/// The kind of an outcome; a failure has none.
pub open spec fn outcome_kind(outcome: OutcomeView) -> Option<Yields> {
    match outcome {
        OutcomeView::Wallet(_) => Some(Yields::Wallet),
        OutcomeView::Transaction(_) => Some(Yields::Transaction),
        OutcomeView::Written { .. } => Some(Yields::Written),
        OutcomeView::Failed(_) => None,
    }
}

/// Whether the answer reports that the store carried the request out.
pub open spec fn is_carried_out(answer: AnswerView) -> bool {
    match answer {
        AnswerView::Wallet(outcome) => outcome is Ok,
        AnswerView::Logged(outcome) => outcome is Ok,
        AnswerView::Inserted(outcome) => outcome is Ok,
        AnswerView::Adjusted(outcome) => outcome is Ok,
        AnswerView::Updated(outcome) => outcome is Ok,
        AnswerView::Transaction(outcome) => outcome is Ok,
    }
}

/// An outcome is read as carried out exactly where it is of the kind that the
/// statement brings back; one of another kind counts as a malformed row.
pub proof fn lemma_outcomes_are_read_by_kind(request: RequestView, outcome: OutcomeView)
    ensures
        is_carried_out(answer_for(request, outcome)) <==> outcome_kind(outcome) == Some(
            yields_for(request),
        ),
        outcome_kind(outcome) is Some && outcome_kind(outcome) != Some(yields_for(request))
            ==> answer_for(request, outcome) == failed_answer(request, StoreError::Malformed),
{
}

/// The answer to `request` that reports the failure `error`.
pub open spec fn failed_answer(request: RequestView, error: StoreError) -> AnswerView {
    match request {
        RequestView::FindWallet { .. } => AnswerView::Wallet(Err(error)),
        RequestView::LogRejection { .. } => AnswerView::Logged(Err(error)),
        RequestView::InsertTransaction { .. } => AnswerView::Inserted(Err(error)),
        RequestView::AdjustBalance { .. } => AnswerView::Adjusted(Err(error)),
        RequestView::UpdateStatus { .. } => AnswerView::Updated(Err(error)),
        RequestView::FindTransaction { .. } => AnswerView::Transaction(Err(error)),
    }
}

/// The answer to `request`, given what came back for its statement. A read
/// answers with the row. An insert answers with the new identifier; every
/// other write with whether it changed a row. A failure is handed on, and an
/// outcome of the wrong kind counts as a row that could not be read.
pub open spec fn answer_for(request: RequestView, outcome: OutcomeView) -> AnswerView {
    match (request, outcome) {
        (_, OutcomeView::Failed(error)) => failed_answer(request, error),
        (RequestView::FindWallet { .. }, OutcomeView::Wallet(wallet)) => AnswerView::Wallet(
            Ok(wallet),
        ),
        (
            RequestView::LogRejection { .. },
            OutcomeView::Written { affected_rows, .. },
        ) => AnswerView::Logged(Ok(affected_rows > 0)),
        (
            RequestView::InsertTransaction { .. },
            OutcomeView::Written { last_insert_id, .. },
        ) => AnswerView::Inserted(Ok(last_insert_id)),
        (
            RequestView::AdjustBalance { .. },
            OutcomeView::Written { affected_rows, .. },
        ) => AnswerView::Adjusted(Ok(affected_rows > 0)),
        (
            RequestView::UpdateStatus { .. },
            OutcomeView::Written { affected_rows, .. },
        ) => AnswerView::Updated(Ok(affected_rows > 0)),
        (
            RequestView::FindTransaction { .. },
            OutcomeView::Transaction(transaction),
        ) => AnswerView::Transaction(Ok(transaction)),
        _ => failed_answer(request, StoreError::Malformed),
    }
}

impl Request {
    fn failed(&self, error: StoreError) -> (r: Answer)
        ensures
            r@ == failed_answer(self@, error),
    {
        match self {
            Request::FindWallet { .. } => Answer::Wallet(Err(error)),
            Request::LogRejection { .. } => Answer::Logged(Err(error)),
            Request::InsertTransaction { .. } => Answer::Inserted(Err(error)),
            Request::AdjustBalance { .. } => Answer::Adjusted(Err(error)),
            Request::UpdateStatus { .. } => Answer::Updated(Err(error)),
            Request::FindTransaction { .. } => Answer::Transaction(Err(error)),
        }
    }

    /// The answer to the request, given what came back for its statement
    /// (`answer_for`).
    pub fn answer(&self, outcome: Outcome) -> (r: Answer)
        ensures
            r@ == answer_for(self@, outcome@),
    {
        match outcome {
            Outcome::Failed(error) => self.failed(error),
            Outcome::Wallet(wallet) => match self {
                Request::FindWallet { .. } => Answer::Wallet(Ok(wallet)),
                _ => self.failed(StoreError::Malformed),
            },
            Outcome::Transaction(transaction) => match self {
                Request::FindTransaction { .. } => Answer::Transaction(Ok(transaction)),
                _ => self.failed(StoreError::Malformed),
            },
            Outcome::Written { affected_rows, last_insert_id } => match self {
                Request::LogRejection { .. } => Answer::Logged(Ok(affected_rows > 0)),
                Request::InsertTransaction { .. } => Answer::Inserted(Ok(last_insert_id)),
                Request::AdjustBalance { .. } => Answer::Adjusted(Ok(affected_rows > 0)),
                Request::UpdateStatus { .. } => Answer::Updated(Ok(affected_rows > 0)),
                _ => self.failed(StoreError::Malformed),
            },
        }
    }
}

impl Wallet {
    /// The wallet of a row of the wallet table.
    pub fn from_row(id: u64, balance: Amount) -> (r: Wallet)
        ensures
            r.id == id,
            r.balance == balance,
    {
        Wallet { id, balance }
    }
}

impl Transaction {
    /// The transaction of a row of the transaction table, where the row's
    /// status is the name of one; otherwise the row is malformed.
    pub fn from_row_opt(
        id: u64,
        wallets_id: Option<u64>,
        amount: Amount,
        status: String,
        token: Option<String>,
        errors: Option<String>,
    ) -> (r: Result<Transaction, StoreError>)
        ensures
            match TransactionStatus::named(status@) {
                Some(read) => r matches Ok(transaction) && transaction@ == (TransactionView {
                    id,
                    wallets_id,
                    amount: amount@,
                    status: read,
                    token: text_of(token),
                    errors: text_of(errors),
                }),
                None => r == Err::<Transaction, StoreError>(StoreError::Malformed),
            },
    {
        match TransactionStatus::from_string(status) {
            Some(status) => Ok(Transaction { id, wallets_id, amount, status, token, errors }),
            None => Err(StoreError::Malformed),
        }
    }
}

} // verus!
