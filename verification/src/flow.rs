//! The two flows of the ledger, as state machines.
//!
//! Creating a transaction and confirming one each take several operations on
//! the store, and what the next operation is depends on what the store
//! answered to the last. A flow holds what has been decided so far. It is
//! given the store's answer and says what to do next: another request to the
//! store, or the reply that ends the flow.

use crate::amount::Amount;
use crate::reply::{Reply, ReplyView};
use crate::store::{Answer, AnswerView, Request, RequestView, StoreError};
use crate::text::{decimal_text, u64_text};
use crate::token::{fresh_token, is_token, lemma_token_exists};
use crate::transaction::{
    new_transaction, predecessor_verdict, Transaction, TransactionStatus, TransactionView,
};
use crate::wallet::{stays_solvent, Wallet, WalletView};
use vstd::prelude::*;
use vstd::string::*;

verus! {

/// What a flow wants done next.
#[derive(Debug)]
pub enum Step {
    /// Carry this request out and come back with the answer.
    Ask(Request),
    /// The flow has ended with this reply.
    Finish(Reply),
}

/// What a step is to the contracts.
pub enum StepView {
    Ask(RequestView),
    Finish(ReplyView),
}

impl View for Step {
    type V = StepView;

    open spec fn view(&self) -> StepView {
        match self {
            Step::Ask(request) => StepView::Ask(request@),
            Step::Finish(reply) => StepView::Finish(reply@),
        }
    }
}

/// How far the creation of a transaction has come.
#[derive(Debug, Clone, Copy, PartialEq, Eq, Structural)]
pub enum CreatePhase {
    /// The wallet is being looked up.
    AwaitWallet,
    /// The wallet does not exist; the rejection is being recorded.
    AwaitLog,
    /// The transaction is being stored.
    AwaitInsert,
    /// The balance is being adjusted.
    AwaitAdjust,
    /// The balance was not adjusted; the transaction is being marked.
    AwaitRollback,
    /// The flow has ended.
    Done,
}

/// The creation of one transaction.
#[derive(Debug)]
pub struct CreateFlow {
    pub phase: CreatePhase,
    /// The wallet that the request names.
    pub wallets_id: u64,
    /// The transaction as far as it has been built.
    pub transaction: Transaction,
}

/// What a creation flow is to the contracts.
pub struct CreateFlowView {
    pub phase: CreatePhase,
    pub wallets_id: u64,
    pub transaction: TransactionView,
}

impl View for CreateFlow {
    type V = CreateFlowView;

    open spec fn view(&self) -> CreateFlowView {
        CreateFlowView {
            phase: self.phase,
            wallets_id: self.wallets_id,
            transaction: self.transaction@,
        }
    }
}

/// The error text of the audit row for a wallet that does not exist.
pub open spec fn unknown_wallet_note(wallets_id: u64) -> Seq<char> {
    "Invalid wallet received with ID: "@ + decimal_text(wallets_id as nat)
}

/// The error text of a transaction whose balance adjustment did not apply.
pub open spec fn rollback_note(outcome: Result<bool, StoreError>) -> Seq<char> {
    match outcome {
        Ok(_) => "Could not affect wallet balance"@,
        Err(_) => "MySql error while affecting wallet balance"@,
    }
}

/// A creation flow as it begins: the transaction is new and the wallet is
/// to be looked up.
pub open spec fn create_start(wallets_id: u64, amount: int) -> (CreateFlowView, StepView) {
    (
        CreateFlowView {
            phase: CreatePhase::AwaitWallet,
            wallets_id,
            transaction: new_transaction(amount),
        },
        StepView::Ask(RequestView::FindWallet { wallets_id }),
    )
}

/// The flow ends with `reply`.
pub open spec fn create_end(flow: CreateFlowView, reply: ReplyView) -> (CreateFlowView, StepView) {
    (CreateFlowView { phase: CreatePhase::Done, ..flow }, StepView::Finish(reply))
}

/// The wallet exists. A zero amount, and a debit that would leave the balance
/// below zero (`stays_solvent`), end the flow with nothing stored; otherwise
/// the transaction takes the token and the wallet and is to be stored.
pub open spec fn create_on_wallet(flow: CreateFlowView, wallet: WalletView, token: Seq<char>) -> (
    CreateFlowView,
    StepView,
) {
    if flow.transaction.amount == 0 {
        create_end(flow, ReplyView::InvalidAmount)
    } else if !stays_solvent(wallet.balance, flow.transaction.amount) {
        create_end(flow, ReplyView::InsufficientBalance)
    } else {
        let transaction = TransactionView {
            token: Some(token),
            wallets_id: Some(wallet.id),
            ..flow.transaction
        };
        (
            CreateFlowView { phase: CreatePhase::AwaitInsert, transaction, ..flow },
            StepView::Ask(RequestView::InsertTransaction { transaction }),
        )
    }
}

/// The transaction is stored under `id`: the balance is to be adjusted by
/// the transaction's amount.
pub open spec fn create_on_inserted(flow: CreateFlowView, id: u64) -> (CreateFlowView, StepView) {
    let transaction = TransactionView { id, ..flow.transaction };
    match transaction.wallets_id {
        Some(wallets_id) => (
            CreateFlowView { phase: CreatePhase::AwaitAdjust, transaction, ..flow },
            StepView::Ask(RequestView::AdjustBalance { wallets_id, delta: transaction.amount }),
        ),
        None => create_end(CreateFlowView { transaction, ..flow }, ReplyView::Inconsistent),
    }
}

/// The balance was not adjusted: the stored transaction is to be marked
/// `InternalError`, with the reason, provided that it was `Initialized`.
pub open spec fn create_roll_back(flow: CreateFlowView, outcome: Result<bool, StoreError>) -> (
    CreateFlowView,
    StepView,
) {
    let previous = flow.transaction.status;
    let transaction = TransactionView {
        errors: Some(rollback_note(outcome)),
        status: TransactionStatus::InternalError,
        ..flow.transaction
    };
    if predecessor_verdict(TransactionStatus::InternalError, previous) == Some(false) {
        create_end(CreateFlowView { transaction, ..flow }, ReplyView::Inconsistent)
    } else {
        (
            CreateFlowView { phase: CreatePhase::AwaitRollback, transaction, ..flow },
            StepView::Ask(
                RequestView::UpdateStatus { transaction, expected: TransactionStatus::Initialized },
            ),
        )
    }
}

/// The balance was adjusted: the flow ends with the token.
pub open spec fn create_on_adjusted(flow: CreateFlowView) -> (CreateFlowView, StepView) {
    match flow.transaction.token {
        Some(token) => create_end(flow, ReplyView::Token(token)),
        None => create_end(flow, ReplyView::Inconsistent),
    }
}

/// The creation flow: from where the flow stands and what the store
/// answered, to where it stands next and what is to be done. `token` is the
/// token that the transaction takes if this is the step at which it takes
/// one.
///
/// - The wallet is looked up first. If the store fails, the flow ends with a
///   storage failure. If there is no such wallet, the rejection is recorded
///   in an audit row and, whatever becomes of that, the flow ends with
///   `UnknownWallet`.
/// - If the wallet exists, see `create_on_wallet`.
/// - Once the transaction is stored, the balance is adjusted. If that
///   changes the balance, the flow ends with the token. If it does not, the
///   transaction is marked `InternalError`; the flow then ends with a storage
///   failure if the mark was written and with `Inconsistent` if it was not.
/// - An answer that does not belong to the request that was made ends the
///   flow with a storage failure.
pub open spec fn create_next(flow: CreateFlowView, answer: AnswerView, token: Seq<char>) -> (
    CreateFlowView,
    StepView,
) {
    match (flow.phase, answer) {
        (CreatePhase::AwaitWallet, AnswerView::Wallet(Ok(Some(wallet)))) => create_on_wallet(
            flow,
            wallet,
            token,
        ),
        (CreatePhase::AwaitWallet, AnswerView::Wallet(Ok(None))) => {
            let transaction = TransactionView {
                errors: Some(unknown_wallet_note(flow.wallets_id)),
                ..flow.transaction
            };
            (
                CreateFlowView { phase: CreatePhase::AwaitLog, transaction, ..flow },
                StepView::Ask(RequestView::LogRejection { transaction }),
            )
        },
        (CreatePhase::AwaitLog, AnswerView::Logged(_)) => create_end(
            flow,
            ReplyView::UnknownWallet(flow.wallets_id),
        ),
        (CreatePhase::AwaitInsert, AnswerView::Inserted(Ok(id))) => create_on_inserted(flow, id),
        (CreatePhase::AwaitAdjust, AnswerView::Adjusted(Ok(true))) => create_on_adjusted(flow),
        (CreatePhase::AwaitAdjust, AnswerView::Adjusted(outcome)) => create_roll_back(
            flow,
            outcome,
        ),
        (CreatePhase::AwaitRollback, AnswerView::Updated(Ok(true))) => create_end(
            flow,
            ReplyView::StorageFailure,
        ),
        (CreatePhase::AwaitRollback, AnswerView::Updated(_)) => create_end(
            flow,
            ReplyView::Inconsistent,
        ),
        _ => create_end(flow, ReplyView::StorageFailure),
    }
}

/// How many requests a creation flow may still make.
pub open spec fn create_rank(phase: CreatePhase) -> nat {
    match phase {
        CreatePhase::AwaitWallet => 4,
        CreatePhase::AwaitInsert => 3,
        CreatePhase::AwaitAdjust => 2,
        CreatePhase::AwaitRollback => 1,
        CreatePhase::AwaitLog => 1,
        CreatePhase::Done => 0,
    }
}

/// A creation flow ends. Every step takes the flow nearer to its end, so it
/// makes four requests at most, and it has ended exactly when it gives a
/// reply.
pub proof fn lemma_create_ends(flow: CreateFlowView, answer: AnswerView, token: Seq<char>)
    ensures
        create_next(flow, answer, token).1 is Finish <==> create_next(flow, answer, token).0.phase
            == CreatePhase::Done,
        flow.phase != CreatePhase::Done ==> create_rank(create_next(flow, answer, token).0.phase)
            < create_rank(flow.phase),
{
}

/// Whether a step of a creation flow carries the amount on: the flow keeps
/// the amount of its transaction as it is written, and an adjustment asks for
/// that amount.
pub open spec fn carries_amount(amount: Amount, next: CreateFlow, step: Step) -> bool {
    &&& next.transaction.amount == amount
    &&& step matches Step::Ask(Request::AdjustBalance { delta, .. }) ==> delta == amount
}

impl CreateFlow {
    /// Begins the creation of a transaction of `amount` against the wallet
    /// `wallets_id`.
    pub fn start(wallets_id: u64, amount: Amount) -> (r: (CreateFlow, Step))
        ensures
            (r.0@, r.1@) == create_start(wallets_id, amount@),
            carries_amount(amount, r.0, r.1),
    {
        (
            CreateFlow {
                phase: CreatePhase::AwaitWallet,
                wallets_id,
                transaction: Transaction::new(amount),
            },
            Step::Ask(Request::FindWallet { wallets_id }),
        )
    }

    fn end(self, reply: Reply) -> (r: (CreateFlow, Step))
        ensures
            (r.0@, r.1@) == create_end(self@, reply@),
            carries_amount(self.transaction.amount, r.0, r.1),
    {
        (
            CreateFlow {
                phase: CreatePhase::Done,
                wallets_id: self.wallets_id,
                transaction: self.transaction,
            },
            Step::Finish(reply),
        )
    }

    fn on_wallet(self, wallet: Wallet, token: String) -> (r: (CreateFlow, Step))
        ensures
            (r.0@, r.1@) == create_on_wallet(self@, wallet@, token@),
            carries_amount(self.transaction.amount, r.0, r.1),
    {
        if self.transaction.validate().is_some() {
            return self.end(Reply::InvalidAmount);
        }
        if !wallet.validate_balance(self.transaction.amount) {
            return self.end(Reply::InsufficientBalance);
        }
        let mut transaction = self.transaction;
        transaction.token = Some(token);
        transaction.wallets_id = Some(wallet.id);
        let request = Request::InsertTransaction { transaction: transaction.clone() };
        (
            CreateFlow {
                phase: CreatePhase::AwaitInsert,
                wallets_id: self.wallets_id,
                transaction,
            },
            Step::Ask(request),
        )
    }

    fn on_unknown_wallet(self) -> (r: (CreateFlow, Step))
        requires
            self.phase == CreatePhase::AwaitWallet,
        ensures
            (r.0@, r.1@) == create_next(self@, AnswerView::Wallet(Ok(None)), Seq::empty()),
            carries_amount(self.transaction.amount, r.0, r.1),
    {
        let mut note = String::from_str("Invalid wallet received with ID: ");
        let number = u64_text(self.wallets_id);
        note.append(number.as_str());
        let mut transaction = self.transaction;
        transaction.errors = Some(note);
        let request = Request::LogRejection { transaction: transaction.clone() };
        (
            CreateFlow { phase: CreatePhase::AwaitLog, wallets_id: self.wallets_id, transaction },
            Step::Ask(request),
        )
    }

    fn on_inserted(self, id: u64) -> (r: (CreateFlow, Step))
        ensures
            (r.0@, r.1@) == create_on_inserted(self@, id),
            carries_amount(self.transaction.amount, r.0, r.1),
    {
        let mut transaction = self.transaction;
        transaction.id = id;
        match transaction.wallets_id {
            Some(wallets_id) => {
                let request = Request::AdjustBalance { wallets_id, delta: transaction.amount };
                (
                    CreateFlow {
                        phase: CreatePhase::AwaitAdjust,
                        wallets_id: self.wallets_id,
                        transaction,
                    },
                    Step::Ask(request),
                )
            },
            None => {
                let flow = CreateFlow {
                    phase: self.phase,
                    wallets_id: self.wallets_id,
                    transaction,
                };
                flow.end(Reply::Inconsistent)
            },
        }
    }

    fn on_adjusted(self) -> (r: (CreateFlow, Step))
        ensures
            (r.0@, r.1@) == create_on_adjusted(self@),
            carries_amount(self.transaction.amount, r.0, r.1),
    {
        match self.transaction.token.clone() {
            Some(token) => self.end(Reply::Token(token)),
            None => self.end(Reply::Inconsistent),
        }
    }

    fn roll_back(self, outcome: Result<bool, StoreError>) -> (r: (CreateFlow, Step))
        ensures
            (r.0@, r.1@) == create_roll_back(self@, outcome),
            carries_amount(self.transaction.amount, r.0, r.1),
    {
        let note = match outcome {
            Ok(_) => String::from_str("Could not affect wallet balance"),
            Err(_) => String::from_str("MySql error while affecting wallet balance"),
        };
        let previous = self.transaction.status;
        let mut transaction = self.transaction;
        transaction.errors = Some(note);
        transaction.status = TransactionStatus::InternalError;
        if transaction.validate_previous_status(previous) == Some(false) {
            let flow = CreateFlow { phase: self.phase, wallets_id: self.wallets_id, transaction };
            return flow.end(Reply::Inconsistent);
        }
        let request = Request::UpdateStatus {
            transaction: transaction.clone(),
            expected: TransactionStatus::Initialized,
        };
        (
            CreateFlow {
                phase: CreatePhase::AwaitRollback,
                wallets_id: self.wallets_id,
                transaction,
            },
            Step::Ask(request),
        )
    }

    /// Takes the flow one step on, given the store's answer to the request
    /// that the flow made last, and the token for the transaction to take if
    /// this is the step at which it takes one (`create_next`).
    pub fn advance_with(self, answer: Answer, token: String) -> (r: (CreateFlow, Step))
        ensures
            (r.0@, r.1@) == create_next(self@, answer@, token@),
            carries_amount(self.transaction.amount, r.0, r.1),
    {
        match self.phase {
            CreatePhase::AwaitWallet => match answer {
                Answer::Wallet(Ok(Some(wallet))) => self.on_wallet(wallet, token),
                Answer::Wallet(Ok(None)) => self.on_unknown_wallet(),
                _ => self.end(Reply::StorageFailure),
            },
            CreatePhase::AwaitLog => match answer {
                Answer::Logged(_) => {
                    let wallets_id = self.wallets_id;
                    self.end(Reply::UnknownWallet(wallets_id))
                },
                _ => self.end(Reply::StorageFailure),
            },
            CreatePhase::AwaitInsert => match answer {
                Answer::Inserted(Ok(id)) => self.on_inserted(id),
                _ => self.end(Reply::StorageFailure),
            },
            CreatePhase::AwaitAdjust => match answer {
                Answer::Adjusted(Ok(true)) => self.on_adjusted(),
                Answer::Adjusted(outcome) => self.roll_back(outcome),
                _ => self.end(Reply::StorageFailure),
            },
            CreatePhase::AwaitRollback => match answer {
                Answer::Updated(Ok(true)) => self.end(Reply::StorageFailure),
                Answer::Updated(_) => self.end(Reply::Inconsistent),
                _ => self.end(Reply::StorageFailure),
            },
            CreatePhase::Done => self.end(Reply::StorageFailure),
        }
    }

    /// Takes the flow one step on, given the store's answer to the request
    /// that the flow made last. Where the transaction takes a token at this
    /// step, the token is drawn at random.
    pub fn advance(self, answer: Answer) -> (r: (CreateFlow, Step))
        ensures
            exists|token: Seq<char>|
                is_token(token) && (r.0@, r.1@) == #[trigger] create_next(self@, answer@, token),
            carries_amount(self.transaction.amount, r.0, r.1),
    {
        let takes_token = match self.phase {
            CreatePhase::AwaitWallet => match answer {
                Answer::Wallet(Ok(Some(_))) => true,
                _ => false,
            },
            _ => false,
        };
        if takes_token {
            let token = fresh_token();
            self.advance_with(answer, token)
        } else {
            proof {
                let witness = lemma_token_exists();
                assert(create_next(self@, answer@, witness) == create_next(
                    self@,
                    answer@,
                    Seq::empty(),
                ));
            }
            self.advance_with(answer, String::new())
        }
    }
}

/// How far the confirmation of a transaction has come.
#[derive(Debug, Clone, Copy, PartialEq, Eq, Structural)]
pub enum ConfirmPhase {
    /// The transaction is being looked up.
    AwaitTransaction,
    /// The transaction is being marked `Confirmed`.
    AwaitUpdate,
    /// The flow has ended.
    Done,
}

/// The confirmation of one transaction.
#[derive(Debug)]
pub struct ConfirmFlow {
    pub phase: ConfirmPhase,
    /// The wallet that the request names.
    pub wallets_id: u64,
    /// The token that the request names.
    pub token: String,
    /// The transaction, once it has been found, as it is to be written.
    pub transaction: Option<Transaction>,
}

/// What a confirmation flow is to the contracts.
pub struct ConfirmFlowView {
    pub phase: ConfirmPhase,
    pub wallets_id: u64,
    pub token: Seq<char>,
    pub transaction: Option<TransactionView>,
}

impl View for ConfirmFlow {
    type V = ConfirmFlowView;

    open spec fn view(&self) -> ConfirmFlowView {
        ConfirmFlowView {
            phase: self.phase,
            wallets_id: self.wallets_id,
            token: self.token@,
            transaction: match self.transaction {
                Some(transaction) => Some(transaction@),
                None => None,
            },
        }
    }
}

/// A confirmation flow as it begins: the transaction is to be looked up by
/// wallet and token.
pub open spec fn confirm_start(wallets_id: u64, token: Seq<char>) -> (ConfirmFlowView, StepView) {
    (
        ConfirmFlowView {
            phase: ConfirmPhase::AwaitTransaction,
            wallets_id,
            token,
            transaction: None,
        },
        StepView::Ask(RequestView::FindTransaction { wallets_id, token }),
    )
}

/// The flow ends with `reply`.
pub open spec fn confirm_end(flow: ConfirmFlowView, reply: ReplyView) -> (
    ConfirmFlowView,
    StepView,
) {
    (ConfirmFlowView { phase: ConfirmPhase::Done, ..flow }, StepView::Finish(reply))
}

/// The transaction was found. Only an `Initialized` transaction can be
/// confirmed: for any other the flow ends with `Inconsistent` and nothing is
/// written. Otherwise the row is to be marked `Confirmed`, provided that it
/// is still `Initialized` when the store writes.
pub open spec fn confirm_on_found(flow: ConfirmFlowView, found: TransactionView) -> (
    ConfirmFlowView,
    StepView,
) {
    let transaction = TransactionView { status: TransactionStatus::Confirmed, ..found };
    let flow = ConfirmFlowView { transaction: Some(transaction), ..flow };
    if predecessor_verdict(TransactionStatus::Confirmed, found.status) == Some(false) {
        confirm_end(flow, ReplyView::Inconsistent)
    } else {
        (
            ConfirmFlowView { phase: ConfirmPhase::AwaitUpdate, ..flow },
            StepView::Ask(
                RequestView::UpdateStatus { transaction, expected: TransactionStatus::Initialized },
            ),
        )
    }
}

/// The confirmation flow: from where the flow stands and what the store
/// answered, to where it stands next and what is to be done.
///
/// - The transaction is looked up first. If there is none with this wallet
///   and token, the flow ends with `TransactionNotFound`; if there is one,
///   see `confirm_on_found`.
/// - If the store changed the row, the flow ends with `Confirmed`; if it
///   changed none, with `Inconsistent`.
/// - A failure of the store, or an answer that does not belong to the
///   request that was made, ends the flow with a storage failure.
pub open spec fn confirm_next(flow: ConfirmFlowView, answer: AnswerView) -> (
    ConfirmFlowView,
    StepView,
) {
    match (flow.phase, answer) {
        (ConfirmPhase::AwaitTransaction, AnswerView::Transaction(Ok(Some(found)))) => {
            confirm_on_found(flow, found)
        },
        (ConfirmPhase::AwaitTransaction, AnswerView::Transaction(Ok(None))) => confirm_end(
            flow,
            ReplyView::TransactionNotFound,
        ),
        (ConfirmPhase::AwaitUpdate, AnswerView::Updated(Ok(true))) => confirm_end(
            flow,
            ReplyView::Confirmed,
        ),
        (ConfirmPhase::AwaitUpdate, AnswerView::Updated(Ok(false))) => confirm_end(
            flow,
            ReplyView::Inconsistent,
        ),
        _ => confirm_end(flow, ReplyView::StorageFailure),
    }
}

/// How many requests a confirmation flow may still make.
pub open spec fn confirm_rank(phase: ConfirmPhase) -> nat {
    match phase {
        ConfirmPhase::AwaitTransaction => 2,
        ConfirmPhase::AwaitUpdate => 1,
        ConfirmPhase::Done => 0,
    }
}

/// A confirmation flow ends. Every step takes the flow nearer to its end, so
/// it makes two requests at most, and it has ended exactly when it gives a
/// reply.
pub proof fn lemma_confirm_ends(flow: ConfirmFlowView, answer: AnswerView)
    ensures
        confirm_next(flow, answer).1 is Finish <==> confirm_next(flow, answer).0.phase
            == ConfirmPhase::Done,
        flow.phase != ConfirmPhase::Done ==> confirm_rank(confirm_next(flow, answer).0.phase)
            < confirm_rank(flow.phase),
{
}

impl ConfirmFlow {
    /// Begins the confirmation of the transaction that the wallet
    /// `wallets_id` has under `token`.
    pub fn start(wallets_id: u64, token: String) -> (r: (ConfirmFlow, Step))
        ensures
            (r.0@, r.1@) == confirm_start(wallets_id, token@),
    {
        let request = Request::FindTransaction { wallets_id, token: token.clone() };
        (
            ConfirmFlow {
                phase: ConfirmPhase::AwaitTransaction,
                wallets_id,
                token,
                transaction: None,
            },
            Step::Ask(request),
        )
    }

    fn end(self, reply: Reply) -> (r: (ConfirmFlow, Step))
        ensures
            (r.0@, r.1@) == confirm_end(self@, reply@),
    {
        (
            ConfirmFlow {
                phase: ConfirmPhase::Done,
                wallets_id: self.wallets_id,
                token: self.token,
                transaction: self.transaction,
            },
            Step::Finish(reply),
        )
    }

    fn on_found(self, found: Transaction) -> (r: (ConfirmFlow, Step))
        ensures
            (r.0@, r.1@) == confirm_on_found(self@, found@),
    {
        let previous = found.status;
        let mut transaction = found;
        transaction.status = TransactionStatus::Confirmed;
        let verdict = transaction.validate_previous_status(previous);
        let request = Request::UpdateStatus {
            transaction: transaction.clone(),
            expected: TransactionStatus::Initialized,
        };
        let flow = ConfirmFlow {
            phase: self.phase,
            wallets_id: self.wallets_id,
            token: self.token,
            transaction: Some(transaction),
        };
        if verdict == Some(false) {
            return flow.end(Reply::Inconsistent);
        }
        (
            ConfirmFlow {
                phase: ConfirmPhase::AwaitUpdate,
                wallets_id: flow.wallets_id,
                token: flow.token,
                transaction: flow.transaction,
            },
            Step::Ask(request),
        )
    }

    /// Takes the flow one step on, given the store's answer to the request
    /// that the flow made last (`confirm_next`).
    pub fn advance(self, answer: Answer) -> (r: (ConfirmFlow, Step))
        ensures
            (r.0@, r.1@) == confirm_next(self@, answer@),
    {
        match self.phase {
            ConfirmPhase::AwaitTransaction => match answer {
                Answer::Transaction(Ok(Some(found))) => self.on_found(found),
                Answer::Transaction(Ok(None)) => self.end(Reply::TransactionNotFound),
                _ => self.end(Reply::StorageFailure),
            },
            ConfirmPhase::AwaitUpdate => match answer {
                Answer::Updated(Ok(true)) => self.end(Reply::Confirmed),
                Answer::Updated(Ok(false)) => self.end(Reply::Inconsistent),
                _ => self.end(Reply::StorageFailure),
            },
            ConfirmPhase::Done => self.end(Reply::StorageFailure),
        }
    }
}

/// The reply to a request for one wallet, given what the store answered:
/// the wallet, `WalletNotFound` where there is none, a storage failure where
/// the store failed.
pub open spec fn wallet_reply(
    outcome: Result<Option<WalletView>, StoreError>,
    wallets_id: u64,
) -> ReplyView {
    match outcome {
        Ok(Some(wallet)) => ReplyView::Wallet(wallet),
        Ok(None) => ReplyView::WalletNotFound(wallets_id),
        Err(_) => ReplyView::StorageFailure,
    }
}

/// The reply to a request for the wallet `wallets_id`, given what the store
/// answered to `FindWallet` (`wallet_reply`).
pub fn get_wallet(answer: Answer, wallets_id: u64) -> (r: Reply)
    ensures
        r@ == match answer@ {
            AnswerView::Wallet(outcome) => wallet_reply(outcome, wallets_id),
            _ => ReplyView::StorageFailure,
        },
{
    match answer {
        Answer::Wallet(Ok(Some(wallet))) => Reply::Wallet(wallet),
        Answer::Wallet(Ok(None)) => Reply::WalletNotFound(wallets_id),
        _ => Reply::StorageFailure,
    }
}

/// The reply to a request for every wallet, given what the store read: the
/// wallets, or a storage failure where the store failed.
pub fn get_wallets(outcome: Result<Vec<Wallet>, StoreError>) -> (r: Reply)
    ensures
        r@ == match outcome {
            Ok(wallets) => ReplyView::Wallets(crate::reply::wallet_views(wallets@)),
            Err(_) => ReplyView::StorageFailure,
        },
{
    match outcome {
        Ok(wallets) => Reply::Wallets(wallets),
        Err(_) => Reply::StorageFailure,
    }
}

} // verus!
