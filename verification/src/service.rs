//! The two flows run to their end against the store held in memory, one
//! request at a time.

use crate::amount::Amount;
use crate::flow::{
    carries_amount, confirm_next, create_next, rollback_note, unknown_wallet_note, ConfirmFlow,
    CreateFlow, CreatePhase, Step, StepView,
};
use crate::ledger::{
    apply_log, first_match, has_room, lemma_first_match, lemma_first_match_after_update,
    lemma_no_match, next_id, row_matches, store_apply, Ledger, LedgerView,
};
use crate::reply::{Reply, ReplyView};
use crate::store::{AnswerView, StoreError};
use crate::token::{fresh_token, is_token};
use crate::transaction::{new_transaction, TransactionStatus, TransactionView};
use crate::wallet::stays_solvent;
use vstd::prelude::*;
use vstd::string::*;

verus! {

/// What the store answers to the adjustment of a creation that the wallet
/// has authorised and that still does not apply: the identifier zero is
/// refused, and a balance that cannot be held exactly is an error.
pub open spec fn refused_adjustment(wallets_id: u64) -> Result<bool, StoreError> {
    if wallets_id == 0 {
        Err(StoreError::ZeroWalletId)
    } else {
        Err(StoreError::OutOfRange)
    }
}

/// What the creation of a transaction does to the tables, and how it ends,
/// when nothing else touches the store meanwhile. `token` is the token that
/// is drawn; `exact` says whether the store can hold the new balance exactly.
///
/// - The wallet does not exist: an audit row is written and the request is
///   refused with `UnknownWallet`.
/// - The amount is zero, or it is a debit that would leave the balance below
///   zero (`stays_solvent`): nothing is written and the request is refused.
/// - The transaction cannot be stored: nothing is written and the request
///   fails.
/// - Otherwise the transaction is stored as `Initialized`. Where the balance
///   can be adjusted, it is, and the request ends with the token. Where it
///   cannot, no balance changes, the row is marked `InternalError` with the
///   reason, and the request fails.
pub open spec fn create_outcome(
    pre: LedgerView,
    wallets_id: u64,
    amount: int,
    token: Seq<char>,
    exact: bool,
) -> (LedgerView, ReplyView) {
    let fresh = new_transaction(amount);
    if !pre.balances.contains_key(wallets_id) {
        let rejected = TransactionView { errors: Some(unknown_wallet_note(wallets_id)), ..fresh };
        (apply_log(pre, rejected).0, ReplyView::UnknownWallet(wallets_id))
    } else if amount == 0 {
        (pre, ReplyView::InvalidAmount)
    } else if !stays_solvent(pre.balances[wallets_id], amount) {
        (pre, ReplyView::InsufficientBalance)
    } else if first_match(pre.rows, wallets_id, token, 0) is Some || !has_room(pre.rows) {
        (pre, ReplyView::StorageFailure)
    } else {
        let balance = pre.balances[wallets_id];
        let row = TransactionView {
            id: next_id(pre.rows),
            wallets_id: Some(wallets_id),
            token: Some(token),
            ..fresh
        };
        if wallets_id != 0 && exact {
            (
                LedgerView {
                    balances: pre.balances.insert(wallets_id, balance + amount),
                    rows: pre.rows.push(row),
                },
                ReplyView::Token(token),
            )
        } else {
            let marked = TransactionView {
                status: TransactionStatus::InternalError,
                errors: Some(rollback_note(refused_adjustment(wallets_id))),
                ..row
            };
            (LedgerView { rows: pre.rows.push(marked), ..pre }, ReplyView::StorageFailure)
        }
    }
}

/// What the confirmation of a transaction does to the tables, and how it
/// ends, when nothing else touches the store meanwhile.
///
/// - The wallet has no transaction under the token: nothing changes and the
///   request ends with `TransactionNotFound`.
/// - The transaction is not `Initialized`, as it is not once it has been
///   confirmed: nothing changes and the request ends with `Inconsistent`.
/// - Otherwise the row becomes `Confirmed` and so ends the request.
pub open spec fn confirm_outcome(pre: LedgerView, wallets_id: u64, token: Seq<char>) -> (
    LedgerView,
    ReplyView,
) {
    match first_match(pre.rows, wallets_id, token, 0) {
        None => (pre, ReplyView::TransactionNotFound),
        Some(at) => if pre.rows[at].status != TransactionStatus::Initialized {
            (pre, ReplyView::Inconsistent)
        } else {
            (
                LedgerView {
                    rows: pre.rows.update(
                        at,
                        TransactionView { status: TransactionStatus::Confirmed, ..pre.rows[at] },
                    ),
                    ..pre
                },
                ReplyView::Confirmed,
            )
        },
    }
}

/// A creation moves its amount or nothing. Where it ends with a token, the
/// balance of its wallet has changed by exactly the amount, and a debit has
/// left it at zero or above; where it ends otherwise, no balance has changed.
/// No other wallet is ever touched.
pub proof fn lemma_create_moves_its_amount_or_nothing(
    pre: LedgerView,
    wallets_id: u64,
    amount: int,
    token: Seq<char>,
    exact: bool,
)
    ensures
        ({
            let (post, reply) = create_outcome(pre, wallets_id, amount, token, exact);
            if reply is Token {
                &&& pre.balances.contains_key(wallets_id)
                &&& post.balances == pre.balances.insert(
                    wallets_id,
                    pre.balances[wallets_id] + amount,
                )
                &&& amount < 0 ==> post.balances[wallets_id] >= 0
            } else {
                post.balances == pre.balances
            }
        }),
{
}

/// A request writes one row at most. A creation adds one row or none, and a
/// confirmation adds none: it changes the status of the row it confirms and
/// nothing else.
pub proof fn lemma_requests_write_one_row_at_most(
    pre: LedgerView,
    wallets_id: u64,
    amount: int,
    token: Seq<char>,
    exact: bool,
)
    ensures
        pre.rows.len() <= create_outcome(pre, wallets_id, amount, token, exact).0.rows.len()
            <= pre.rows.len() + 1,
        confirm_outcome(pre, wallets_id, token).0.rows.len() == pre.rows.len(),
        confirm_outcome(pre, wallets_id, token).0.balances == pre.balances,
{
    lemma_first_match(pre.rows, wallets_id, token, 0);
}

/// A creation for the amount zero is always refused, whatever the balance of
/// the wallet: it ends with `InvalidAmount` where the wallet exists and with
/// `UnknownWallet` where it does not, no balance changes, and no transaction
/// is stored for the wallet.
pub proof fn lemma_zero_amount_is_refused(
    pre: LedgerView,
    wallets_id: u64,
    token: Seq<char>,
    exact: bool,
)
    ensures
        ({
            let (post, reply) = create_outcome(pre, wallets_id, 0, token, exact);
            &&& !reply.is_success()
            &&& post.balances == pre.balances
            &&& pre.balances.contains_key(wallets_id) ==> post == pre && reply
                == ReplyView::InvalidAmount
            &&& !pre.balances.contains_key(wallets_id) ==> reply == ReplyView::UnknownWallet(
                wallets_id,
            )
        }),
{
}

/// Confirming a pair of wallet and token that no row has ends with
/// `TransactionNotFound` and changes nothing.
pub proof fn lemma_unknown_pair_changes_nothing(
    pre: LedgerView,
    wallets_id: u64,
    token: Seq<char>,
)
    requires
        forall|i: int|
            0 <= i < pre.rows.len() ==> !row_matches(
                #[trigger] pre.rows[i],
                wallets_id,
                token,
            ),
    ensures
        confirm_outcome(pre, wallets_id, token) == (pre, ReplyView::TransactionNotFound),
{
    lemma_no_match(pre.rows, wallets_id, token, 0);
}

/// A transaction is confirmed once. After a confirmation that succeeded, the
/// row is `Confirmed`, and confirming the same pair again ends with
/// `Inconsistent` and changes nothing.
pub proof fn lemma_confirmed_once(pre: LedgerView, wallets_id: u64, token: Seq<char>)
    requires
        confirm_outcome(pre, wallets_id, token).1 == ReplyView::Confirmed,
    ensures
        ({
            let post = confirm_outcome(pre, wallets_id, token).0;
            &&& first_match(pre.rows, wallets_id, token, 0) matches Some(at)
            &&& 0 <= at < pre.rows.len()
            &&& pre.rows[at].status == TransactionStatus::Initialized
            &&& post.rows[at].status == TransactionStatus::Confirmed
            &&& confirm_outcome(post, wallets_id, token) == (post, ReplyView::Inconsistent)
        }),
{
    lemma_first_match(pre.rows, wallets_id, token, 0);
    let at = first_match(pre.rows, wallets_id, token, 0)->Some_0;
    let row = TransactionView { status: TransactionStatus::Confirmed, ..pre.rows[at] };
    lemma_first_match_after_update(pre.rows, at, row, wallets_id, token, 0);
}

impl Ledger {
    fn serve_create(&mut self, flow: CreateFlow, step: Step, token: &String) -> (r: (
        CreateFlow,
        Step,
    ))
        requires
            old(self).wf(),
            carries_amount(flow.transaction.amount, flow, step),
        ensures
            final(self).wf(),
            carries_amount(flow.transaction.amount, r.0, r.1),
            match step {
                Step::Ask(request) => {
                    let (ledger, answer) = store_apply(
                        old(self)@,
                        request@,
                        old(self).is_exact(request),
                    );
                    &&& final(self)@ == ledger
                    &&& (r.0@, r.1@) == create_next(flow@, answer, token@)
                    &&& answer != AnswerView::Adjusted(Ok(true)) ==> final(self).wallet_list()
                        == old(self).wallet_list()
                },
                Step::Finish(_) => {
                    &&& final(self)@ == old(self)@
                    &&& final(self).wallet_list() == old(self).wallet_list()
                    &&& r.0@ == flow@
                    &&& r.1@ == step@
                },
            },
    {
        match step {
            Step::Ask(request) => {
                let answer = self.execute(&request);
                flow.advance_with(answer, token.clone())
            },
            Step::Finish(reply) => (flow, Step::Finish(reply)),
        }
    }

    fn serve_confirm(&mut self, flow: ConfirmFlow, step: Step) -> (r: (ConfirmFlow, Step))
        requires
            old(self).wf(),
        ensures
            final(self).wf(),
            match step {
                Step::Ask(request) => {
                    let (ledger, answer) = store_apply(
                        old(self)@,
                        request@,
                        old(self).is_exact(request),
                    );
                    &&& final(self)@ == ledger
                    &&& (r.0@, r.1@) == confirm_next(flow@, answer)
                },
                Step::Finish(_) => {
                    &&& final(self)@ == old(self)@
                    &&& r.0@ == flow@
                    &&& r.1@ == step@
                },
            },
    {
        match step {
            Step::Ask(request) => {
                let answer = self.execute(&request);
                flow.advance(answer)
            },
            Step::Finish(reply) => (flow, Step::Finish(reply)),
        }
    }

    /// Creates a transaction of `amount` against the wallet `wallets_id`
    /// (`create_outcome`), with a token drawn at random.
    pub fn new_transaction(&mut self, wallets_id: u64, amount: Amount) -> (r: Reply)
        requires
            old(self).wf(),
        ensures
            final(self).wf(),
            exists|token: Seq<char>|
                is_token(token) && (final(self)@, r@) == #[trigger] create_outcome(
                    old(self)@,
                    wallets_id,
                    amount@,
                    token,
                    old(self).holds_exactly(wallets_id, amount),
                ),
            !(r is Token) ==> final(self).wallet_list() == old(self).wallet_list(),
    {
        let token = fresh_token();
        let ghost start = self@;
        let ghost exact = self.holds_exactly(wallets_id, amount);
        let ghost wallets = self.wallet_list();
        let ghost want = create_outcome(start, wallets_id, amount@, token@, exact);
        proof {
            self.lemma_rows_are_numbered();
            lemma_first_match(start.rows, wallets_id, token@, 0);
        }
        let (flow, step) = CreateFlow::start(wallets_id, amount);
        let (flow, step) = self.serve_create(flow, step, &token);
        assert(self@ == start);
        assert(self.wallet_list() == wallets);
        let ghost second = step@;
        let (flow, step) = self.serve_create(flow, step, &token);
        let ghost stored = self@;
        let ghost third = step@;
        proof {
            self.lemma_rows_are_numbered();
            assert(self.wallet_list() == wallets);
            if second is Finish {
                assert(stored == start);
                assert(third == second);
            } else if !start.balances.contains_key(wallets_id) {
                assert(stored == want.0);
                assert(third == StepView::Finish(want.1));
            } else if third is Finish {
                assert(stored == start);
                assert(third == StepView::Finish(want.1));
            } else {
                assert(stored.rows == start.rows.push(
                    TransactionView {
                        id: next_id(start.rows),
                        wallets_id: Some(wallets_id),
                        token: Some(token@),
                        ..new_transaction(amount@)
                    },
                ));
                assert(stored.balances == start.balances);
                assert(flow.phase == CreatePhase::AwaitAdjust);
                assert(third == StepView::Ask(
                    crate::store::RequestView::AdjustBalance { wallets_id, delta: amount@ },
                ));
            }
        }
        let (flow, step) = self.serve_create(flow, step, &token);
        let ghost adjusted = self@;
        let ghost fourth = step@;
        proof {
            if third is Finish {
                assert(adjusted == stored);
                assert(fourth == third);
            } else {
                let balance = start.balances[wallets_id];
                if wallets_id != 0 && exact {
                    assert(adjusted.rows == stored.rows);
                    assert(adjusted.balances == start.balances.insert(
                        wallets_id,
                        balance + amount@,
                    ));
                    assert(fourth == StepView::Finish(ReplyView::Token(token@)));
                } else {
                    assert(adjusted == stored);
                    assert(fourth is Ask);
                }
            }
        }
        let (flow, step) = self.serve_create(flow, step, &token);
        let reply = match step {
            Step::Finish(reply) => reply,
            Step::Ask(_) => Reply::StorageFailure,
        };
        proof {
            if fourth is Finish {
                assert(self@ == adjusted);
                assert(step@ == fourth);
            } else {
                let at = start.rows.len() as int;
                assert(stored.rows[at].status == TransactionStatus::Initialized);
                assert(self@.rows =~= want.0.rows);
                assert(self@.balances =~= want.0.balances);
                assert(step@ == StepView::Finish(ReplyView::StorageFailure));
            }
            assert(self@.rows =~= want.0.rows);
            assert(self@.balances =~= want.0.balances);
            assert(reply@ == want.1);
        }
        reply
    }

    /// Confirms the transaction that the wallet `wallets_id` has under
    /// `token` (`confirm_outcome`).
    pub fn confirm_transaction(&mut self, wallets_id: u64, token: String) -> (r: Reply)
        requires
            old(self).wf(),
        ensures
            final(self).wf(),
            (final(self)@, r@) == confirm_outcome(old(self)@, wallets_id, token@),
    {
        let ghost start = self@;
        proof {
            self.lemma_rows_are_numbered();
            lemma_first_match(start.rows, wallets_id, token@, 0);
        }
        let (flow, step) = ConfirmFlow::start(wallets_id, token);
        let (flow, step) = self.serve_confirm(flow, step);
        let (flow, step) = self.serve_confirm(flow, step);
        let reply = match step {
            Step::Finish(reply) => reply,
            Step::Ask(_) => Reply::StorageFailure,
        };
        proof {
            let want = confirm_outcome(start, wallets_id, token@);
            assert(self@.rows =~= want.0.rows);
            assert(self@.balances =~= want.0.balances);
        }
        reply
    }
}

} // verus!
