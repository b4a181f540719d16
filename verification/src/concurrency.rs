//! Many requests at once.
//!
//! Requests are served concurrently: each is a flow of its own, and the
//! operations of different flows reach the store in any order. What does not
//! interleave is a single operation, which the store carries out in one step.
//! This file describes every such execution and proves that money is
//! conserved in all of them: the balance of a wallet is what it was at the
//! start plus the amounts of the transactions that were accepted, and no
//! debit takes a balance below zero.

use crate::flow::{
    confirm_next, confirm_start, create_next, create_start, ConfirmFlowView, CreateFlowView,
    CreatePhase, StepView,
};
use crate::ledger::{store_apply, LedgerView};
use crate::reply::ReplyView;
use crate::store::{AnswerView, RequestView, StoreError};
use crate::transaction::{row_invariant, TransactionStatus};
use vstd::prelude::*;

verus! {

/// A request that is being served: its flow, and what the flow wants done
/// next.
pub enum Slot {
    Create(CreateFlowView, StepView),
    Confirm(ConfirmFlowView, StepView),
}

impl Slot {
    /// What the flow wants done next.
    pub open spec fn pending(self) -> StepView {
        match self {
            Slot::Create(_, pending) => pending,
            Slot::Confirm(_, pending) => pending,
        }
    }
}

/// The store and the requests that have arrived so far.
pub struct System {
    pub ledger: LedgerView,
    pub slots: Seq<Slot>,
}

/// What happens next.
pub enum Event {
    /// A request arrives to create a transaction.
    CreateArrives { wallets_id: u64, amount: int },
    /// A request arrives to confirm a transaction.
    ConfirmArrives { wallets_id: u64, token: Seq<char> },
    /// The store carries out what the flow at `at` wants done, and the flow
    /// takes its next step. `exact` says whether the store can hold a new
    /// balance exactly; `token` is the token that the flow draws if it draws
    /// one at this step.
    Served { at: int, exact: bool, token: Seq<char> },
    /// The store fails on what the flow at `at` wants done, and the flow
    /// takes its next step.
    Failed { at: int, token: Seq<char> },
}

/// The answer of a store that failed on `request` and changed nothing.
pub open spec fn failure(request: RequestView) -> AnswerView {
    match request {
        RequestView::FindWallet { .. } => AnswerView::Wallet(Err(StoreError::Unavailable)),
        RequestView::LogRejection { .. } => AnswerView::Logged(Err(StoreError::Unavailable)),
        RequestView::InsertTransaction { .. } => AnswerView::Inserted(
            Err(StoreError::Unavailable),
        ),
        RequestView::AdjustBalance { .. } => AnswerView::Adjusted(Err(StoreError::Unavailable)),
        RequestView::UpdateStatus { .. } => AnswerView::Updated(Err(StoreError::Unavailable)),
        RequestView::FindTransaction { .. } => AnswerView::Transaction(
            Err(StoreError::Unavailable),
        ),
    }
}

/// The slot after its flow was given `answer`.
pub open spec fn slot_next(slot: Slot, answer: AnswerView, token: Seq<char>) -> Slot {
    match slot {
        Slot::Create(flow, _) => {
            let (flow, pending) = create_next(flow, answer, token);
            Slot::Create(flow, pending)
        },
        Slot::Confirm(flow, _) => {
            let (flow, pending) = confirm_next(flow, answer);
            Slot::Confirm(flow, pending)
        },
    }
}

/// The system after `event`. An event for a flow that does not exist or has
/// ended changes nothing.
pub open spec fn system_next(pre: System, event: Event) -> System {
    match event {
        Event::CreateArrives { wallets_id, amount } => {
            let (flow, pending) = create_start(wallets_id, amount);
            System { slots: pre.slots.push(Slot::Create(flow, pending)), ..pre }
        },
        Event::ConfirmArrives { wallets_id, token } => {
            let (flow, pending) = confirm_start(wallets_id, token);
            System { slots: pre.slots.push(Slot::Confirm(flow, pending)), ..pre }
        },
        Event::Served { at, exact, token } => {
            if 0 <= at < pre.slots.len() {
                match pre.slots[at].pending() {
                    StepView::Ask(request) => {
                        let (ledger, answer) = store_apply(pre.ledger, request, exact);
                        System {
                            ledger,
                            slots: pre.slots.update(at, slot_next(pre.slots[at], answer, token)),
                        }
                    },
                    StepView::Finish(_) => pre,
                }
            } else {
                pre
            }
        },
        Event::Failed { at, token } => {
            if 0 <= at < pre.slots.len() {
                match pre.slots[at].pending() {
                    StepView::Ask(request) => System {
                        slots: pre.slots.update(
                            at,
                            slot_next(pre.slots[at], failure(request), token),
                        ),
                        ..pre
                    },
                    StepView::Finish(_) => pre,
                }
            } else {
                pre
            }
        },
    }
}

/// The system after all of `events`, in their order.
pub open spec fn run(start: System, events: Seq<Event>) -> System
    decreases events.len(),
{
    if events.len() == 0 {
        start
    } else {
        system_next(run(start, events.drop_last()), events.last())
    }
}

/// A system in which no request has arrived yet.
pub open spec fn at_rest(ledger: LedgerView) -> System {
    System { ledger, slots: Seq::empty() }
}

/// Whether the request of the slot was reported as accepted: it is a
/// creation that ended with a token.
pub open spec fn is_accepted(slot: Slot) -> bool {
    slot matches Slot::Create(_, StepView::Finish(ReplyView::Token(_)))
}

/// What the slot has moved on the wallet: the amount of its transaction if
/// the request was accepted and the transaction is on this wallet, else
/// nothing.
pub open spec fn moved(slot: Slot, wallets_id: u64) -> int {
    match slot {
        Slot::Create(flow, _) => if is_accepted(slot) && flow.transaction.wallets_id == Some(
            wallets_id,
        ) {
            flow.transaction.amount
        } else {
            0
        },
        Slot::Confirm(_, _) => 0,
    }
}

/// The sum of what the accepted requests have moved on the wallet.
pub open spec fn accepted_total(slots: Seq<Slot>, wallets_id: u64) -> int
    decreases slots.len(),
{
    if slots.len() == 0 {
        0
    } else {
        accepted_total(slots.drop_last(), wallets_id) + moved(slots.last(), wallets_id)
    }
}

/// Whether the step asks the store for nothing that would break a row: a
/// transaction is stored as `Initialized` with its token and its wallet, and
/// an update gives a row a status that ends the transaction.
pub open spec fn asks_well(pending: StepView) -> bool {
    &&& pending matches StepView::Ask(RequestView::InsertTransaction { transaction })
        ==> transaction.status == TransactionStatus::Initialized && transaction.token is Some
        && transaction.wallets_id is Some
    &&& pending matches StepView::Ask(RequestView::UpdateStatus { transaction, .. })
        ==> transaction.status != TransactionStatus::Initialized && transaction.status
        != TransactionStatus::Log
}

/// What holds of a slot all along. Only a creation that stands at the
/// adjustment asks for one, and it asks for its own wallet and amount; a
/// creation has a token from the moment its transaction is to be stored, and
/// the transaction it asks to store is its own; a creation for the amount
/// zero gets no further than the lookup of its wallet; and no flow asks for
/// what would break a row (`asks_well`).
pub open spec fn slot_coherent(slot: Slot) -> bool {
    match slot {
        Slot::Create(flow, pending) => {
            &&& pending matches StepView::Ask(RequestView::AdjustBalance { wallets_id, delta })
                ==> flow.phase == CreatePhase::AwaitAdjust && flow.transaction.wallets_id == Some(
                wallets_id,
            ) && flow.transaction.amount == delta
            &&& flow.phase == CreatePhase::AwaitInsert || flow.phase == CreatePhase::AwaitAdjust
                ==> flow.transaction.token is Some
            &&& flow.phase == CreatePhase::AwaitWallet || flow.phase == CreatePhase::AwaitInsert
                || flow.phase == CreatePhase::AwaitAdjust ==> flow.transaction.status
                == TransactionStatus::Initialized
            &&& pending matches StepView::Ask(RequestView::InsertTransaction { transaction })
                ==> flow.phase == CreatePhase::AwaitInsert && transaction == flow.transaction
            &&& flow.transaction.amount == 0 ==> !is_accepted(slot) && (flow.phase
                == CreatePhase::AwaitWallet || flow.phase == CreatePhase::AwaitLog || flow.phase
                == CreatePhase::Done)
            &&& asks_well(pending)
        },
        Slot::Confirm(_, pending) => {
            &&& !(pending matches StepView::Ask(RequestView::AdjustBalance { .. }))
            &&& asks_well(pending)
        },
    }
}

/// Whether every slot is coherent.
pub open spec fn coherent(system: System) -> bool {
    forall|i: int| 0 <= i < system.slots.len() ==> slot_coherent(#[trigger] system.slots[i])
}

/// Conservation of money: the store has the wallets it had at the start, and
/// the balance of each is its opening balance plus what the accepted
/// requests have moved on it.
pub open spec fn conserves(opening: Map<u64, int>, system: System) -> bool {
    &&& system.ledger.balances.dom() == opening.dom()
    &&& forall|wallets_id: u64| #[trigger]
        opening.contains_key(wallets_id) ==> system.ledger.balances[wallets_id]
            == opening[wallets_id] + accepted_total(system.slots, wallets_id)
}

/// Replacing one slot changes the total by the difference of what the two
/// slots have moved.
pub proof fn lemma_total_after_update(slots: Seq<Slot>, at: int, slot: Slot, wallets_id: u64)
    requires
        0 <= at < slots.len(),
    ensures
        accepted_total(slots.update(at, slot), wallets_id) == accepted_total(slots, wallets_id)
            - moved(slots[at], wallets_id) + moved(slot, wallets_id),
    decreases slots.len(),
{
    let after = slots.update(at, slot);
    if at == slots.len() - 1 {
        assert(after.drop_last() =~= slots.drop_last());
    } else {
        assert(after.drop_last() =~= slots.drop_last().update(at, slot));
        lemma_total_after_update(slots.drop_last(), at, slot, wallets_id);
    }
}

/// A new slot adds what it has moved to the total.
pub proof fn lemma_total_after_push(slots: Seq<Slot>, slot: Slot, wallets_id: u64)
    ensures
        accepted_total(slots.push(slot), wallets_id) == accepted_total(slots, wallets_id) + moved(
            slot,
            wallets_id,
        ),
{
    assert(slots.push(slot).drop_last() =~= slots);
}

/// One event keeps the system coherent and conserves money.
pub proof fn lemma_event_conserves(opening: Map<u64, int>, pre: System, event: Event)
    requires
        coherent(pre),
        conserves(opening, pre),
    ensures
        coherent(system_next(pre, event)),
        conserves(opening, system_next(pre, event)),
{
    let post = system_next(pre, event);
    match event {
        Event::CreateArrives { wallets_id, amount } => {
            let (flow, pending) = create_start(wallets_id, amount);
            let slot = Slot::Create(flow, pending);
            assert(slot_coherent(slot));
            assert forall|w: u64| #[trigger] opening.contains_key(w) implies post.ledger.balances[w]
                == opening[w] + accepted_total(post.slots, w) by {
                lemma_total_after_push(pre.slots, slot, w);
            }
        },
        Event::ConfirmArrives { wallets_id, token } => {
            let (flow, pending) = confirm_start(wallets_id, token);
            let slot = Slot::Confirm(flow, pending);
            assert(slot_coherent(slot));
            assert forall|w: u64| #[trigger] opening.contains_key(w) implies post.ledger.balances[w]
                == opening[w] + accepted_total(post.slots, w) by {
                lemma_total_after_push(pre.slots, slot, w);
            }
        },
        Event::Served { at, exact, token } => {
            if 0 <= at < pre.slots.len() && pre.slots[at].pending() is Ask {
                let request = pre.slots[at].pending()->Ask_0;
                let (ledger, answer) = store_apply(pre.ledger, request, exact);
                lemma_slot_step(opening, pre, at, request, ledger, answer, token);
            }
        },
        Event::Failed { at, token } => {
            if 0 <= at < pre.slots.len() && pre.slots[at].pending() is Ask {
                let request = pre.slots[at].pending()->Ask_0;
                lemma_slot_step(opening, pre, at, request, pre.ledger, failure(request), token);
            }
        },
    }
}

/// Whether `answer` is what a store may give to `request` when the tables go
/// from `pre` to `post`: what `store_apply` says, or a failure that changes
/// nothing.
pub open spec fn store_answers(
    pre: LedgerView,
    request: RequestView,
    post: LedgerView,
    answer: AnswerView,
) -> bool {
    ||| exists|exact: bool| #[trigger] store_apply(pre, request, exact) == (post, answer)
    ||| (post == pre && answer == failure(request))
}

proof fn lemma_slot_step(
    opening: Map<u64, int>,
    pre: System,
    at: int,
    request: RequestView,
    ledger: LedgerView,
    answer: AnswerView,
    token: Seq<char>,
)
    requires
        coherent(pre),
        conserves(opening, pre),
        0 <= at < pre.slots.len(),
        pre.slots[at].pending() == StepView::Ask(request),
        store_answers(pre.ledger, request, ledger, answer),
    ensures
        coherent(
            System { ledger, slots: pre.slots.update(at, slot_next(pre.slots[at], answer, token)) },
        ),
        conserves(
            opening,
            System { ledger, slots: pre.slots.update(at, slot_next(pre.slots[at], answer, token)) },
        ),
{
    let before = pre.slots[at];
    let after = slot_next(before, answer, token);
    let post = System { ledger, slots: pre.slots.update(at, after) };
    assert(slot_coherent(before));
    assert(slot_coherent(after));
    assert forall|i: int| 0 <= i < post.slots.len() implies slot_coherent(
        #[trigger] post.slots[i],
    ) by {
        if i != at {
            assert(post.slots[i] == pre.slots[i]);
        }
    }
    assert(!is_accepted(before));
    assert(ledger.balances.dom() =~= pre.ledger.balances.dom());
    assert forall|w: u64| #[trigger] opening.contains_key(w) implies ledger.balances[w]
        == opening[w] + accepted_total(post.slots, w) by {
        lemma_total_after_update(pre.slots, at, after, w);
        assert(pre.ledger.balances.contains_key(w));
        assert(moved(before, w) == 0);
        assert(ledger.balances[w] == pre.ledger.balances[w] + moved(after, w));
    }
}

/// Conservation of money. Take a store with any wallets and any rows, and
/// let requests to create and to confirm transactions arrive and be served
/// in any order and any interleaving, with the store failing whenever it
/// does. Then, at the end and at every moment before it, the balance of each
/// wallet is its opening balance plus the amounts of the creations on that
/// wallet that were reported as accepted. No update is lost and none is
/// applied twice.
pub proof fn lemma_money_is_conserved(ledger: LedgerView, events: Seq<Event>)
    ensures
        coherent(run(at_rest(ledger), events)),
        conserves(ledger.balances, run(at_rest(ledger), events)),
    decreases events.len(),
{
    if events.len() == 0 {
        assert forall|w: u64| #[trigger] ledger.balances.contains_key(w) implies accepted_total(
            Seq::<Slot>::empty(),
            w,
        ) == 0 by {}
    } else {
        lemma_money_is_conserved(ledger, events.drop_last());
        lemma_event_conserves(
            ledger.balances,
            run(at_rest(ledger), events.drop_last()),
            events.last(),
        );
    }
}

/// No debit overdraws a wallet: whenever an event lowers a balance, the
/// balance it leaves is zero or above. This holds of every system, whatever
/// came before.
pub proof fn lemma_no_debit_overdraws(pre: System, event: Event, wallets_id: u64)
    requires
        pre.ledger.balances.contains_key(wallets_id),
    ensures
        system_next(pre, event).ledger.balances.contains_key(wallets_id),
        system_next(pre, event).ledger.balances[wallets_id] < pre.ledger.balances[wallets_id]
            ==> system_next(pre, event).ledger.balances[wallets_id] >= 0,
{
}

/// A wallet that starts at zero or above stays there. (`lemma_no_debit_overdraws`
/// along a whole execution.)
pub proof fn lemma_balances_stay_solvent(ledger: LedgerView, events: Seq<Event>, wallets_id: u64)
    requires
        ledger.balances.contains_key(wallets_id),
        ledger.balances[wallets_id] >= 0,
    ensures
        run(at_rest(ledger), events).ledger.balances.contains_key(wallets_id),
        run(at_rest(ledger), events).ledger.balances[wallets_id] >= 0,
    decreases events.len(),
{
    if events.len() > 0 {
        lemma_balances_stay_solvent(ledger, events.drop_last(), wallets_id);
        lemma_no_debit_overdraws(
            run(at_rest(ledger), events.drop_last()),
            events.last(),
            wallets_id,
        );
    }
}

/// A creation for the amount zero is never accepted, in any execution.
pub proof fn lemma_zero_amount_is_never_accepted(ledger: LedgerView, events: Seq<Event>, at: int)
    requires
        0 <= at < run(at_rest(ledger), events).slots.len(),
        run(at_rest(ledger), events).slots[at] matches Slot::Create(flow, _)
            && flow.transaction.amount == 0,
    ensures
        !is_accepted(run(at_rest(ledger), events).slots[at]),
{
    lemma_money_is_conserved(ledger, events);
    assert(slot_coherent(run(at_rest(ledger), events).slots[at]));
}

/// Whether every row of the table is well formed (`row_invariant`).
pub open spec fn rows_well_formed(ledger: LedgerView) -> bool {
    forall|i: int| 0 <= i < ledger.rows.len() ==> row_invariant(#[trigger] ledger.rows[i])
}

/// One event keeps the rows well formed.
pub proof fn lemma_event_keeps_rows_well_formed(pre: System, event: Event)
    requires
        coherent(pre),
        rows_well_formed(pre.ledger),
    ensures
        rows_well_formed(system_next(pre, event).ledger),
{
    let post = system_next(pre, event);
    match event {
        Event::Served { at, exact, token } => {
            if 0 <= at < pre.slots.len() && pre.slots[at].pending() is Ask {
                assert(slot_coherent(pre.slots[at]));
                assert forall|i: int| 0 <= i < post.ledger.rows.len() implies row_invariant(
                    #[trigger] post.ledger.rows[i],
                ) by {
                    if i < pre.ledger.rows.len() {
                        assert(row_invariant(pre.ledger.rows[i]));
                    }
                }
            }
        },
        _ => {},
    }
}

/// The rows stay well formed. In a store whose `Initialized` rows all have a
/// token and a wallet and whose `Log` rows have neither, this still holds
/// after any execution: the flows write no other rows.
pub proof fn lemma_rows_stay_well_formed(ledger: LedgerView, events: Seq<Event>)
    requires
        rows_well_formed(ledger),
    ensures
        rows_well_formed(run(at_rest(ledger), events).ledger),
    decreases events.len(),
{
    if events.len() > 0 {
        lemma_rows_stay_well_formed(ledger, events.drop_last());
        lemma_money_is_conserved(ledger, events.drop_last());
        lemma_event_keeps_rows_well_formed(
            run(at_rest(ledger), events.drop_last()),
            events.last(),
        );
    }
}

/// Whether the rows are numbered: the row at position `i` has the identifier
/// `i + 1`.
pub open spec fn rows_numbered(ledger: LedgerView) -> bool {
    forall|i: int| 0 <= i < ledger.rows.len() ==> (#[trigger] ledger.rows[i]).id == i + 1
}

/// Whether the transaction of the slot has to be in the table: it is a
/// creation that has come as far as the adjustment of the balance.
pub open spec fn must_be_recorded(slot: Slot) -> bool {
    slot matches Slot::Create(flow, _) && (flow.phase == CreatePhase::AwaitAdjust || flow.phase
        == CreatePhase::AwaitRollback || is_accepted(slot))
}

/// Whether the transaction of the slot is in the table: the row with its
/// identifier has its wallet, its amount and its token.
pub open spec fn is_recorded(slot: Slot, ledger: LedgerView) -> bool {
    match slot {
        Slot::Create(flow, _) => {
            let at = flow.transaction.id - 1;
            &&& 0 <= at < ledger.rows.len()
            &&& ledger.rows[at].id == flow.transaction.id
            &&& ledger.rows[at].wallets_id == flow.transaction.wallets_id
            &&& ledger.rows[at].amount == flow.transaction.amount
            &&& ledger.rows[at].token == flow.transaction.token
        },
        Slot::Confirm(_, _) => true,
    }
}

/// Whether every transaction that has to be in the table is in it.
pub open spec fn recorded(system: System) -> bool {
    forall|i: int|
        0 <= i < system.slots.len() && must_be_recorded(#[trigger] system.slots[i])
            ==> is_recorded(system.slots[i], system.ledger)
}

/// One event keeps the rows numbered and the transactions recorded.
pub proof fn lemma_event_keeps_the_record(pre: System, event: Event)
    requires
        coherent(pre),
        rows_numbered(pre.ledger),
        recorded(pre),
    ensures
        rows_numbered(system_next(pre, event).ledger),
        recorded(system_next(pre, event)),
{
    let post = system_next(pre, event);
    match event {
        Event::Served { at, exact, token } => {
            if 0 <= at < pre.slots.len() && pre.slots[at].pending() is Ask {
                let request = pre.slots[at].pending()->Ask_0;
                crate::ledger::lemma_store_keeps_what_it_has(pre.ledger, request, exact);
                assert(slot_coherent(pre.slots[at]));
                assert forall|i: int|
                    0 <= i < post.slots.len() && must_be_recorded(
                        #[trigger] post.slots[i],
                    ) implies is_recorded(post.slots[i], post.ledger) by {
                    if i != at {
                        assert(post.slots[i] == pre.slots[i]);
                        assert(is_recorded(pre.slots[i], pre.ledger));
                    } else if must_be_recorded(pre.slots[at]) {
                        assert(is_recorded(pre.slots[at], pre.ledger));
                    }
                }
            } else {
                assert forall|i: int|
                    0 <= i < post.slots.len() && must_be_recorded(
                        #[trigger] post.slots[i],
                    ) implies is_recorded(post.slots[i], post.ledger) by {
                    assert(is_recorded(pre.slots[i], pre.ledger));
                }
            }
        },
        Event::Failed { at, token } => {
            assert forall|i: int|
                0 <= i < post.slots.len() && must_be_recorded(
                    #[trigger] post.slots[i],
                ) implies is_recorded(post.slots[i], post.ledger) by {
                if 0 <= at < pre.slots.len() && pre.slots[at].pending() is Ask && i == at {
                    assert(slot_coherent(pre.slots[at]));
                    if must_be_recorded(pre.slots[at]) {
                        assert(is_recorded(pre.slots[at], pre.ledger));
                    }
                } else {
                    assert(post.slots[i] == pre.slots[i]);
                    assert(is_recorded(pre.slots[i], pre.ledger));
                }
            }
        },
        _ => {
            assert forall|i: int|
                0 <= i < post.slots.len() && must_be_recorded(
                    #[trigger] post.slots[i],
                ) implies is_recorded(post.slots[i], post.ledger) by {
                if i < pre.slots.len() {
                    assert(post.slots[i] == pre.slots[i]);
                    assert(is_recorded(pre.slots[i], pre.ledger));
                }
            }
        },
    }
}

/// Every accepted transaction is on record. In a store whose rows are
/// numbered, after any execution, each creation that was reported as accepted
/// has its row in the table, under the identifier the store gave it and with
/// its wallet, its amount and its token. The same holds of a creation whose
/// balance adjustment is under way or is being rolled back: the row is
/// written before the balance is touched.
pub proof fn lemma_accepted_transactions_are_recorded(ledger: LedgerView, events: Seq<Event>)
    requires
        rows_numbered(ledger),
    ensures
        rows_numbered(run(at_rest(ledger), events).ledger),
        recorded(run(at_rest(ledger), events)),
    decreases events.len(),
{
    if events.len() > 0 {
        lemma_accepted_transactions_are_recorded(ledger, events.drop_last());
        lemma_money_is_conserved(ledger, events.drop_last());
        lemma_event_keeps_the_record(run(at_rest(ledger), events.drop_last()), events.last());
    }
}

} // verus!
