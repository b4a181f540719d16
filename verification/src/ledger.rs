//! A store held in memory: the wallet and transaction tables as two lists,
//! with the operations that the flows ask of a store.
//!
//! `store_apply` says what each request does to the tables and what the store
//! answers. It is the meaning of a request, for this store and for any other
//! that the flows are run against.

use crate::amount::{exact_sum, Amount};
use crate::store::{Answer, AnswerView, Request, RequestView, StoreError};
use crate::transaction::{Transaction, TransactionStatus, TransactionView};
use crate::wallet::{stays_solvent, Wallet, WalletView};
use vstd::prelude::*;
use vstd::string::*;

verus! {

/// The tables as the contracts see them: the balance of each wallet, and the
/// rows of the transaction table in the order in which they were written.
/// The row at position `i` has the identifier `i + 1`.
pub struct LedgerView {
    pub balances: Map<u64, int>,
    pub rows: Seq<TransactionView>,
}

/// Whether `row` is the transaction that `wallets_id` has under `token`.
pub open spec fn row_matches(row: TransactionView, wallets_id: u64, token: Seq<char>) -> bool {
    row.wallets_id == Some(wallets_id) && row.token == Some(token)
}

/// The position of the first row at or after `from` that `wallets_id` has
/// under `token`.
pub open spec fn first_match(
    rows: Seq<TransactionView>,
    wallets_id: u64,
    token: Seq<char>,
    from: int,
) -> Option<int>
    decreases rows.len() - from,
{
    if from < 0 || from >= rows.len() {
        None
    } else if row_matches(rows[from], wallets_id, token) {
        Some(from)
    } else {
        first_match(rows, wallets_id, token, from + 1)
    }
}

/// The identifier of the next row to be written.
pub open spec fn next_id(rows: Seq<TransactionView>) -> u64 {
    (rows.len() + 1) as u64
}

/// Whether the table can take another row.
pub open spec fn has_room(rows: Seq<TransactionView>) -> bool {
    rows.len() < u64::MAX
}

/// The row that storing `transaction` writes: its wallet, amount, status and
/// token, under a new identifier and without an error text.
pub open spec fn stored_row(transaction: TransactionView, id: u64) -> TransactionView {
    TransactionView {
        id,
        wallets_id: transaction.wallets_id,
        amount: transaction.amount,
        status: transaction.status,
        token: transaction.token,
        errors: None,
    }
}

/// The audit row that recording a rejection writes: the amount and the error
/// text of `transaction`, with the status `Log`, no wallet and no token.
pub open spec fn audit_row(transaction: TransactionView, id: u64) -> TransactionView {
    TransactionView {
        id,
        wallets_id: None,
        amount: transaction.amount,
        status: TransactionStatus::Log,
        token: None,
        errors: transaction.errors,
    }
}

/// The row `row` after an update with `transaction`: it takes the status, and
/// the error text where `transaction` has one.
pub open spec fn updated_row(
    row: TransactionView,
    transaction: TransactionView,
) -> TransactionView {
    TransactionView {
        status: transaction.status,
        errors: if transaction.errors is Some {
            transaction.errors
        } else {
            row.errors
        },
        ..row
    }
}

/// Reading a wallet changes nothing and answers with the wallet, if there is
/// one.
pub open spec fn apply_find_wallet(pre: LedgerView, wallets_id: u64) -> (LedgerView, AnswerView) {
    (
        pre,
        AnswerView::Wallet(
            Ok(
                if pre.balances.contains_key(wallets_id) {
                    Some(WalletView { id: wallets_id, balance: pre.balances[wallets_id] })
                } else {
                    None
                },
            ),
        ),
    )
}

/// Recording a rejection appends the audit row.
pub open spec fn apply_log(pre: LedgerView, transaction: TransactionView) -> (
    LedgerView,
    AnswerView,
) {
    if !has_room(pre.rows) {
        (pre, AnswerView::Logged(Err(StoreError::Unavailable)))
    } else {
        (
            LedgerView { rows: pre.rows.push(audit_row(transaction, next_id(pre.rows))), ..pre },
            AnswerView::Logged(Ok(true)),
        )
    }
}

/// Storing a transaction appends its row and answers with the row's
/// identifier. A transaction without a token is refused, and so is one whose
/// wallet already has a transaction under the same token.
pub open spec fn apply_insert(pre: LedgerView, transaction: TransactionView) -> (
    LedgerView,
    AnswerView,
) {
    match transaction.token {
        None => (pre, AnswerView::Inserted(Err(StoreError::MissingToken))),
        Some(token) => {
            if transaction.wallets_id matches Some(wallets_id) && first_match(
                pre.rows,
                wallets_id,
                token,
                0,
            ) is Some {
                (pre, AnswerView::Inserted(Err(StoreError::DuplicateToken)))
            } else if !has_room(pre.rows) {
                (pre, AnswerView::Inserted(Err(StoreError::Unavailable)))
            } else {
                (
                    LedgerView {
                        rows: pre.rows.push(stored_row(transaction, next_id(pre.rows))),
                        ..pre
                    },
                    AnswerView::Inserted(Ok(next_id(pre.rows))),
                )
            }
        },
    }
}

/// Adjusting a balance adds `delta` to it, in one step, provided that the
/// wallet exists and stays solvent (`stays_solvent`); where it does not, no
/// balance changes and the answer is `Ok(false)`. The wallet identifier zero
/// is refused. `exact` says whether the store can hold the new balance
/// exactly; where it cannot, it fails and changes nothing.
pub open spec fn apply_adjust(pre: LedgerView, wallets_id: u64, delta: int, exact: bool) -> (
    LedgerView,
    AnswerView,
) {
    if wallets_id == 0 {
        (pre, AnswerView::Adjusted(Err(StoreError::ZeroWalletId)))
    } else if !pre.balances.contains_key(wallets_id) {
        (pre, AnswerView::Adjusted(Ok(false)))
    } else if !stays_solvent(pre.balances[wallets_id], delta) {
        (pre, AnswerView::Adjusted(Ok(false)))
    } else if !exact {
        (pre, AnswerView::Adjusted(Err(StoreError::OutOfRange)))
    } else {
        (
            LedgerView {
                balances: pre.balances.insert(wallets_id, pre.balances[wallets_id] + delta),
                ..pre
            },
            AnswerView::Adjusted(Ok(true)),
        )
    }
}

/// Updating a transaction rewrites its row (`updated_row`), provided that the
/// row exists and still has the status `expected`; where it does not, no row
/// changes and the answer is `Ok(false)`. The identifier zero is refused.
pub open spec fn apply_update(
    pre: LedgerView,
    transaction: TransactionView,
    expected: TransactionStatus,
) -> (LedgerView, AnswerView) {
    let at = transaction.id - 1;
    if transaction.id == 0 {
        (pre, AnswerView::Updated(Err(StoreError::ZeroTransactionId)))
    } else if transaction.id > pre.rows.len() {
        (pre, AnswerView::Updated(Ok(false)))
    } else if pre.rows[at].status != expected {
        (pre, AnswerView::Updated(Ok(false)))
    } else {
        (
            LedgerView { rows: pre.rows.update(at, updated_row(pre.rows[at], transaction)), ..pre },
            AnswerView::Updated(Ok(true)),
        )
    }
}

/// Reading a transaction changes nothing and answers with the first row that
/// the wallet has under the token, if there is one.
pub open spec fn apply_find_transaction(pre: LedgerView, wallets_id: u64, token: Seq<char>) -> (
    LedgerView,
    AnswerView,
) {
    (
        pre,
        AnswerView::Transaction(
            Ok(
                match first_match(pre.rows, wallets_id, token, 0) {
                    Some(at) => Some(pre.rows[at]),
                    None => None,
                },
            ),
        ),
    )
}

/// What a request does to the tables, and what the store answers.
pub open spec fn store_apply(pre: LedgerView, request: RequestView, exact: bool) -> (
    LedgerView,
    AnswerView,
) {
    match request {
        RequestView::FindWallet { wallets_id } => apply_find_wallet(pre, wallets_id),
        RequestView::LogRejection { transaction } => apply_log(pre, transaction),
        RequestView::InsertTransaction { transaction } => apply_insert(pre, transaction),
        RequestView::AdjustBalance { wallets_id, delta } => apply_adjust(
            pre,
            wallets_id,
            delta,
            exact,
        ),
        RequestView::UpdateStatus { transaction, expected } => apply_update(
            pre,
            transaction,
            expected,
        ),
        RequestView::FindTransaction { wallets_id, token } => apply_find_transaction(
            pre,
            wallets_id,
            token,
        ),
    }
}

/// The first match lies in the table and is a match.
pub proof fn lemma_first_match(
    rows: Seq<TransactionView>,
    wallets_id: u64,
    token: Seq<char>,
    from: int,
)
    requires
        0 <= from,
    ensures
        first_match(rows, wallets_id, token, from) matches Some(at) ==> from <= at < rows.len()
            && row_matches(rows[at], wallets_id, token),
    decreases rows.len() - from,
{
    if from < rows.len() && !row_matches(rows[from], wallets_id, token) {
        lemma_first_match(rows, wallets_id, token, from + 1);
    }
}

/// Which row a wallet has under a token depends only on the wallets and the
/// tokens of the rows.
pub proof fn lemma_first_match_after_update(
    rows: Seq<TransactionView>,
    at: int,
    row: TransactionView,
    wallets_id: u64,
    token: Seq<char>,
    from: int,
)
    requires
        0 <= at < rows.len(),
        row.wallets_id == rows[at].wallets_id,
        row.token == rows[at].token,
        0 <= from,
    ensures
        first_match(rows.update(at, row), wallets_id, token, from) == first_match(
            rows,
            wallets_id,
            token,
            from,
        ),
    decreases rows.len() - from,
{
    if from < rows.len() {
        lemma_first_match_after_update(rows, at, row, wallets_id, token, from + 1);
    }
}

/// Where no row has the wallet and the token, there is no first match.
pub proof fn lemma_no_match(
    rows: Seq<TransactionView>,
    wallets_id: u64,
    token: Seq<char>,
    from: int,
)
    requires
        0 <= from,
        forall|i: int|
            0 <= i < rows.len() ==> !row_matches(
                #[trigger] rows[i],
                wallets_id,
                token,
            ),
    ensures
        first_match(rows, wallets_id, token, from) is None,
    decreases rows.len() - from,
{
    if from < rows.len() {
        lemma_no_match(rows, wallets_id, token, from + 1);
    }
}

/// Where there is no first match from a position on, no row from there on
/// has the wallet and the token.
pub proof fn lemma_none_matches(
    rows: Seq<TransactionView>,
    wallets_id: u64,
    token: Seq<char>,
    from: int,
)
    requires
        0 <= from,
        first_match(rows, wallets_id, token, from) is None,
    ensures
        forall|i: int|
            from <= i < rows.len() ==> !row_matches(#[trigger] rows[i], wallets_id, token),
    decreases rows.len() - from,
{
    if from < rows.len() {
        lemma_none_matches(rows, wallets_id, token, from + 1);
    }
}

/// Whether no two rows have the same wallet and the same token.
pub open spec fn pairs_unique(rows: Seq<TransactionView>) -> bool {
    forall|i: int, j: int|
        0 <= i < j < rows.len() && (#[trigger] rows[i]).wallets_id is Some && rows[i].token is Some
            ==> !(rows[i].wallets_id == (#[trigger] rows[j]).wallets_id && rows[i].token
            == rows[j].token)
}

/// The store keeps what it has. No request removes a wallet or a row, and no
/// request changes the identifier, the wallet, the amount or the token of a
/// row that is stored: an update touches the status and the error text only.
pub proof fn lemma_store_keeps_what_it_has(pre: LedgerView, request: RequestView, exact: bool)
    ensures
        ({
            let post = store_apply(pre, request, exact).0;
            &&& post.balances.dom() == pre.balances.dom()
            &&& post.rows.len() >= pre.rows.len()
            &&& post.rows.len() <= pre.rows.len() + 1
            &&& forall|i: int|
                0 <= i < pre.rows.len() ==> {
                    &&& (#[trigger] post.rows[i]).id == pre.rows[i].id
                    &&& post.rows[i].wallets_id == pre.rows[i].wallets_id
                    &&& post.rows[i].amount == pre.rows[i].amount
                    &&& post.rows[i].token == pre.rows[i].token
                }
        }),
{
    let post = store_apply(pre, request, exact).0;
    assert(post.balances.dom() =~= pre.balances.dom());
}

/// Only an adjustment changes a balance, and it changes no balance but that
/// of its wallet.
pub proof fn lemma_only_adjustments_move_money(
    pre: LedgerView,
    request: RequestView,
    exact: bool,
    wallets_id: u64,
)
    requires
        pre.balances.contains_key(wallets_id),
        store_apply(pre, request, exact).0.balances[wallets_id] != pre.balances[wallets_id],
    ensures
        request matches RequestView::AdjustBalance { wallets_id: adjusted, delta }
            && adjusted == wallets_id && store_apply(pre, request, exact).1
            == AnswerView::Adjusted(Ok(true)) && store_apply(
            pre,
            request,
            exact,
        ).0.balances[wallets_id] == pre.balances[wallets_id] + delta,
{
}

/// Tokens stay unique. Where no two rows have the same wallet and token, no
/// request makes two rows have them.
pub proof fn lemma_store_keeps_pairs_unique(pre: LedgerView, request: RequestView, exact: bool)
    requires
        pairs_unique(pre.rows),
    ensures
        pairs_unique(store_apply(pre, request, exact).0.rows),
{
    let post = store_apply(pre, request, exact).0;
    lemma_store_keeps_what_it_has(pre, request, exact);
    if let RequestView::InsertTransaction { transaction } = request {
        if transaction.token is Some && transaction.wallets_id is Some {
            let wallets_id = transaction.wallets_id->Some_0;
            let token = transaction.token->Some_0;
            if first_match(pre.rows, wallets_id, token, 0) is None {
                lemma_none_matches(pre.rows, wallets_id, token, 0);
            }
        }
    }
    assert forall|i: int, j: int|
        0 <= i < j < post.rows.len() && (#[trigger] post.rows[i]).wallets_id is Some
            && post.rows[i].token is Some implies !(post.rows[i].wallets_id == (
        #[trigger] post.rows[j]).wallets_id && post.rows[i].token == post.rows[j].token) by {
        if j < pre.rows.len() {
            assert(pre.rows[i].wallets_id == post.rows[i].wallets_id);
            assert(pre.rows[j].wallets_id == post.rows[j].wallets_id);
        } else {
            assert(pre.rows[i].wallets_id == post.rows[i].wallets_id);
        }
    }
}

/// An update applies once. After an update that changed a row away from the
/// status it expected, every further update of that row that expects the same
/// status changes nothing and answers `Ok(false)`: of two requests that race
/// to move a transaction on, only the first is applied.
pub proof fn lemma_update_applies_once(
    pre: LedgerView,
    first: TransactionView,
    second: TransactionView,
    expected: TransactionStatus,
)
    requires
        first.status != expected,
        second.id == first.id,
        apply_update(pre, first, expected).1 == AnswerView::Updated(Ok(true)),
    ensures
        apply_update(apply_update(pre, first, expected).0, second, expected) == (
            apply_update(pre, first, expected).0,
            AnswerView::Updated(Ok(false)),
        ),
{
}

/// Whether the list holds a wallet with this identifier.
pub open spec fn has_wallet(wallets: Seq<Wallet>, id: u64) -> bool {
    exists|i: int| 0 <= i < wallets.len() && (#[trigger] wallets[i]).id == id
}

/// The position of the wallet with this identifier.
pub open spec fn wallet_index(wallets: Seq<Wallet>, id: u64) -> int {
    choose|i: int| 0 <= i < wallets.len() && (#[trigger] wallets[i]).id == id
}

/// The balances of a list of wallets, by identifier.
pub open spec fn balances_of(wallets: Seq<Wallet>) -> Map<u64, int> {
    Map::new(
        |id: u64| has_wallet(wallets, id),
        |id: u64| wallets[wallet_index(wallets, id)].balance@,
    )
}

/// The views of a list of transactions.
pub open spec fn rows_of(transactions: Seq<Transaction>) -> Seq<TransactionView> {
    Seq::new(transactions.len(), |i: int| transactions[i]@)
}

/// Whether no two wallets of the list share an identifier.
pub open spec fn distinct_ids(wallets: Seq<Wallet>) -> bool {
    forall|i: int, j: int|
        0 <= i < wallets.len() && 0 <= j < wallets.len() && i != j ==> (#[trigger] wallets[i]).id
            != (#[trigger] wallets[j]).id
}

/// In a list without shared identifiers, the wallet at a position is the
/// wallet that its identifier names.
pub proof fn lemma_balance_at(wallets: Seq<Wallet>, at: int)
    requires
        distinct_ids(wallets),
        0 <= at < wallets.len(),
    ensures
        has_wallet(wallets, wallets[at].id),
        wallet_index(wallets, wallets[at].id) == at,
        balances_of(wallets).contains_key(wallets[at].id),
        balances_of(wallets)[wallets[at].id] == wallets[at].balance@,
{
    let id = wallets[at].id;
    assert(has_wallet(wallets, id));
    let found = wallet_index(wallets, id);
    assert(0 <= found < wallets.len() && wallets[found].id == id);
}

/// Replacing the balance of the wallet at a position replaces the balance
/// under its identifier and no other.
pub proof fn lemma_balances_after_set(wallets: Seq<Wallet>, at: int, wallet: Wallet)
    requires
        distinct_ids(wallets),
        0 <= at < wallets.len(),
        wallet.id == wallets[at].id,
    ensures
        distinct_ids(wallets.update(at, wallet)),
        balances_of(wallets.update(at, wallet)) == balances_of(wallets).insert(
            wallet.id,
            wallet.balance@,
        ),
{
    let after = wallets.update(at, wallet);
    assert forall|i: int, j: int|
        0 <= i < after.len() && 0 <= j < after.len() && i != j implies (#[trigger] after[i]).id != (
        #[trigger] after[j]).id by {
        assert(after[i].id == wallets[i].id);
        assert(after[j].id == wallets[j].id);
    }
    assert forall|id: u64| has_wallet(after, id) == has_wallet(wallets, id) by {
        if has_wallet(after, id) {
            let i = wallet_index(after, id);
            assert(wallets[i].id == id);
        }
        if has_wallet(wallets, id) {
            let i = wallet_index(wallets, id);
            assert(after[i].id == id);
        }
    }
    let left = balances_of(after);
    let right = balances_of(wallets).insert(wallet.id, wallet.balance@);
    assert(has_wallet(wallets, wallet.id));
    assert forall|id: u64| left.contains_key(id) implies #[trigger] left[id] == right[id] by {
        let i = wallet_index(after, id);
        assert(0 <= i < after.len() && after[i].id == id);
        assert(wallets[i].id == id);
        lemma_balance_at(wallets, i);
        lemma_balance_at(after, i);
    }
    assert(left.dom() =~= right.dom());
    assert(left =~= right);
}

/// A store held in memory.
#[derive(Debug)]
pub struct Ledger {
    wallets: Vec<Wallet>,
    transactions: Vec<Transaction>,
}

impl View for Ledger {
    type V = LedgerView;

    closed spec fn view(&self) -> LedgerView {
        LedgerView { balances: balances_of(self.wallets@), rows: rows_of(self.transactions@) }
    }
}

impl Ledger {
    /// Whether the store is well formed: no two wallets share an identifier,
    /// and the transaction at position `i` has the identifier `i + 1`.
    pub closed spec fn wf(&self) -> bool {
        &&& distinct_ids(self.wallets@)
        &&& forall|i: int|
            0 <= i < self.transactions.len() ==> (#[trigger] self.transactions[i]).id == i + 1
    }

    /// The wallets, in the order in which they were opened.
    pub closed spec fn wallet_list(&self) -> Seq<Wallet> {
        self.wallets@
    }

    /// Whether the store can hold exactly the balance that the wallet has
    /// after `delta` is added to it: always where the two add without any
    /// rescaling, and otherwise where the decimal arithmetic gives their
    /// exact sum (`exact_sum`).
    pub open spec fn holds_exactly(&self, wallets_id: u64, delta: Amount) -> bool {
        let balance = self.wallet_list()[wallet_index(self.wallet_list(), wallets_id)].balance;
        has_wallet(self.wallet_list(), wallets_id) && (balance.adds_plainly(delta) || exact_sum(
            balance,
            delta,
        ) is Some)
    }

    /// Whether the store can carry `request` out exactly: every request but
    /// an adjustment of a balance always can.
    pub open spec fn is_exact(&self, request: Request) -> bool {
        match request {
            Request::AdjustBalance { wallets_id, delta } => self.holds_exactly(wallets_id, delta),
            _ => true,
        }
    }

    /// In a well-formed store the row at position `i` has the identifier
    /// `i + 1`.
    pub proof fn lemma_rows_are_numbered(&self)
        requires
            self.wf(),
        ensures
            forall|i: int| 0 <= i < self@.rows.len() ==> (#[trigger] self@.rows[i]).id == i + 1,
    {
        assert forall|i: int| 0 <= i < self@.rows.len() implies (#[trigger] self@.rows[i]).id == i
            + 1 by {
            assert(self@.rows[i] == self.transactions[i]@);
        }
    }

    /// A store with no wallet and no transaction.
    pub fn new() -> (r: Ledger)
        ensures
            r.wf(),
            r.wallet_list() == Seq::<Wallet>::empty(),
            r@.balances == Map::<u64, int>::empty(),
            r@.rows == Seq::<TransactionView>::empty(),
    {
        let r = Ledger { wallets: Vec::new(), transactions: Vec::new() };
        assert(r@.balances =~= Map::<u64, int>::empty());
        assert(r@.rows =~= Seq::<TransactionView>::empty());
        r
    }

    fn position(&self, wallets_id: u64) -> (r: Option<usize>)
        requires
            self.wf(),
        ensures
            r matches Some(at) ==> at < self.wallets.len() && self.wallets[at as int].id
                == wallets_id && wallet_index(self.wallets@, wallets_id) == at,
            r is Some == has_wallet(self.wallets@, wallets_id),
            r is Some == self@.balances.contains_key(wallets_id),
    {
        let mut at: usize = 0;
        while at < self.wallets.len()
            invariant
                at <= self.wallets.len(),
                forall|i: int| 0 <= i < at ==> (#[trigger] self.wallets[i]).id != wallets_id,
                distinct_ids(self.wallets@),
            decreases self.wallets.len() - at,
        {
            if self.wallets[at].id == wallets_id {
                proof {
                    lemma_balance_at(self.wallets@, at as int);
                }
                return Some(at);
            }
            at = at + 1;
        }
        None
    }

    /// Opens a wallet with this identifier and balance. Nothing is opened
    /// for the identifier zero, nor for one that a wallet already has.
    pub fn open_wallet(&mut self, wallet: Wallet) -> (r: bool)
        requires
            old(self).wf(),
        ensures
            final(self).wf(),
            r == (wallet.id != 0 && !old(self)@.balances.contains_key(wallet.id)),
            r ==> final(self)@.balances == old(self)@.balances.insert(wallet.id, wallet.balance@),
            r ==> final(self).wallet_list() == old(self).wallet_list().push(wallet),
            !r ==> final(self)@.balances == old(self)@.balances,
            !r ==> final(self).wallet_list() == old(self).wallet_list(),
            final(self)@.rows == old(self)@.rows,
    {
        if wallet.id == 0 || self.position(wallet.id).is_some() {
            return false;
        }
        let ghost before = self.wallets@;
        self.wallets.push(wallet);
        proof {
            let after = self.wallets@;
            assert(after == before.push(wallet));
            assert forall|i: int, j: int|
                0 <= i < after.len() && 0 <= j < after.len() && i != j implies (
            #[trigger] after[i]).id != (#[trigger] after[j]).id by {
                if i < before.len() {
                    assert(before[i].id == after[i].id);
                }
                if j < before.len() {
                    assert(before[j].id == after[j].id);
                }
            }
            let last = before.len() as int;
            lemma_balance_at(after, last);
            let left = balances_of(after);
            let right = balances_of(before).insert(wallet.id, wallet.balance@);
            assert forall|id: u64| left.contains_key(id) == right.contains_key(id) by {
                if has_wallet(after, id) {
                    let i = wallet_index(after, id);
                    if i < before.len() {
                        assert(before[i].id == id);
                    }
                }
                if has_wallet(before, id) {
                    let i = wallet_index(before, id);
                    assert(after[i].id == id);
                }
            }
            assert forall|id: u64| left.contains_key(id) implies #[trigger] left[id]
                == right[id] by {
                let i = wallet_index(after, id);
                assert(0 <= i < after.len() && after[i].id == id);
                lemma_balance_at(after, i);
                if i < before.len() {
                    assert(before[i] == after[i]);
                    lemma_balance_at(before, i);
                }
            }
            assert(left.dom() =~= right.dom());
            assert(left =~= right);
        }
        true
    }

    /// Every wallet, in the order in which they were opened.
    pub fn wallets(&self) -> (r: Vec<Wallet>)
        requires
            self.wf(),
        ensures
            r@ == self.wallet_list(),
            distinct_ids(r@),
            self@.balances == balances_of(r@),
    {
        let mut list: Vec<Wallet> = Vec::new();
        let mut at: usize = 0;
        while at < self.wallets.len()
            invariant
                at <= self.wallets.len(),
                list@ == self.wallets@.subrange(0, at as int),
            decreases self.wallets.len() - at,
        {
            list.push(self.wallets[at]);
            assert(list@ =~= self.wallets@.subrange(0, at + 1));
            at = at + 1;
        }
        assert(list@ =~= self.wallets@);
        list
    }

    /// Every row of the transaction table, in the order in which they were
    /// written.
    pub fn transactions(&self) -> (r: Vec<Transaction>)
        ensures
            rows_of(r@) == self@.rows,
    {
        let mut list: Vec<Transaction> = Vec::new();
        let mut at: usize = 0;
        while at < self.transactions.len()
            invariant
                at <= self.transactions.len(),
                list@.len() == at,
                forall|i: int| 0 <= i < at ==> (#[trigger] list@[i])@ == self.transactions@[i]@,
            decreases self.transactions.len() - at,
        {
            list.push(self.transactions[at].clone());
            at = at + 1;
        }
        assert(rows_of(list@) =~= rows_of(self.transactions@));
        list
    }

    /// Reads the wallet with this identifier (`apply_find_wallet`).
    pub fn find_wallet(&self, wallets_id: u64) -> (r: Option<Wallet>)
        requires
            self.wf(),
        ensures
            r is Some == self@.balances.contains_key(wallets_id),
            r matches Some(wallet) ==> wallet.id == wallets_id && wallet.balance@
                == self@.balances[wallets_id],
    {
        match self.position(wallets_id) {
            Some(at) => {
                proof {
                    lemma_balance_at(self.wallets@, at as int);
                }
                Some(self.wallets[at])
            },
            None => None,
        }
    }

    /// Adds `delta` to the balance of a wallet (`apply_adjust`).
    pub fn adjust_balance(&mut self, wallets_id: u64, delta: Amount) -> (r: Result<
        bool,
        StoreError,
    >)
        requires
            old(self).wf(),
        ensures
            final(self).wf(),
            (final(self)@, AnswerView::Adjusted(r)) == apply_adjust(
                old(self)@,
                wallets_id,
                delta@,
                old(self).holds_exactly(wallets_id, delta),
            ),
            r != Ok::<bool, StoreError>(true) ==> final(self).wallet_list() == old(
                self,
            ).wallet_list(),
    {
        if wallets_id == 0 {
            return Err(StoreError::ZeroWalletId);
        }
        let at: usize = match self.position(wallets_id) {
            Some(at) => at,
            None => {
                return Ok(false);
            },
        };
        proof {
            lemma_balance_at(self.wallets@, at as int);
        }
        let wallet: Wallet = self.wallets[at];
        if !wallet.validate_balance(delta) {
            return Ok(false);
        }
        match wallet.balance.checked_add(&delta) {
            Some(balance) => {
                let adjusted = Wallet { id: wallet.id, balance };
                proof {
                    lemma_balances_after_set(self.wallets@, at as int, adjusted);
                }
                self.wallets.set(at, adjusted);
                Ok(true)
            },
            None => Err(StoreError::OutOfRange),
        }
    }

    fn row_position(&self, wallets_id: u64, token: &String) -> (r: Option<usize>)
        ensures
            r matches Some(at) ==> at < self.transactions.len() && first_match(
                self@.rows,
                wallets_id,
                token@,
                0,
            ) == Some(at as int),
            r is None ==> first_match(self@.rows, wallets_id, token@, 0) is None,
    {
        let mut at: usize = 0;
        while at < self.transactions.len()
            invariant
                at <= self.transactions.len(),
                first_match(self@.rows, wallets_id, token@, 0) == first_match(
                    self@.rows,
                    wallets_id,
                    token@,
                    at as int,
                ),
                self@.rows == rows_of(self.transactions@),
            decreases self.transactions.len() - at,
        {
            let row = &self.transactions[at];
            let same_wallet = match row.wallets_id {
                Some(id) => id == wallets_id,
                None => false,
            };
            let same_token = match &row.token {
                Some(held) => *held == *token,
                None => false,
            };
            assert(self@.rows[at as int] == self.transactions[at as int]@);
            assert((same_wallet && same_token) == row_matches(
                self@.rows[at as int],
                wallets_id,
                token@,
            ));
            if same_wallet && same_token {
                return Some(at);
            }
            at = at + 1;
        }
        None
    }

    /// Reads the transaction that the wallet has under the token
    /// (`apply_find_transaction`).
    pub fn find_transaction(&self, wallets_id: u64, token: &String) -> (r: Option<Transaction>)
        ensures
            match first_match(self@.rows, wallets_id, token@, 0) {
                Some(at) => r matches Some(found) && found@ == self@.rows[at],
                None => r is None,
            },
    {
        match self.row_position(wallets_id, token) {
            Some(at) => {
                assert(self@.rows[at as int] == self.transactions[at as int]@);
                Some(self.transactions[at].clone())
            },
            None => None,
        }
    }

    fn append_row(&mut self, row: Transaction) -> (r: u64)
        requires
            old(self).wf(),
            has_room(old(self)@.rows),
        ensures
            final(self).wf(),
            r == next_id(old(self)@.rows),
            final(self)@.balances == old(self)@.balances,
            final(self)@.rows == old(self)@.rows.push(
                TransactionView { id: r, ..row@ },
            ),
            final(self).wallets == old(self).wallets,
    {
        let count: u64 = self.transactions.len() as u64;
        let id: u64 = count + 1;
        let stored = Transaction {
            id,
            wallets_id: row.wallets_id,
            amount: row.amount,
            status: row.status,
            token: row.token,
            errors: row.errors,
        };
        let ghost before = self.transactions@;
        self.transactions.push(stored);
        assert(self.transactions@ == before.push(stored));
        assert(rows_of(self.transactions@) =~= rows_of(before).push(stored@));
        id
    }

    /// Stores a transaction as a new row and gives the row's identifier
    /// (`apply_insert`).
    pub fn insert_transaction(&mut self, transaction: &Transaction) -> (r: Result<u64, StoreError>)
        requires
            old(self).wf(),
        ensures
            final(self).wf(),
            (final(self)@, AnswerView::Inserted(r)) == apply_insert(old(self)@, transaction@),
            final(self).wallet_list() == old(self).wallet_list(),
    {
        let token: String = match &transaction.token {
            Some(token) => token.clone(),
            None => {
                return Err(StoreError::MissingToken);
            },
        };
        if let Some(wallets_id) = transaction.wallets_id {
            if self.row_position(wallets_id, &token).is_some() {
                return Err(StoreError::DuplicateToken);
            }
        }
        if self.transactions.len() as u64 == u64::MAX {
            return Err(StoreError::Unavailable);
        }
        let row = Transaction {
            id: 0,
            wallets_id: transaction.wallets_id,
            amount: transaction.amount,
            status: transaction.status,
            token: Some(token),
            errors: None,
        };
        let id = self.append_row(row);
        Ok(id)
    }

    /// Stores an audit row for a rejected attempt (`apply_log`).
    pub fn log_rejection(&mut self, transaction: &Transaction) -> (r: Result<bool, StoreError>)
        requires
            old(self).wf(),
        ensures
            final(self).wf(),
            (final(self)@, AnswerView::Logged(r)) == apply_log(old(self)@, transaction@),
            final(self).wallet_list() == old(self).wallet_list(),
    {
        if self.transactions.len() as u64 == u64::MAX {
            return Err(StoreError::Unavailable);
        }
        let row = Transaction {
            id: 0,
            wallets_id: None,
            amount: transaction.amount,
            status: TransactionStatus::Log,
            token: None,
            errors: transaction.errors.clone(),
        };
        self.append_row(row);
        Ok(true)
    }

    /// Gives the row of a transaction its status and error text, provided
    /// that the row still has the status `expected` (`apply_update`).
    pub fn update_status(&mut self, transaction: &Transaction, expected: TransactionStatus) -> (r:
        Result<bool, StoreError>)
        requires
            old(self).wf(),
        ensures
            final(self).wf(),
            (final(self)@, AnswerView::Updated(r)) == apply_update(
                old(self)@,
                transaction@,
                expected,
            ),
            final(self).wallet_list() == old(self).wallet_list(),
    {
        if transaction.id == 0 {
            return Err(StoreError::ZeroTransactionId);
        }
        if transaction.id - 1 >= self.transactions.len() as u64 {
            return Ok(false);
        }
        let at: usize = (transaction.id - 1) as usize;
        let ghost before = self.transactions@;
        assert(self@.rows[at as int] == before[at as int]@);
        let row = &self.transactions[at];
        if row.status != expected {
            return Ok(false);
        }
        let errors: Option<String> = match &transaction.errors {
            Some(text) => Some(text.clone()),
            None => row.errors.clone(),
        };
        let updated = Transaction {
            id: row.id,
            wallets_id: row.wallets_id,
            amount: row.amount,
            status: transaction.status,
            token: row.token.clone(),
            errors,
        };
        self.transactions.set(at, updated);
        assert(self.transactions@ == before.update(at as int, updated));
        assert(rows_of(self.transactions@) =~= rows_of(before).update(
            at as int,
            updated_row(before[at as int]@, transaction@),
        ));
        Ok(true)
    }

    /// Carries a request out and gives the answer (`store_apply`).
    pub fn execute(&mut self, request: &Request) -> (r: Answer)
        requires
            old(self).wf(),
        ensures
            final(self).wf(),
            (final(self)@, r@) == store_apply(
                old(self)@,
                request@,
                old(self).is_exact(*request),
            ),
            !(r matches Answer::Adjusted(Ok(true))) ==> final(self).wallet_list() == old(
                self,
            ).wallet_list(),
    {
        match request {
            Request::FindWallet { wallets_id } => Answer::Wallet(Ok(self.find_wallet(*wallets_id))),
            Request::LogRejection { transaction } => Answer::Logged(
                self.log_rejection(transaction),
            ),
            Request::InsertTransaction { transaction } => Answer::Inserted(
                self.insert_transaction(transaction),
            ),
            Request::AdjustBalance { wallets_id, delta } => Answer::Adjusted(
                self.adjust_balance(*wallets_id, *delta),
            ),
            Request::UpdateStatus { transaction, expected } => Answer::Updated(
                self.update_status(transaction, *expected),
            ),
            Request::FindTransaction { wallets_id, token } => Answer::Transaction(
                Ok(self.find_transaction(*wallets_id, token)),
            ),
        }
    }
}

} // verus!
