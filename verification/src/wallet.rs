//! Wallets and the rules that authorise a movement against a balance.

use crate::amount::Amount;
use vstd::prelude::*;

verus! {

/// An account holding a balance.
#[derive(Debug, Clone, Copy)]
pub struct Wallet {
    pub id: u64,
    pub balance: Amount,
}

/// What a wallet is to the contracts: its identifier and the value of its
/// balance.
pub struct WalletView {
    pub id: u64,
    pub balance: int,
}

impl View for Wallet {
    type V = WalletView;

    open spec fn view(&self) -> WalletView {
        WalletView { id: self.id, balance: self.balance@ }
    }
}

impl Default for Wallet {
    /// The wallet with the identifier zero and the balance zero.
    fn default() -> (r: Self)
        ensures
            r.id == 0,
            r.balance@ == 0,
            r.balance.spec_mantissa() == 0,
            r.balance.spec_scale() == 0,
    {
        Wallet { id: 0, balance: Amount::zero() }
    }
}

/// The sufficiency rule: a credit is always authorised, a debit only where
/// it leaves the balance at zero or above. The wallet applies it before a
/// transaction is stored, and the store applies it again as it adjusts the
/// balance.
pub open spec fn stays_solvent(balance: int, delta: int) -> bool {
    delta >= 0 || balance + delta >= 0
}

/// The size of `v` without its sign.
pub open spec fn magnitude(v: int) -> int {
    if v < 0 {
        -v
    } else {
        v
    }
}

/// On a balance that is not negative, a movement is authorised exactly
/// where it is a credit or the balance is at least as large as the debit.
pub proof fn lemma_solvency_by_magnitude(balance: int, requested: int)
    requires
        balance >= 0,
    ensures
        stays_solvent(balance, requested) == (requested >= 0 || magnitude(balance) >= magnitude(
            requested,
        )),
{
}

/// An overdrawn wallet authorises no debit.
pub proof fn lemma_overdrawn_wallets_authorise_no_debit(balance: int, requested: int)
    requires
        balance < 0,
        requested < 0,
    ensures
        !stays_solvent(balance, requested),
{
}

impl Wallet {
    /// Whether the wallet's balance authorises the requested movement
    /// (`stays_solvent`): a credit always, a debit only where the balance
    /// after it is zero or above.
    pub fn validate_balance(&self, requested_amount: Amount) -> (r: bool)
        ensures
            r == stays_solvent(self.balance@, requested_amount@),
    {
        if !requested_amount.is_negative() {
            return true;
        }
        let owed: Amount = requested_amount.neg();
        self.balance.ge(&owed)
    }
}

} // verus!
