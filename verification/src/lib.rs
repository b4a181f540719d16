//! A wallet ledger: wallets hold a decimal balance, transactions debit or
//! credit a wallet and move through a confirmation lifecycle.
//!
//! The crate holds the rules of that ledger and proves them: which movements
//! are authorised, how a transaction changes state, what each step of the
//! creation and confirmation flows asks of the store, and that no sequence of
//! interleaved requests creates, destroys or double-spends money.

pub mod amount;
pub mod concurrency;
pub mod config;
pub mod decimal;
pub mod flow;
pub mod ledger;
pub mod reply;
pub mod service;
pub mod sql;
pub mod store;
pub mod text;
pub mod token;
pub mod transaction;
pub mod wallet;
