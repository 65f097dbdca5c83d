//! Personal budget ledger: the rules of a local-first ledger of accounts,
//! categories, plans and transactions, the reconciliation of two copies of
//! such a ledger, and the calendar arithmetic behind its reports.
//!
//! Everything here works on plain values. Prompting, rendering, persistence
//! and transport belong to the program that uses this library.

pub mod error;
pub mod text;
pub mod datetime;
pub mod zone;
pub mod identity;
pub mod storage;
pub mod rows;
pub mod ledger;
pub mod sync;
pub mod budget;
pub mod session;
pub mod report;
pub mod command;
