//! Cheque approval workflow.
//!
//! - `verbalize`: an amount rendered into English words for printing.
//! - `lifecycle`: documents and their cheques, status transitions, print
//!   tracking and document locking.
//! - `ingest` and `decimal`: spreadsheet rows read into candidate cheques.
//! - `query`: the guard in front of ad-hoc reporting queries.
//! - `kanban`: the checks on the note board.
//! - `text` and `errors`: shared text facts and error types.

pub mod decimal;
pub mod errors;
pub mod ingest;
pub mod kanban;
pub mod lifecycle;
pub mod query;
pub mod text;
pub mod verbalize;
