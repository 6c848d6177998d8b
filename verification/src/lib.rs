//! Persistence and command core of a small-business invoicing application.
//!
//! The database state is modelled by [`store::Store`], an in-memory relational
//! store whose tables carry the schema's uniqueness, ordering and soft-delete
//! invariants as verified well-formedness conditions.  Every command of the
//! application's command surface is a verified method on the store.  The host
//! shell (see `app/`) mirrors the store to an embedded SQLite file and to the
//! invoice-HTML artefact tree; the decisions themselves are all made here.

pub mod artefact;
pub mod auth;
pub mod categories;
pub mod clients;
pub mod countries;
pub mod deliveries;
pub mod domain;
pub mod error;
pub mod ids;
pub mod invoices;
pub mod laws;
pub mod products;
pub mod schema;
pub mod seed;
pub mod seqs;
pub mod store;
pub mod strcmp;
pub mod suppliers;
pub mod warehouse;
