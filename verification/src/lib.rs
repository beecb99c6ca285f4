//! Counterfactual wallet addresses and a ledger of payment links.
//!
//! The crate has two independent halves. The first derives the address of a
//! smart-contract wallet that is not deployed yet: it checks or draws the
//! salt, encodes the view call that asks the factory contract for the address,
//! and decodes the address from the bytes the node returns. The second is a
//! ledger of auto-sweep registrations, sweep history, payment links and the
//! claims made against them, with the rules that keep those tables consistent.
//!
//! Nothing here performs I/O: the caller sends the encoded call to the node,
//! reads the clock, and persists what the ledger reports as written.

pub mod error;
pub mod hex_text;
pub mod salt;
pub mod address;
pub mod resolver;
pub mod link_id;
pub mod records;
pub mod ranking;
pub mod ledger_model;
pub mod ledger_laws;
pub mod ledger;

