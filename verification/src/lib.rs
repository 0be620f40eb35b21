//! A deposit-gated label registry.
//!
//! Each account may hold at most one label (a bounded byte string). Setting a
//! label for the first time locks a fixed deposit against the account in the
//! currency ledger; clearing the label releases exactly that deposit. The
//! registry and the ledger are coupled one-to-one: an account has an entry
//! precisely when its deposit is held in reserve.

pub mod ledger;
pub mod registry;
