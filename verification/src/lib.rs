//! A minimal hash-linked append-only ledger.
//!
//! A [`chain::Blockchain`] owns an ordered sequence of [`chain::Block`]
//! records. Each block carries a fingerprint of its own authenticated fields
//! and the fingerprint of its predecessor, so a later edit of any stored
//! block is detectable by a single walk over the chain. The fingerprint is a
//! fast non-cryptographic 64-bit mix rendered as fixed-width hexadecimal
//! text; it is defined in [`digest`] as a pure specification function, and
//! every executable operation is proved to agree with it.
//!
//! The [`cipher`] module holds a small rotating-substitution text cipher, and
//! [`timing`] the clock-facing helpers; both stand apart from the ledger
//! core.

pub mod chain;
pub mod cipher;
pub mod digest;
pub mod timing;
