//! A minimal issuance ledger for event-attendance tokens.
//!
//! The library is the state-transition core of an attendance-token contract:
//! it records which accounts have been granted a token for which event,
//! indexes holdings per account, and gates minting either by a deduplication
//! rule or by a single admin account. The hosting environment (caller
//! resolution, timestamps, durable storage, event emission) stays outside;
//! every operation here is a pure, deterministic function of the current
//! state and plain inputs.

pub mod dedup;
pub mod gated;
pub mod ledger;
pub mod token;
