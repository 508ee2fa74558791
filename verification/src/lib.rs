//! A custodial balance ledger for exactly two whitelisted fungible
//! denominations.
//!
//! The owner configured at instantiation may deposit both denominations
//! simultaneously, accumulating a tracked balance per denomination, and may
//! later withdraw the full tracked balance of both denominations to an
//! arbitrary destination address.  All state lives in an explicitly injected
//! [`state::LedgerStore`]; the host environment is responsible for persisting
//! it between calls.

pub mod contract;
pub mod error;
pub mod msg;
pub mod state;
