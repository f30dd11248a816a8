//! A fixed-rate currency swap contract.
//!
//! An admin publishes a scaled exchange rate and a token for each currency;
//! anyone may then swap one currency for another at the published rates, with
//! a floor on the payout and a replay guard on the commitments they supply.
//!
//! The contract decides; the host it runs on acts. Every entry point of
//! [`SwiftRampSwap`] works on an [`Env`], which holds what the contract
//! remembers and a journal of what it asks of its host: authorizations,
//! storage writes, token transfers, events.
//!
//! - [`types`]: addresses, symbols, commitments and errors
//! - [`storage`]: stored values and their keys
//! - [`env`]: the environment of a call
//! - [`rates`]: the arithmetic of an exchange
//! - [`contract`]: the entry points
//! - [`footprint`]: the entries that each entry point reads
//! - [`answers`]: what each entry point answers and does, told on the entries
//! - [`laws`]: what holds of the contract as a whole
//!
//! A commitment is a replay guard and nothing more: amounts, senders and
//! recipients are public, as they are with any token transfer.

pub mod answers;
pub mod contract;
pub mod env;
pub mod footprint;
pub mod laws;
pub mod rates;
pub mod storage;
pub mod types;

pub use contract::SwiftRampSwap;
pub use env::{Effect, Env, SwapEvent};
pub use storage::{DataKey, Value};
pub use types::{Address, SwapError, Symbol, RATE_SCALE};
