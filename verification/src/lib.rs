//! Authorization-gated ledger primitives: a single fixed-ratio exchange offer
//! and a fungible balance ledger, each a state machine over plain values.
//!
//! Storage, signature checking and event delivery belong to the host. The
//! host tells a ledger who has proved control through an [`AuthGate`], hands
//! it identities as opaque byte strings, and publishes what a call returns.

pub mod auth;
pub mod balance_book;
pub mod error;
pub mod identity;
pub mod ratio;
pub mod single_offer;
pub mod supply;
pub mod token_contract;

pub use crate::auth::AuthGate;
pub use crate::balance_book::Holding;
pub use crate::error::ContractError;
pub use crate::identity::Identity;
pub use crate::single_offer::{Offer, SingleOfferContract, TradeEvent};
pub use crate::token_contract::TokenContract;
