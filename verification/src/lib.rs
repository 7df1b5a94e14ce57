//! Settlement and margin accounting for a margin-traded derivatives protocol.
//!
//! Traders open leveraged positions against execution venues; a counterparty
//! pool takes the other side of every profit and loss; an insurance fund and
//! liquidation protect solvency. This crate holds the accounting rules as
//! verified functions on plain values.
//!
//! - Records: [`position_details`], [`portfolio`], [`registry`], [`insurance`],
//!   [`vesting`], and the venue in [`slab`].
//! - Rules: [`pricing`] checks prices against the oracle, [`collateral`] moves
//!   margin and profit, [`settlement`] applies fills and closes a trade,
//!   [`execution`] runs a whole trade, [`liquidation`] closes positions by
//!   force. [`book`] finds position records; [`settlement_laws`] states what
//!   holds of every settlement.
//! - Bytes: [`bytes`] spells integers; [`storage`], [`portfolio_codec`],
//!   [`registry_codec`] and [`slab_codec`] lay the records out;
//!   [`router_instruction`], [`slab_instruction`] and [`wire`] decode and
//!   encode requests; [`system_program`] builds the requests that create
//!   accounts.
//! - Accounts: [`accounts`], [`pubkey`], [`pda`], [`oracle`], [`initialize`].
//!
//! Every operation is all or nothing: it returns the reason of its refusal
//! and leaves the records it was given exactly as they were.

pub mod accounts;
pub mod book;
pub mod bytes;
pub mod collateral;
pub mod error;
pub mod execution;
pub mod initialize;
pub mod insurance;
pub mod liquidation;
pub mod math;
pub mod oracle;
pub mod pda;
pub mod portfolio;
pub mod portfolio_codec;
pub mod position_details;
pub mod pricing;
pub mod pubkey;
pub mod registry;
pub mod registry_codec;
pub mod router_instruction;
pub mod settlement;
pub mod settlement_laws;
pub mod slab;
pub mod slab_codec;
pub mod slab_instruction;
pub mod storage;
pub mod system_program;
pub mod vesting;
pub mod wire;
