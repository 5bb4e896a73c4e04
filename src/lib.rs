//! An in-memory ledger of named accounts, driven by self-contained instructions.
pub mod text;
pub mod error;
pub mod state;
pub mod instruction;
pub mod processor;
