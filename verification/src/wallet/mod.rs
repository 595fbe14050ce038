//! The wallet: key pairs, addresses and the transaction builder.

pub mod keystore;
pub mod tx_builder;

pub use keystore::{Address, KeyPair, KeyRecord, Keystore};
pub use tx_builder::TransactionBuilder;
