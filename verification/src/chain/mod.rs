//! The chain data model: transactions, blocks and the P2PKH script.

pub mod block;
pub mod script;
pub mod transaction;

pub use block::{Block, BlockHeader};
pub use script::{OpCode, Script};
pub use transaction::{Transaction, TxInput, TxOutput};
