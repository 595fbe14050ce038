//! Proof of work and the structural validation of blocks and transactions.

pub mod clock;
pub mod gpu_pow;
pub mod pow;
pub mod validation;

pub use gpu_pow::{GpuMiner, GpuParams, GpuResult, GpuSearch, GpuStep};
pub use pow::{Miner, MiningResult, Target};
pub use validation::{BlockValidator, TransactionValidator, ValidationError};
