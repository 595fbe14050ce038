//! Hashes, hexadecimal display and the byte-level helpers the codecs share.

pub(crate) mod bytes;
pub mod ecdsa;
pub mod hash;
pub mod hexcode;
pub mod serialize;
pub mod types;

pub use hash::{hash160, hash256, sha256_hash};
pub use serialize::{read_var_bytes, read_varint, write_var_bytes, write_varint, Reader, Serializable};
pub use types::Hash256;
