//! A small blockchain: transactions with inputs and outputs, blocks sealed by
//! a SHA3-256 hash of their bincode encoding, a chain of linked blocks, and
//! the byte records a block store keeps.

pub mod blocks;
pub mod storage;
pub mod transactions;
pub mod utils;

pub use blocks::{Block, Blockchain};
pub use storage::{get_full_key, HEIGHT, TABLE_OF_BLOCK, TIP_KEY};
pub use transactions::{Transaction, Txinput, Txoutput};
pub use utils::serializer::{hash_to_str, serialize, Encode};
