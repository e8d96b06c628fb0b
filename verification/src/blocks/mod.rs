pub mod block;
pub mod blockchain;

pub use block::Block;
pub use blockchain::Blockchain;
