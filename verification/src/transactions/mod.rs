pub mod transaction;
pub mod tx_input;
pub mod tx_output;

pub use transaction::Transaction;
pub use tx_input::Txinput;
pub use tx_output::Txoutput;
