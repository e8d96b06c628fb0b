pub mod records;

pub use records::{get_full_key, HEIGHT, TABLE_OF_BLOCK, TIP_KEY};
