pub mod transaction;

pub use transaction::{Transaction, TransactionManager, TransactionView, TRANSACTION_TIMEOUT_MS};
