pub mod address_book;
pub mod cli;
pub mod clock;
pub mod crypto;
pub mod encryption;
pub mod error;
pub mod fee_estimation;
pub mod keys;
pub mod network;
pub mod order;
pub mod storage;
pub mod text;
pub mod transaction;
pub mod wallet;
pub mod web_server;

pub use address_book::{AddressBook, AddressEntry};
pub use encryption::{EncryptedWallet, WalletEncryption};
pub use error::WalletError;
pub use fee_estimation::{FeeEstimate, FeeEstimator, TransactionFee};
pub use transaction::{Transaction, TransactionHistory, TransactionStatus};
pub use wallet::Wallet;
