use vstd::prelude::*;

verus! {

/// Every failure that an operation of the wallet can report.
#[derive(Debug, Clone, PartialEq, Eq)]
pub enum WalletError {
    /// An underlying primitive rejected its input (malformed key bytes and the like).
    Crypto(String),
    /// A failure handed on from the network collaborator.
    Network(String),
    /// A failure handed on from the blob store.
    Storage(String),
    /// The phrase is not a well-formed mnemonic: unknown word, bad count or bad checksum.
    InvalidSeedPhrase,
    /// The balance does not cover the amount.
    InsufficientFunds,
    /// The text is not a valid address, or the network is not supported.
    InvalidAddress(String),
    /// No stored wallet has this name.
    WalletNotFound(String),
    /// An entry with this name already exists.
    DuplicateName(String),
    /// No entry has this name.
    NotFound(String),
    /// Opening an envelope failed: wrong password or altered data, on purpose not told apart.
    AuthenticationFailure,
}

impl WalletError {
    /// A line of text that describes the error.
    pub fn message(&self) -> (r: String) {
        match self {
            WalletError::Crypto(m) => String::from_str("Cryptographic error: ").concat(m.as_str()),
            WalletError::Network(m) => String::from_str("Network error: ").concat(m.as_str()),
            WalletError::Storage(m) => String::from_str("Storage error: ").concat(m.as_str()),
            WalletError::InvalidSeedPhrase => String::from_str("Invalid seed phrase"),
            WalletError::InsufficientFunds => String::from_str("Insufficient funds"),
            WalletError::InvalidAddress(m) => String::from_str("Invalid address: ").concat(m.as_str()),
            WalletError::WalletNotFound(m) => String::from_str("Wallet not found: ").concat(m.as_str()),
            WalletError::DuplicateName(m) => String::from_str("Name already exists: ").concat(m.as_str()),
            WalletError::NotFound(m) => String::from_str("Name not found: ").concat(m.as_str()),
            WalletError::AuthenticationFailure => String::from_str("Authentication failed"),
        }
    }
}

} // verus!
