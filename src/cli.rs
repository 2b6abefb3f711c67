use vstd::prelude::*;

verus! {

/// Arguments of wallet creation.
pub struct CreateWallet {
    pub name: String,
    pub password: Option<String>,
}

/// Arguments of a wallet import from a seed phrase.
pub struct ImportWallet {
    pub name: String,
    pub seed_phrase: String,
    pub password: Option<String>,
}

/// Arguments of a transfer; the amount is in satoshis.
pub struct SendTransaction {
    pub wallet_name: String,
    pub to_address: String,
    pub amount: u64,
    pub network: String,
    pub fee_rate: String,
    pub memo: Option<String>,
}

/// Arguments of a balance query.
pub struct GetBalance {
    pub wallet_name: String,
    pub network: String,
}

/// Arguments of an address listing.
pub struct ListAddresses {
    pub wallet_name: String,
}

/// Arguments of a transaction history listing.
pub struct TransactionHistory {
    pub wallet_name: String,
    pub limit: usize,
    pub status: Option<String>,
}

/// Arguments of an address book insertion.
pub struct AddToAddressBook {
    pub name: String,
    pub address: String,
    pub label: Option<String>,
    pub notes: Option<String>,
}

/// Arguments of an address book listing.
pub struct ListAddressBook {
    pub search: Option<String>,
    pub favorites: bool,
}

/// Arguments of a fee estimate.
pub struct EstimateFee {
    pub inputs: usize,
    pub outputs: usize,
    pub priority: String,
}

/// Arguments of a wallet encryption.
pub struct EncryptWallet {
    pub wallet_name: String,
    pub password: String,
}

/// Arguments of a wallet decryption.
pub struct DecryptWallet {
    pub wallet_name: String,
    pub password: String,
}

} // verus!
