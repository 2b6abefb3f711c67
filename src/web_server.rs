use vstd::prelude::*;

verus! {

/// A request to create a wallet.
pub struct CreateWalletRequest {
    pub name: String,
    pub password: String,
}

/// A request to import a wallet from its seed phrase.
pub struct ImportWalletRequest {
    pub name: String,
    pub seed_phrase: String,
    pub password: String,
}

/// A request to send an amount, in satoshis, from a wallet.
pub struct SendTransactionRequest {
    pub wallet_id: String,
    pub to_address: String,
    pub amount: u64,
    pub currency: String,
}

/// The balance of one address, in satoshis.
pub struct BalanceResponse {
    pub address: String,
    pub balance: u64,
    pub currency: String,
}

/// A transfer as the HTTP layer shows it; the amount is in satoshis.
pub struct TransactionResponse {
    pub hash: String,
    pub from: String,
    pub to: String,
    pub amount: i64,
    pub currency: String,
    pub status: String,
    pub timestamp: u64,
}

/// A request for the next address of a wallet.
pub struct GenerateAddressRequest {
    pub wallet_id: String,
    pub currency: String,
}

/// A wallet as the HTTP layer shows it.
pub struct WalletResponse {
    pub id: String,
    pub name: String,
    pub addresses: Vec<String>,
    pub created_at: String,
}

} // verus!
