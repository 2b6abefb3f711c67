use vstd::prelude::*;
use crate::error::WalletError;
use crate::text::same_text;

verus! {

/// The explorer API base of a network: mainnet or testnet.
pub open spec fn base_url_of(network: Seq<char>) -> Option<Seq<char>> {
    if network == "mainnet"@ {
        Some("https://blockstream.info/api"@)
    } else if network == "testnet"@ {
        Some("https://blockstream.info/testnet/api"@)
    } else {
        None
    }
}

/// The explorer API base of `network`; any network but mainnet and testnet is refused.
pub fn base_url_for(network: &str) -> (r: Result<String, WalletError>)
    ensures
        base_url_of(network@) is None <==> (r matches Err(WalletError::Network(_))),
        r matches Ok(u) ==> base_url_of(network@) == Some(u@),
{
    if same_text(network, "mainnet") {
        Ok(String::from_str("https://blockstream.info/api"))
    } else if same_text(network, "testnet") {
        Ok(String::from_str("https://blockstream.info/testnet/api"))
    } else {
        Err(WalletError::Network(String::from_str("Unsupported network: ").concat(network)))
    }
}

} // verus!
