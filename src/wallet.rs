use vstd::prelude::*;
use crate::clock::now_unix_seconds;
use crate::crypto::{
    address_is_valid, address_of, generate_mnemonic, mnemonic_seed, mnemonic_to_seed, phrase_of_entropy,
    public_key_to_address, validate_address,
};
use crate::error::WalletError;
use crate::text::same_text;
use crate::keys::{derive_keypair, keypair_of, receiving_path, standard_path, HARDENED_OFFSET};

verus! {

/// The receiving address at `index` of a wallet whose phrase is `phrase`: the mainnet
/// address of the public key at m/44'/0'/0'/0/index below the phrase's seed.
pub open spec fn wallet_address(phrase: Seq<char>, index: u32) -> Option<Seq<char>> {
    match mnemonic_seed(phrase) {
        Some(seed) => match keypair_of(seed, standard_path(index)) {
            Some(kp) => address_of(kp.1, "mainnet"@),
            None => None,
        },
        None => None,
    }
}

/// A wallet's secret state: its name, mnemonic, the addresses derived so far (the i-th at
/// index i) and its creation time in Unix seconds.
#[derive(Debug)]
pub struct Wallet {
    pub name: String,
    pub seed_phrase: String,
    pub addresses: Vec<String>,
    pub created_at: i64,
}

impl Wallet {
    /// Whether address i is the one derived at index i, for every i.
    pub open spec fn wf(&self) -> bool {
        forall|i: int| 0 <= i < self.addresses@.len() ==> wallet_address(self.seed_phrase@, i as u32)
            == Some((#[trigger] self.addresses@[i])@)
    }

    fn from_phrase(seed_phrase: String, name: &str) -> (r: Result<Wallet, WalletError>)
        ensures
            mnemonic_seed(seed_phrase@) is None ==> r == Err::<Wallet, WalletError>(WalletError::InvalidSeedPhrase),
            mnemonic_seed(seed_phrase@) is Some && wallet_address(seed_phrase@, 0) is None ==> (r matches Err(
                WalletError::Crypto(_),
            )),
            r is Ok <==> wallet_address(seed_phrase@, 0) is Some,
            r matches Ok(w) ==> w.wf() && w.name@ == name@ && w.seed_phrase@ == seed_phrase@ && w.addresses@.len() == 1,
    {
        let mut wallet = Wallet {
            name: String::from_str(name),
            seed_phrase,
            addresses: Vec::new(),
            created_at: now_unix_seconds(),
        };
        let address = match wallet.generate_address(0) {
            Ok(a) => a,
            Err(e) => {
                return Err(e);
            },
        };
        wallet.addresses.push(address);
        Ok(wallet)
    }

    /// A new wallet named `name` on a freshly drawn mnemonic, with its first address.
    pub fn create_new(name: &str) -> (r: Result<Wallet, WalletError>)
        ensures
            r matches Ok(w) ==> w.wf() && w.name@ == name@ && w.addresses@.len() == 1,
            r matches Ok(w) ==> exists|e: Seq<u8>| e.len() == 16 && phrase_of_entropy(e) == Some(w.seed_phrase@),
            r is Err ==> exists|e: Seq<u8>| e.len() == 16 && phrase_of_entropy(e) is Some && wallet_address(
                phrase_of_entropy(e)->Some_0,
                0,
            ) is None,
            r is Err ==> (r matches Err(WalletError::Crypto(_))),
    {
        let phrase = match generate_mnemonic() {
            Ok(p) => p,
            Err(e) => {
                return Err(e);
            },
        };
        match Self::from_phrase(phrase, name) {
            Ok(w) => Ok(w),
            Err(WalletError::InvalidSeedPhrase) => Err(
                WalletError::Crypto(String::from_str("generated mnemonic was refused")),
            ),
            Err(e) => Err(e),
        }
    }

    /// The wallet of an existing mnemonic, named `name`, with its first address. Fails with
    /// `InvalidSeedPhrase` when the phrase is not a well-formed mnemonic.
    pub fn from_seed_phrase(seed_phrase: &str, name: &str) -> (r: Result<Wallet, WalletError>)
        ensures
            mnemonic_seed(seed_phrase@) is None ==> r == Err::<Wallet, WalletError>(WalletError::InvalidSeedPhrase),
            r is Ok <==> wallet_address(seed_phrase@, 0) is Some,
            r matches Ok(w) ==> w.wf() && w.name@ == name@ && w.seed_phrase@ == seed_phrase@ && w.addresses@.len() == 1,
    {
        Self::from_phrase(String::from_str(seed_phrase), name)
    }

    /// The receiving address at `index`.
    pub fn generate_address(&self, index: u32) -> (r: Result<String, WalletError>)
        requires
            index < HARDENED_OFFSET,
        ensures
            r is Ok <==> wallet_address(self.seed_phrase@, index) is Some,
            r matches Ok(a) ==> wallet_address(self.seed_phrase@, index) == Some(a@),
            mnemonic_seed(self.seed_phrase@) is None ==> r == Err::<String, WalletError>(WalletError::InvalidSeedPhrase),
            mnemonic_seed(self.seed_phrase@) is Some && r is Err ==> (r matches Err(WalletError::Crypto(_))),
    {
        let seed = match mnemonic_to_seed(self.seed_phrase.as_str()) {
            Ok(s) => s,
            Err(e) => {
                return Err(e);
            },
        };
        let path = receiving_path(index);
        let keypair = match derive_keypair(&seed, path.as_slice()) {
            Ok(kp) => kp,
            Err(e) => {
                return Err(e);
            },
        };
        match public_key_to_address(keypair.public_key.as_slice(), "mainnet") {
            Ok(a) => Ok(a),
            Err(_) => Err(WalletError::Crypto(String::from_str("mainnet is not supported"))),
        }
    }

    /// Whether every stored address is the one derived at its index, re-deriving each.
    /// Wallets with more addresses than unhardened indices are refused.
    pub fn addresses_consistent(&self) -> (r: bool)
        ensures
            r ==> self.wf(),
            self.addresses@.len() <= HARDENED_OFFSET ==> (r == self.wf()),
    {
        let n = self.addresses.len();
        if n > HARDENED_OFFSET as usize {
            return false;
        }
        let mut i: usize = 0;
        while i < n
            invariant
                n == self.addresses@.len(),
                n <= HARDENED_OFFSET,
                i <= n,
                forall|j: int| 0 <= j < i ==> wallet_address(self.seed_phrase@, j as u32) == Some(
                    (#[trigger] self.addresses@[j])@,
                ),
            decreases n - i,
        {
            match self.generate_address(i as u32) {
                Ok(a) => {
                    if !same_text(a.as_str(), self.addresses[i].as_str()) {
                        return false;
                    }
                },
                Err(_) => {
                    assert(wallet_address(self.seed_phrase@, i as u32) != Some(self.addresses@[i as int]@));
                    return false;
                },
            }
            i = i + 1;
        }
        true
    }

    pub fn get_addresses(&self) -> (r: &Vec<String>)
        ensures
            r@ == self.addresses@,
    {
        &self.addresses
    }

    /// Derives the address at the next index and appends it.
    pub fn add_new_address(&mut self) -> (r: Result<String, WalletError>)
        requires
            old(self).wf(),
            old(self).addresses@.len() < HARDENED_OFFSET,
        ensures
            final(self).wf(),
            final(self).name == old(self).name && final(self).seed_phrase == old(self).seed_phrase,
            final(self).created_at == old(self).created_at,
            r matches Ok(a) ==> final(self).addresses@ == old(self).addresses@.push(a)
                && wallet_address(old(self).seed_phrase@, old(self).addresses@.len() as u32) == Some(a@),
            r is Err ==> final(self).addresses@ == old(self).addresses@,
            r is Ok <==> wallet_address(old(self).seed_phrase@, old(self).addresses@.len() as u32) is Some,
    {
        let index = self.addresses.len() as u32;
        let address = match self.generate_address(index) {
            Ok(a) => a,
            Err(e) => {
                return Err(e);
            },
        };
        self.addresses.push(address.clone());
        proof {
            assert forall|i: int| 0 <= i < self.addresses@.len() implies wallet_address(self.seed_phrase@, i as u32)
                == Some((#[trigger] self.addresses@[i])@) by {
                if i < old(self).addresses@.len() {
                    assert(self.addresses@[i] == old(self).addresses@[i]);
                }
            }
        }
        Ok(address)
    }

    pub fn get_seed_phrase(&self) -> (r: &str)
        ensures
            r@ == self.seed_phrase@,
    {
        self.seed_phrase.as_str()
    }

    /// Whether `address` is a valid address.
    pub fn is_valid_address(&self, address: &str) -> (r: bool)
        ensures
            r == address_is_valid(address@),
    {
        validate_address(address)
    }

    /// The checks before sending `amount` satoshis to `to_address` out of `balance`:
    /// `InvalidAddress` when the recipient does not validate, else `InsufficientFunds` when
    /// the balance falls short, else the sending address (the first one).
    pub fn check_send(&self, to_address: &str, amount: u64, balance: u128) -> (r: Result<String, WalletError>)
        ensures
            !address_is_valid(to_address@) ==> (r matches Err(WalletError::InvalidAddress(_))),
            address_is_valid(to_address@) && balance < amount ==> r == Err::<String, WalletError>(WalletError::InsufficientFunds),
            address_is_valid(to_address@) && balance >= amount && self.addresses@.len() == 0 ==> (r matches Err(WalletError::Crypto(_))),
            address_is_valid(to_address@) && balance >= amount && self.addresses@.len() > 0 ==> (r matches Ok(a) && a == self.addresses@[0]),
    {
        if !validate_address(to_address) {
            return Err(WalletError::InvalidAddress(String::from_str("Invalid recipient address: ").concat(to_address)));
        }
        if balance < amount as u128 {
            return Err(WalletError::InsufficientFunds);
        }
        if self.addresses.len() == 0 {
            return Err(WalletError::Crypto(String::from_str("wallet has no address")));
        }
        Ok(self.addresses[0].clone())
    }
}

/// The sum of the balances of a wallet's addresses, in satoshis.
pub open spec fn sum_balances(b: Seq<u64>) -> int
    decreases b.len(),
{
    if b.len() == 0 {
        0
    } else {
        sum_balances(b.drop_last()) + b.last() as int
    }
}

/// The total of per-address balances, in satoshis.
pub fn total_balance(balances: &Vec<u64>) -> (r: u128)
    ensures
        r as int == sum_balances(balances@),
{
    let mut total: u128 = 0;
    let mut i: usize = 0;
    while i < balances.len()
        invariant
            i <= balances@.len(),
            total as int == sum_balances(balances@.subrange(0, i as int)),
            total as int <= i * 0xFFFF_FFFF_FFFF_FFFF,
        decreases balances@.len() - i,
    {
        assert(balances@.subrange(0, i + 1).drop_last() =~= balances@.subrange(0, i as int));
        assert(i * 0xFFFF_FFFF_FFFF_FFFF + 0xFFFF_FFFF_FFFF_FFFF == (i + 1) * 0xFFFF_FFFF_FFFF_FFFF) by (nonlinear_arith);
        assert((i + 1) * 0xFFFF_FFFF_FFFF_FFFF <= 0x1_0000_0000_0000_0000 * 0xFFFF_FFFF_FFFF_FFFF) by (nonlinear_arith)
            requires (i as int) < 0x1_0000_0000_0000_0000;
        total = total + balances[i] as u128;
        i = i + 1;
    }
    assert(balances@.subrange(0, balances@.len() as int) =~= balances@);
    total
}

} // verus!
