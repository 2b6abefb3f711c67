use vstd::prelude::*;
use aes_gcm::aead::{Aead, KeyInit};
use crate::crypto::random_bytes;
use crate::error::WalletError;

verus! {

/// The 256-bit Argon2id key of a password, salt and cost parameters, if the parameters are accepted.
pub uninterp spec fn argon2id_key(password: Seq<char>, salt: Seq<u8>, memory_cost: u32, time_cost: u32, parallelism: u32) -> Option<Seq<u8>>;

/// The AES-256-GCM ciphertext with appended tag of a plaintext under a key and nonce.
pub uninterp spec fn gcm_sealed(key: Seq<u8>, nonce: Seq<u8>, plaintext: Seq<u8>) -> Seq<u8>;

/// Length of the salt drawn for each envelope.
pub const SALT_LEN: usize = 16;

/// Length of the nonce drawn for each envelope.
pub const NONCE_LEN: usize = 12;

/// The most lanes that Argon2 accepts.
pub const MAX_PARALLELISM: u32 = 0xFF_FFFF;

/// The length of the AES-GCM tag appended to each ciphertext.
pub const TAG_LEN: u64 = 16;

/// The largest memory cost, in KiB, that an envelope may ask for.
pub const MAX_MEMORY_COST: u32 = 0x10_0000;

/// The longest password, in characters, that is sure to fit Argon2's limit of 2^32 - 1 bytes.
pub const MAX_PASSWORD_CHARS: u64 = 0x3FFF_FFFF;

/// The largest plaintext that AES-GCM encrypts.
pub const MAX_PLAINTEXT_LEN: u64 = 0x10_0000_0000;

/// Whether Argon2 accepts these cost parameters.
pub open spec fn argon2_params_accepted(memory_cost: u32, time_cost: u32, parallelism: u32) -> bool {
    &&& memory_cost >= 8
    &&& memory_cost >= parallelism * 8
    &&& time_cost >= 1
    &&& 1 <= parallelism <= 0xFF_FFFF
}

/// Relies on argon2::Argon2::hash_password_into with Argon2id, version 0x13 and a 32-byte
/// output, under parameters built by Params::new, which refuses the costs that
/// `argon2_params_accepted` leaves out; the salt must hold 8 bytes at least and the
/// password at most 2^32 - 1 bytes, which a quarter as many characters never exceed.
/// Params::new computes `parallelism * 8` in u32 before it checks the lane limit, so
/// no larger lane count is handed to it.
#[verifier::external_body]
fn argon2_derive(password: &str, salt: &[u8], memory_cost: u32, time_cost: u32, parallelism: u32) -> (r: Option<[u8; 32]>)
    requires
        memory_cost <= MAX_MEMORY_COST,
        parallelism <= MAX_PARALLELISM,
    ensures
        r is Some <==> argon2id_key(password@, salt@, memory_cost, time_cost, parallelism) is Some,
        r matches Some(k) ==> argon2id_key(password@, salt@, memory_cost, time_cost, parallelism) == Some(k@),
        argon2_params_accepted(memory_cost, time_cost, parallelism) && 8 <= salt@.len() <= 0xFFFF_FFFF
            && password@.len() <= MAX_PASSWORD_CHARS ==> r is Some,
{
    let params = argon2::Params::new(memory_cost, time_cost, parallelism, Some(32)).ok()?;
    let hasher = argon2::Argon2::new(argon2::Algorithm::Argon2id, argon2::Version::V0x13, params);
    let mut out = [0u8; 32];
    hasher.hash_password_into(password.as_bytes(), salt, &mut out).ok()?;
    Some(out)
}

/// Relies on aes_gcm::Aes256Gcm's Aead::encrypt, which refuses only plaintexts of more
/// than 2^36 bytes and appends a 16-byte tag to the encrypted bytes.
#[verifier::external_body]
fn gcm_encrypt(key: &[u8], nonce: &[u8], plaintext: &[u8]) -> (r: Option<Vec<u8>>)
    requires
        key@.len() == 32,
        nonce@.len() == NONCE_LEN,
    ensures
        r matches Some(c) ==> c@ == gcm_sealed(key@, nonce@, plaintext@) && c@.len() == plaintext@.len() + TAG_LEN,
        r is Some <==> plaintext@.len() <= MAX_PLAINTEXT_LEN,
{
    let cipher = aes_gcm::Aes256Gcm::new_from_slice(key).ok()?;
    cipher.encrypt(aes_gcm::Nonce::from_slice(nonce), plaintext).ok()
}

/// Relies on aes_gcm::Aes256Gcm's Aead::decrypt: it succeeds exactly on the ciphertexts that
/// `encrypt` makes under the same key and nonce, and gives back their plaintext; encryption
/// is deterministic under a key and nonce, and decryption checks the tag. Only ciphertexts
/// of at most 2^36 + 16 bytes, whose plaintexts AES-GCM accepts, are handed to it.
#[verifier::external_body]
fn gcm_decrypt(key: &[u8], nonce: &[u8], ciphertext: &[u8]) -> (r: Option<Vec<u8>>)
    requires
        key@.len() == 32,
        nonce@.len() == NONCE_LEN,
        ciphertext@.len() <= MAX_PLAINTEXT_LEN + TAG_LEN,
    ensures
        r matches Some(p) ==> p@.len() <= MAX_PLAINTEXT_LEN && ciphertext@ == gcm_sealed(key@, nonce@, p@),
        forall|p: Seq<u8>| p.len() <= MAX_PLAINTEXT_LEN && ciphertext@ == gcm_sealed(key@, nonce@, p) ==> r is Some
            && r->Some_0@ == p,
{
    let cipher = aes_gcm::Aes256Gcm::new_from_slice(key).ok()?;
    cipher.decrypt(aes_gcm::Nonce::from_slice(nonce), ciphertext).ok()
}

/// Cost parameters of the password KDF, stored with each envelope.
#[derive(Debug, Clone, Copy, PartialEq, Eq)]
pub struct Argon2Params {
    pub memory_cost: u32,
    pub time_cost: u32,
    pub parallelism: u32,
}

impl Default for Argon2Params {
    /// 4 MiB of memory, three passes, one lane.
    fn default() -> (r: Argon2Params)
        ensures
            r.memory_cost == 4096 && r.time_cost == 3 && r.parallelism == 1,
    {
        Argon2Params { memory_cost: 4096, time_cost: 3, parallelism: 1 }
    }
}

/// An envelope: ciphertext with everything but the password that opening it needs.
#[derive(Debug, Clone)]
pub struct EncryptedWallet {
    pub encrypted_data: Vec<u8>,
    pub salt: Vec<u8>,
    pub nonce: Vec<u8>,
    pub argon2_params: Argon2Params,
}

/// The key that a password gives for an envelope's salt and parameters.
pub open spec fn envelope_key(blob: EncryptedWallet, password: Seq<char>) -> Option<Seq<u8>> {
    if blob.argon2_params.memory_cost <= MAX_MEMORY_COST && blob.argon2_params.parallelism <= MAX_PARALLELISM {
        argon2id_key(
            password,
            blob.salt@,
            blob.argon2_params.memory_cost,
            blob.argon2_params.time_cost,
            blob.argon2_params.parallelism,
        )
    } else {
        None
    }
}

/// Whether the envelope, opened with the password, holds `plaintext`.
pub open spec fn opens_to(blob: EncryptedWallet, password: Seq<char>, plaintext: Seq<u8>) -> bool {
    &&& plaintext.len() <= MAX_PLAINTEXT_LEN
    &&& blob.encrypted_data@.len() <= MAX_PLAINTEXT_LEN + TAG_LEN
    &&& blob.nonce@.len() == NONCE_LEN
    &&& envelope_key(blob, password) is Some
    &&& blob.encrypted_data@ == gcm_sealed(envelope_key(blob, password)->Some_0, blob.nonce@, plaintext)
}

/// What `open` states of its result on an envelope and password.
pub open spec fn open_result(blob: EncryptedWallet, password: Seq<char>, r: Result<Seq<u8>, WalletError>) -> bool {
    &&& (r matches Ok(p) ==> opens_to(blob, password, p))
    &&& (r is Err ==> r == Err::<Seq<u8>, WalletError>(WalletError::AuthenticationFailure))
    &&& forall|p: Seq<u8>| opens_to(blob, password, p) ==> r == Ok::<Seq<u8>, WalletError>(p)
}

/// Whether a plaintext and password can be sealed at all: the plaintext fits AES-GCM and
/// the password fits Argon2.
pub open spec fn sealable(data: Seq<u8>, password: Seq<char>) -> bool {
    data.len() <= MAX_PLAINTEXT_LEN && password.len() <= MAX_PASSWORD_CHARS
}

pub struct WalletEncryption;

impl WalletEncryption {
    /// Seals `wallet_data` under `password` with the given salt and nonce and the default
    /// cost parameters.
    pub fn seal_with(wallet_data: &[u8], password: &str, salt: Vec<u8>, nonce: Vec<u8>) -> (r: Result<EncryptedWallet, WalletError>)
        requires
            salt@.len() == SALT_LEN,
            nonce@.len() == NONCE_LEN,
        ensures
            r matches Ok(b) ==> opens_to(b, password@, wallet_data@) && b.salt@ == salt@
                && b.nonce@ == nonce@ && b.argon2_params == (Argon2Params {
                memory_cost: 4096,
                time_cost: 3,
                parallelism: 1,
            }),
            sealable(wallet_data@, password@) ==> r is Ok,
            r is Err ==> r matches Err(WalletError::Crypto(_)),
    {
        let params = Argon2Params::default();
        let key = match argon2_derive(password, salt.as_slice(), params.memory_cost, params.time_cost, params.parallelism) {
            Some(k) => k,
            None => {
                return Err(WalletError::Crypto(String::from_str("password hashing failed")));
            },
        };
        let encrypted_data = match gcm_encrypt(key.as_slice(), nonce.as_slice(), wallet_data) {
            Some(c) => c,
            None => {
                return Err(WalletError::Crypto(String::from_str("encryption failed")));
            },
        };
        Ok(EncryptedWallet { encrypted_data, salt, nonce, argon2_params: params })
    }

    /// Seals `wallet_data` under `password` with a fresh random salt and nonce.
    pub fn encrypt_wallet(wallet_data: &[u8], password: &str) -> (r: Result<EncryptedWallet, WalletError>)
        ensures
            r matches Ok(b) ==> opens_to(b, password@, wallet_data@) && b.salt@.len() == SALT_LEN
                && b.nonce@.len() == NONCE_LEN,
            sealable(wallet_data@, password@) ==> r is Ok,
            r is Err ==> r matches Err(WalletError::Crypto(_)),
    {
        let salt = random_bytes(SALT_LEN);
        let nonce = random_bytes(NONCE_LEN);
        Self::seal_with(wallet_data, password, salt, nonce)
    }

    /// Opens an envelope with a password. Any failure, wrong password or altered data alike,
    /// is the one `AuthenticationFailure`.
    pub fn decrypt_wallet(encrypted_wallet: &EncryptedWallet, password: &str) -> (r: Result<Vec<u8>, WalletError>)
        ensures
            open_result(*encrypted_wallet, password@, match r {
                Ok(v) => Ok(v@),
                Err(e) => Err(e),
            }),
    {
        let params = encrypted_wallet.argon2_params;
        if encrypted_wallet.nonce.len() != NONCE_LEN || params.memory_cost > MAX_MEMORY_COST
            || params.parallelism > MAX_PARALLELISM
            || encrypted_wallet.encrypted_data.len() as u64 > MAX_PLAINTEXT_LEN + TAG_LEN {
            return Err(WalletError::AuthenticationFailure);
        }
        let key = match argon2_derive(
            password,
            encrypted_wallet.salt.as_slice(),
            params.memory_cost,
            params.time_cost,
            params.parallelism,
        ) {
            Some(k) => k,
            None => {
                return Err(WalletError::AuthenticationFailure);
            },
        };
        match gcm_decrypt(key.as_slice(), encrypted_wallet.nonce.as_slice(), encrypted_wallet.encrypted_data.as_slice()) {
            Some(p) => Ok(p),
            None => Err(WalletError::AuthenticationFailure),
        }
    }

    /// Whether the password opens the envelope.
    pub fn verify_password(encrypted_wallet: &EncryptedWallet, password: &str) -> (r: bool)
        ensures
            r == exists|p: Seq<u8>| opens_to(*encrypted_wallet, password@, p),
    {
        let r = Self::decrypt_wallet(encrypted_wallet, password);
        match r {
            Ok(v) => {
                assert(opens_to(*encrypted_wallet, password@, v@));
                true
            },
            Err(_) => false,
        }
    }
}

/// Opening a sealed envelope with the password it was sealed under gives back the data:
/// whatever `open` returns on such an envelope is `Ok(data)`.
pub proof fn lemma_open_inverts_seal(blob: EncryptedWallet, data: Seq<u8>, password: Seq<char>, opened: Result<Seq<u8>, WalletError>)
    requires
        opens_to(blob, password, data),
        open_result(blob, password, opened),
    ensures
        opened == Ok::<Seq<u8>, WalletError>(data),
{
}

} // verus!
