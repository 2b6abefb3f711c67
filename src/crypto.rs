use vstd::prelude::*;
use sha2::Digest;
use rand::RngCore;
use crate::error::WalletError;
use crate::text::{count_words, lower_of, lowercase, same_text, word_count};

pub use crate::keys::derive_key_from_seed;

verus! {

/// SHA-256 of a byte string.
pub uninterp spec fn sha256_of(data: Seq<u8>) -> Seq<u8>;

/// SHA-512 of a byte string.
pub uninterp spec fn sha512_of(data: Seq<u8>) -> Seq<u8>;

/// RIPEMD-160 of a byte string.
pub uninterp spec fn ripemd160_of(data: Seq<u8>) -> Seq<u8>;

/// The base58 text of a byte string.
pub uninterp spec fn base58_of(data: Seq<u8>) -> Seq<char>;

/// The bytes that a base58 text stands for, if it is base58.
pub uninterp spec fn base58_decoded(text: Seq<char>) -> Option<Seq<u8>>;

/// The uncompressed public point of a secret scalar, if the scalar is a valid secret key.
pub uninterp spec fn public_point_of(secret: Seq<u8>) -> Option<Seq<u8>>;

/// The secret key `secret + tweak` modulo the group order, if both are in range and the sum is not zero.
pub uninterp spec fn secret_tweak_add(secret: Seq<u8>, tweak: Seq<u8>) -> Option<Seq<u8>>;

/// The English mnemonic phrase of an entropy, if the entropy has an accepted length.
pub uninterp spec fn phrase_of_entropy(entropy: Seq<u8>) -> Option<Seq<char>>;

/// The seed of a normalized English mnemonic with the empty passphrase, if the phrase is well-formed.
pub uninterp spec fn seed_of_phrase(phrase: Seq<char>) -> Option<Seq<u8>>;

/// Relies on sha2::Sha256::digest.
#[verifier::external_body]
fn sha256(data: &[u8]) -> (r: [u8; 32])
    ensures
        r@ == sha256_of(data@),
{
    sha2::Sha256::digest(data).into()
}

/// Relies on sha2::Sha512::digest.
#[verifier::external_body]
pub(crate) fn sha512(data: &[u8]) -> (r: [u8; 64])
    ensures
        r@ == sha512_of(data@),
{
    sha2::Sha512::digest(data).into()
}

/// Relies on ripemd::Ripemd160::digest.
#[verifier::external_body]
fn ripemd160(data: &[u8]) -> (r: [u8; 20])
    ensures
        r@ == ripemd160_of(data@),
{
    ripemd::Ripemd160::digest(data).into()
}

/// Relies on base58::ToBase58::to_base58: its buffer holds at most 138/100 of the
/// significant bytes plus one digit, beside one '1' per leading zero byte.
#[verifier::external_body]
fn base58_encode(data: &[u8]) -> (r: String)
    ensures
        r@ == base58_of(data@),
        r@.len() <= 2 * data@.len() + 1,
{
    base58::ToBase58::to_base58(data)
}

/// The longest text that the base58 decoder is handed: its buffer holds 132 bytes.
pub const MAX_BASE58_TEXT: usize = 132;

/// Relies on base58::FromBase58::from_base58, which inverts `to_base58` on inputs of
/// up to 128 bytes. Texts longer than its 132-byte buffer are not handed to it.
#[verifier::external_body]
fn base58_decode(text: &str) -> (r: Option<Vec<u8>>)
    requires
        text@.len() <= MAX_BASE58_TEXT,
    ensures
        r is Some <==> base58_decoded(text@) is Some,
        r matches Some(v) ==> base58_decoded(text@) == Some(v@),
        forall|b: Seq<u8>| b.len() <= 128 && text@ == base58_of(b) ==> r is Some && r->Some_0@ == b,
{
    base58::FromBase58::from_base58(text).ok()
}

/// Relies on secp256k1::PublicKey::from_secret_key and serialize_uncompressed, with the
/// scalar read by SecretKey::from_slice, which refuses zero and values past the group order.
#[verifier::external_body]
pub(crate) fn public_point(secret: &[u8]) -> (r: Option<[u8; 65]>)
    ensures
        r is Some <==> public_point_of(secret@) is Some,
        r matches Some(p) ==> public_point_of(secret@) == Some(p@),
{
    let sk = secp256k1::SecretKey::from_slice(secret).ok()?;
    let secp = secp256k1::Secp256k1::new();
    Some(secp256k1::PublicKey::from_secret_key(&secp, &sk).serialize_uncompressed())
}

/// Relies on secp256k1::SecretKey::add_tweak, with the key read by SecretKey::from_slice
/// and the tweak by Scalar::from_be_bytes.
#[verifier::external_body]
pub(crate) fn tweak_add(secret: &[u8], tweak: &[u8]) -> (r: Option<[u8; 32]>)
    requires
        tweak@.len() == 32,
    ensures
        r is Some <==> secret_tweak_add(secret@, tweak@) is Some,
        r matches Some(k) ==> secret_tweak_add(secret@, tweak@) == Some(k@),
{
    let sk = secp256k1::SecretKey::from_slice(secret).ok()?;
    let t = secp256k1::Scalar::from_be_bytes(<[u8; 32]>::try_from(tweak).ok()?).ok()?;
    match sk.add_tweak(&t) {
        Ok(k) => Some(k.secret_bytes()),
        Err(_) => None,
    }
}

/// Relies on bip39::Mnemonic::from_entropy_in with the English list and its Display:
/// 16 bytes of entropy are always accepted.
#[verifier::external_body]
fn phrase_from_entropy(entropy: &[u8]) -> (r: Option<String>)
    ensures
        r is Some <==> phrase_of_entropy(entropy@) is Some,
        r matches Some(p) ==> phrase_of_entropy(entropy@) == Some(p@),
        entropy@.len() == 16 ==> r is Some,
{
    match bip39::Mnemonic::from_entropy_in(bip39::Language::English, entropy) {
        Ok(m) => Some(m.to_string()),
        Err(_) => None,
    }
}

/// Relies on bip39::Mnemonic::to_seed_normalized with the empty passphrase, on the
/// mnemonic read by Mnemonic::parse_in_normalized with the English list, which checks
/// the word count, each word and the checksum.
#[verifier::external_body]
fn phrase_seed(phrase: &str) -> (r: Option<[u8; 64]>)
    ensures
        r is Some <==> seed_of_phrase(phrase@) is Some,
        r matches Some(s) ==> seed_of_phrase(phrase@) == Some(s@),
{
    match bip39::Mnemonic::parse_in_normalized(bip39::Language::English, phrase) {
        Ok(m) => Some(m.to_seed_normalized("")),
        Err(_) => None,
    }
}

/// Relies on rand::rngs::OsRng::fill_bytes; nothing is known of the bytes.
#[verifier::external_body]
pub(crate) fn random_bytes(n: usize) -> (r: Vec<u8>)
    ensures
        r@.len() == n,
{
    let mut b = vec![0u8; n];
    rand::rngs::OsRng.fill_bytes(&mut b);
    b
}

// ---------------------------------------------------------------- mnemonics

/// Draws 128 bits of entropy and writes them as a twelve-word English mnemonic.
pub fn generate_mnemonic() -> (r: Result<String, WalletError>)
    ensures
        r is Ok,
        r matches Ok(p) ==> exists|e: Seq<u8>| e.len() == 16 && phrase_of_entropy(e) == Some(p@),
{
    let entropy = random_bytes(16);
    mnemonic_from_entropy(&entropy)
}

/// The English mnemonic of the given entropy (16 to 32 bytes, a multiple of 4).
pub fn mnemonic_from_entropy(entropy: &Vec<u8>) -> (r: Result<String, WalletError>)
    ensures
        match phrase_of_entropy(entropy@) {
            Some(p) => r matches Ok(s) && s@ == p,
            None => r matches Err(WalletError::Crypto(_)),
        },
        entropy@.len() == 16 ==> r is Ok,
{
    match phrase_from_entropy(entropy.as_slice()) {
        Some(p) => Ok(p),
        None => Err(WalletError::Crypto(String::from_str("entropy of unsupported length"))),
    }
}

/// The number of words of a mnemonic.
pub const MNEMONIC_WORDS: usize = 12;

/// The seed of a twelve-word mnemonic phrase, after its letters are lowered.
pub open spec fn mnemonic_seed(text: Seq<char>) -> Option<Seq<u8>> {
    if word_count(text) == MNEMONIC_WORDS {
        seed_of_phrase(lower_of(text))
    } else {
        None
    }
}

/// The 64-byte seed of a twelve-word mnemonic phrase with the empty passphrase. The phrase
/// is lowered first; words may be separated by any whitespace. Any other word count, an
/// unknown word or a bad checksum gives `InvalidSeedPhrase`.
pub fn mnemonic_to_seed(mnemonic: &str) -> (r: Result<[u8; 64], WalletError>)
    ensures
        match mnemonic_seed(mnemonic@) {
            Some(s) => r matches Ok(b) && b@ == s,
            None => r == Err::<[u8; 64], WalletError>(WalletError::InvalidSeedPhrase),
        },
        r is Ok ==> word_count(mnemonic@) == MNEMONIC_WORDS,
{
    if count_words(mnemonic) != MNEMONIC_WORDS {
        return Err(WalletError::InvalidSeedPhrase);
    }
    let lowered = lowercase(mnemonic);
    match phrase_seed(lowered.as_str()) {
        Some(s) => Ok(s),
        None => Err(WalletError::InvalidSeedPhrase),
    }
}

/// The seed of a phrase is a function of its text: two seeds obtained for one text are equal.
pub proof fn lemma_seed_is_function_of_text(text: Seq<char>, a: Seq<u8>, b: Seq<u8>)
    requires
        mnemonic_seed(text) == Some(a),
        mnemonic_seed(text) == Some(b),
    ensures
        a == b,
{
}

/// Whether a text is a well-formed mnemonic phrase.
pub fn validate_mnemonic(mnemonic: &str) -> (r: bool)
    ensures
        r == mnemonic_seed(mnemonic@) is Some,
{
    mnemonic_to_seed(mnemonic).is_ok()
}

// ---------------------------------------------------------------- addresses

/// The version byte of a network's addresses: mainnet or testnet.
pub open spec fn version_byte(network: Seq<char>) -> Option<u8> {
    if network == "mainnet"@ {
        Some(0x00u8)
    } else if network == "testnet"@ {
        Some(0x6fu8)
    } else {
        None
    }
}

/// The four check bytes of a payload: the head of its double SHA-256.
pub open spec fn checksum_of(payload: Seq<u8>) -> Seq<u8> {
    sha256_of(sha256_of(payload)).subrange(0, 4)
}

/// Version byte followed by the 160-bit hash of the public key without its format byte.
pub open spec fn address_payload(version: u8, public_key: Seq<u8>) -> Seq<u8> {
    seq![version] + ripemd160_of(sha256_of(public_key.drop_first()))
}

/// The 25 raw bytes of an address: payload and checksum.
pub open spec fn address_bytes(version: u8, public_key: Seq<u8>) -> Seq<u8> {
    address_payload(version, public_key) + checksum_of(address_payload(version, public_key))
}

/// The address text of a public key on a network.
pub open spec fn address_of(public_key: Seq<u8>, network: Seq<char>) -> Option<Seq<char>> {
    match version_byte(network) {
        Some(v) => Some(base58_of(address_bytes(v, public_key))),
        None => None,
    }
}

/// The text is the address of the key on the network, made of a 21-byte payload and a
/// 4-byte checksum, and no longer than 51 characters.
pub open spec fn produced_address(public_key: Seq<u8>, network: Seq<char>, text: Seq<char>) -> bool {
    &&& address_of(public_key, network) == Some(text)
    &&& address_payload(version_byte(network)->Some_0, public_key).len() == 21
    &&& checksum_of(address_payload(version_byte(network)->Some_0, public_key)).len() == 4
    &&& text.len() <= 51
}

/// Whether raw bytes are 25 long and end in the checksum of the first 21.
pub open spec fn checked_address_bytes(b: Seq<u8>) -> bool {
    b.len() == 25 && b.subrange(21, 25) == checksum_of(b.subrange(0, 21))
}

/// Whether a text is a valid address: base58 of 25 raw bytes with a matching checksum.
pub open spec fn address_is_valid(text: Seq<char>) -> bool {
    text.len() <= MAX_BASE58_TEXT && match base58_decoded(text) {
        Some(b) => checked_address_bytes(b),
        None => false,
    }
}

fn network_version(network: &str) -> (r: Option<u8>)
    ensures
        r == version_byte(network@),
{
    if same_text(network, "mainnet") {
        Some(0x00u8)
    } else if same_text(network, "testnet") {
        Some(0x6fu8)
    } else {
        None
    }
}

fn checksum(payload: &[u8]) -> (r: Vec<u8>)
    ensures
        r@ == checksum_of(payload@),
        r@.len() == 4,
{
    let first = sha256(payload);
    let second = sha256(first.as_slice());
    let mut r: Vec<u8> = Vec::new();
    let mut i: usize = 0;
    while i < 4
        invariant
            i <= 4,
            second@.len() == 32,
            r@ == second@.subrange(0, i as int),
        decreases 4 - i,
    {
        r.push(second[i]);
        i = i + 1;
        assert(r@ =~= second@.subrange(0, i as int));
    }
    r
}

/// The address of a public key (its leading format byte is skipped) on `network`:
/// "mainnet" or "testnet"; any other network is refused with `InvalidAddress`, and an
/// empty key on a known network with `Crypto`.
pub fn public_key_to_address(public_key_bytes: &[u8], network: &str) -> (r: Result<String, WalletError>)
    ensures
        match address_of(public_key_bytes@, network@) {
            Some(a) => if public_key_bytes@.len() == 0 {
                r matches Err(WalletError::Crypto(_))
            } else {
                r matches Ok(s) && s@ == a
            },
            None => r matches Err(WalletError::InvalidAddress(_)),
        },
        r matches Ok(s) ==> produced_address(public_key_bytes@, network@, s@),
{
    let version = match network_version(network) {
        Some(v) => v,
        None => {
            return Err(WalletError::InvalidAddress(String::from_str("Unsupported network")));
        },
    };
    if public_key_bytes.len() == 0 {
        return Err(WalletError::Crypto(String::from_str("empty public key")));
    }
    let mut body: Vec<u8> = Vec::new();
    let mut i: usize = 1;
    while i < public_key_bytes.len()
        invariant
            1 <= i <= public_key_bytes@.len(),
            body@ == public_key_bytes@.subrange(1, i as int),
        decreases public_key_bytes@.len() - i,
    {
        body.push(public_key_bytes[i]);
        i = i + 1;
        assert(body@ =~= public_key_bytes@.subrange(1, i as int));
    }
    assert(body@ =~= public_key_bytes@.drop_first());
    let inner = sha256(body.as_slice());
    let hash = ripemd160(inner.as_slice());
    let mut bytes: Vec<u8> = vec![version];
    let mut j: usize = 0;
    while j < 20
        invariant
            j <= 20,
            hash@.len() == 20,
            bytes@ == seq![version] + hash@.subrange(0, j as int),
        decreases 20 - j,
    {
        bytes.push(hash[j]);
        j = j + 1;
        assert(bytes@ =~= seq![version] + hash@.subrange(0, j as int));
    }
    assert(hash@.subrange(0, 20) =~= hash@);
    assert(bytes@ == address_payload(version, public_key_bytes@));
    let check = checksum(bytes.as_slice());
    let ghost payload = bytes@;
    let mut k: usize = 0;
    while k < 4
        invariant
            k <= 4,
            check@.len() == 4,
            bytes@ == payload + check@.subrange(0, k as int),
        decreases 4 - k,
    {
        bytes.push(check[k]);
        k = k + 1;
        assert(bytes@ =~= payload + check@.subrange(0, k as int));
    }
    assert(check@.subrange(0, 4) =~= check@);
    Ok(base58_encode(bytes.as_slice()))
}

/// What the validator answers on a text: whether it is a valid address; and, for a text
/// that is the base58 of at most 128 bytes, that it decodes to those bytes and is valid
/// exactly when they are a checked address.
pub open spec fn validator_answer(text: Seq<char>, valid: bool) -> bool {
    &&& valid == address_is_valid(text)
    &&& forall|b: Seq<u8>| #![trigger base58_of(b)]
        b.len() <= 128 && text.len() <= MAX_BASE58_TEXT && text == base58_of(b) ==> (valid
            == checked_address_bytes(b) && base58_decoded(text) == Some(b))
}

/// Whether `address` is a valid address: it decodes from base58 to exactly 25 bytes
/// whose last four are the checksum of the first 21.
#[verifier::loop_isolation(false)]
pub fn validate_address(address: &str) -> (r: bool)
    ensures
        validator_answer(address@, r),
{
    let n = address.unicode_len();
    if n > MAX_BASE58_TEXT {
        return false;
    }
    match base58_decode(address) {
        None => false,
        Some(b) => {
            if b.len() != 25 {
                return false;
            }
            let mut payload: Vec<u8> = Vec::new();
            let mut i: usize = 0;
            while i < 21
                invariant
                    i <= 21,
                    b@.len() == 25,
                    payload@ == b@.subrange(0, i as int),
                decreases 21 - i,
            {
                payload.push(b[i]);
                i = i + 1;
                assert(payload@ =~= b@.subrange(0, i as int));
            }
            assert(payload@ == b@.subrange(0, 21));
            let check = checksum(payload.as_slice());
            let mut k: usize = 0;
            while k < 4
                invariant
                    k <= 4,
                    b@.len() == 25,
                    check@.len() == 4,
                    check@ == checksum_of(b@.subrange(0, 21)),
                    forall|j: int| 0 <= j < k ==> b@[21 + j] == check@[j],
                decreases 4 - k,
            {
                if b[21 + k] != check[k] {
                    assert(b@.subrange(21, 25)[k as int] != check@[k as int]);
                    assert(b@.subrange(21, 25) != checksum_of(b@.subrange(0, 21)));
                    return false;
                }
                k = k + 1;
            }
            assert(b@.subrange(21, 25) =~= check@);
            true
        },
    }
}

/// Every address that `public_key_to_address` makes is accepted by `validate_address`:
/// given the text it returned and the answer of the validator on that text, the answer is
/// yes, and the text decodes to the 25 address bytes, whose first is the network's version.
pub proof fn lemma_produced_address_is_valid(public_key: Seq<u8>, network: Seq<char>, text: Seq<char>, valid: bool)
    requires
        produced_address(public_key, network, text),
        validator_answer(text, valid),
    ensures
        valid,
        base58_decoded(text) == Some(address_bytes(version_byte(network)->Some_0, public_key)),
        address_bytes(version_byte(network)->Some_0, public_key).len() == 25,
        address_bytes(version_byte(network)->Some_0, public_key)[0] == version_byte(network)->Some_0,
{
    let v = version_byte(network)->Some_0;
    let b = address_bytes(v, public_key);
    let p = address_payload(v, public_key);
    assert(b.subrange(0, 21) =~= p);
    assert(b.subrange(21, 25) =~= checksum_of(p));
    assert(text == base58_of(b));
}

/// SHA-256 of a message.
pub fn hash_message(message: &[u8]) -> (r: [u8; 32])
    ensures
        r@ == sha256_of(message@),
{
    sha256(message)
}

#[verifier::external_type_specification]
#[verifier::external_body]
pub struct ExSecretKey(secp256k1::SecretKey);

#[verifier::external_type_specification]
#[verifier::external_body]
pub struct ExPublicKey(secp256k1::PublicKey);

#[verifier::external_type_specification]
#[verifier::external_body]
pub struct ExSignature(secp256k1::ecdsa::Signature);

/// Relies on secp256k1::SecretKey::from_slice, which accepts exactly the scalars that have
/// a public point: nonzero and below the group order.
#[verifier::external_body]
fn secret_key_from_bytes(bytes: &[u8]) -> (r: Option<secp256k1::SecretKey>)
    ensures
        r is Some <==> public_point_of(bytes@) is Some,
{
    secp256k1::SecretKey::from_slice(bytes).ok()
}

/// Relies on secp256k1::PublicKey::from_secret_key.
#[verifier::external_body]
fn public_key_of(secret_key: &secp256k1::SecretKey) -> (r: secp256k1::PublicKey) {
    secp256k1::PublicKey::from_secret_key(&secp256k1::Secp256k1::new(), secret_key)
}

/// Relies on secp256k1::Secp256k1::sign_ecdsa over a 32-byte digest taken as the message.
#[verifier::external_body]
fn sign_digest(digest: &[u8; 32], secret_key: &secp256k1::SecretKey) -> (r: secp256k1::ecdsa::Signature) {
    secp256k1::Secp256k1::new().sign_ecdsa(&secp256k1::Message::from_digest(*digest), secret_key)
}

/// Relies on secp256k1::Secp256k1::verify_ecdsa over a 32-byte digest taken as the message.
#[verifier::external_body]
fn verify_digest(digest: &[u8; 32], signature: &secp256k1::ecdsa::Signature, public_key: &secp256k1::PublicKey) -> (r: bool) {
    secp256k1::Secp256k1::new().verify_ecdsa(&secp256k1::Message::from_digest(*digest), signature, public_key).is_ok()
}

/// ECDSA operations on secp256k1 keys.
pub struct AdvancedCrypto;

impl AdvancedCrypto {
    /// A keypair from 32 random bytes; fails with `Crypto` in the rare case that they are
    /// not a valid secret key.
    pub fn generate_keypair() -> (r: Result<(secp256k1::SecretKey, secp256k1::PublicKey), WalletError>)
        ensures
            r is Err ==> (r matches Err(WalletError::Crypto(_))),
    {
        let bytes = random_bytes(32);
        match secret_key_from_bytes(bytes.as_slice()) {
            Some(sk) => {
                let pk = public_key_of(&sk);
                Ok((sk, pk))
            },
            None => Err(WalletError::Crypto(String::from_str("Invalid secret key"))),
        }
    }

    /// An ECDSA signature of the SHA-256 digest of the message.
    pub fn sign_message(message: &[u8], secret_key: &secp256k1::SecretKey) -> (r: Result<secp256k1::ecdsa::Signature, WalletError>)
        ensures
            r is Ok,
    {
        let digest = hash_message(message);
        Ok(sign_digest(&digest, secret_key))
    }

    /// Whether the signature is valid for the SHA-256 digest of the message under the key.
    pub fn verify_signature(message: &[u8], signature: &secp256k1::ecdsa::Signature, public_key: &secp256k1::PublicKey) -> (r: Result<bool, WalletError>)
        ensures
            r is Ok,
    {
        let digest = hash_message(message);
        Ok(verify_digest(&digest, signature, public_key))
    }

    /// The address of a public key in its 65-byte uncompressed form on "mainnet" or "testnet".
    pub fn public_key_to_bitcoin_address(public_key: &[u8; 65], network: &str) -> (r: Result<String, WalletError>)
        ensures
            match address_of(public_key@, network@) {
                Some(a) => r matches Ok(s) && s@ == a,
                None => r matches Err(WalletError::InvalidAddress(_)),
            },
            r matches Ok(s) ==> produced_address(public_key@, network@, s@),
    {
        public_key_to_address(public_key.as_slice(), network)
    }
}

} // verus!
