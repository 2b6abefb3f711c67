use vstd::prelude::*;
use crate::crypto::{public_point, public_point_of, secret_tweak_add, sha512, sha512_of, tweak_add};
use crate::error::WalletError;

verus! {

/// Block length of SHA-512 in bytes.
pub const HMAC_BLOCK: usize = 128;

/// The index that marks the first hardened child.
pub const HARDENED_OFFSET: u32 = 0x8000_0000;

/// One step of a derivation path: a child index below 2^31, hardened or not.
#[derive(Clone, Copy, Debug, PartialEq, Eq)]
pub struct ChildNumber {
    pub index: u32,
    pub hardened: bool,
}

impl ChildNumber {
    pub open spec fn wf(self) -> bool {
        self.index < HARDENED_OFFSET
    }
}

/// A private key with its chain code.
pub struct ExtendedKey {
    pub secret: Vec<u8>,
    pub chain_code: Vec<u8>,
}

/// The key padded with zeros to a full block.
pub open spec fn hmac_key_block(key: Seq<u8>) -> Seq<u8> {
    key + Seq::new((HMAC_BLOCK - key.len()) as nat, |i: int| 0u8)
}

pub open spec fn xor_pad(block: Seq<u8>, pad: u8) -> Seq<u8> {
    Seq::new(block.len(), |i: int| block[i] ^ pad)
}

/// HMAC-SHA512 with a key of at most one block.
pub open spec fn hmac_sha512(key: Seq<u8>, msg: Seq<u8>) -> Seq<u8> {
    sha512_of(
        xor_pad(hmac_key_block(key), 0x5c) + sha512_of(xor_pad(hmac_key_block(key), 0x36) + msg),
    )
}

fn padded_key(key: &[u8], pad: u8) -> (r: Vec<u8>)
    requires
        key@.len() <= HMAC_BLOCK,
    ensures
        r@ == xor_pad(hmac_key_block(key@), pad),
{
    let mut r: Vec<u8> = Vec::new();
    let mut i: usize = 0;
    while i < HMAC_BLOCK
        invariant
            key@.len() <= HMAC_BLOCK,
            i <= HMAC_BLOCK,
            r@.len() == i,
            forall|j: int| 0 <= j < i ==> r@[j] == xor_pad(hmac_key_block(key@), pad)[j],
        decreases HMAC_BLOCK - i,
    {
        let b: u8 = if i < key.len() { key[i] } else { 0u8 };
        r.push(b ^ pad);
        i = i + 1;
    }
    assert(r@ =~= xor_pad(hmac_key_block(key@), pad));
    r
}

fn append_bytes(dst: &mut Vec<u8>, src: &[u8])
    ensures
        final(dst)@ == old(dst)@ + src@,
{
    let mut i: usize = 0;
    while i < src.len()
        invariant
            i <= src@.len(),
            dst@ == old(dst)@ + src@.subrange(0, i as int),
        decreases src@.len() - i,
    {
        dst.push(src[i]);
        i = i + 1;
        assert(dst@ =~= old(dst)@ + src@.subrange(0, i as int));
    }
    assert(src@.subrange(0, src@.len() as int) =~= src@);
}

/// HMAC-SHA512 of a message under a key of at most 128 bytes.
pub fn hmac_sha512_exec(key: &[u8], msg: &[u8]) -> (r: [u8; 64])
    requires
        key@.len() <= HMAC_BLOCK,
    ensures
        r@ == hmac_sha512(key@, msg@),
{
    let mut inner = padded_key(key, 0x36);
    append_bytes(&mut inner, msg);
    let inner_hash = sha512(inner.as_slice());
    let mut outer = padded_key(key, 0x5c);
    append_bytes(&mut outer, inner_hash.as_slice());
    sha512(outer.as_slice())
}

/// The big-endian bytes of a 32-bit number.
pub open spec fn ser32(i: u32) -> Seq<u8> {
    seq![(i >> 24u32) as u8, (i >> 16u32) as u8, (i >> 8u32) as u8, i as u8]
}

fn ser32_exec(i: u32) -> (r: Vec<u8>)
    ensures
        r@ == ser32(i),
{
    let r = vec![(i >> 24u32) as u8, (i >> 16u32) as u8, (i >> 8u32) as u8, i as u8];
    assert(r@ =~= ser32(i));
    r
}

/// The key of the HMAC that makes the master key.
pub open spec fn master_hmac_key() -> Seq<u8> {
    seq![66u8, 105, 116, 99, 111, 105, 110, 32, 115, 101, 101, 100]
}

/// SEC1 compressed form of an uncompressed point: parity prefix and x coordinate.
pub open spec fn compress_point(p: Seq<u8>) -> Seq<u8> {
    seq![if p[64] % 2 == 0 { 2u8 } else { 3u8 }] + p.subrange(1, 33)
}

/// The compressed public key of a secret, if the secret is a valid key.
pub open spec fn compressed_public_key(secret: Seq<u8>) -> Option<Seq<u8>> {
    match public_point_of(secret) {
        Some(p) => if p.len() == 65 { Some(compress_point(p)) } else { None },
        None => None,
    }
}

/// The master key and chain code of a seed, if the left half of its HMAC is a valid key.
pub open spec fn master_key(seed: Seq<u8>) -> Option<(Seq<u8>, Seq<u8>)> {
    let i = hmac_sha512(master_hmac_key(), seed);
    if public_point_of(i.subrange(0, 32)) is Some {
        Some((i.subrange(0, 32), i.subrange(32, 64)))
    } else {
        None
    }
}

/// The data hashed for a child: the private key for a hardened child, else the public key;
/// then the child number.
pub open spec fn child_data(secret: Seq<u8>, step: ChildNumber) -> Option<Seq<u8>> {
    if step.hardened {
        Some(seq![0u8] + secret + ser32((step.index + HARDENED_OFFSET) as u32))
    } else {
        match compressed_public_key(secret) {
            Some(p) => Some(p + ser32(step.index)),
            None => None,
        }
    }
}

/// The private child key and chain code of a parent for one step.
pub open spec fn child_key(parent: (Seq<u8>, Seq<u8>), step: ChildNumber) -> Option<(Seq<u8>, Seq<u8>)> {
    match child_data(parent.0, step) {
        Some(data) => {
            let i = hmac_sha512(parent.1, data);
            match secret_tweak_add(parent.0, i.subrange(0, 32)) {
                Some(k) => Some((k, i.subrange(32, 64))),
                None => None,
            }
        },
        None => None,
    }
}

/// The key and chain code reached from a seed along a path.
pub open spec fn derive_path(seed: Seq<u8>, path: Seq<ChildNumber>) -> Option<(Seq<u8>, Seq<u8>)>
    decreases path.len(),
{
    if path.len() == 0 {
        master_key(seed)
    } else {
        match derive_path(seed, path.drop_last()) {
            Some(parent) => child_key(parent, path.last()),
            None => None,
        }
    }
}

fn subrange_vec(b: &[u8], from: usize, to: usize) -> (r: Vec<u8>)
    requires
        from <= to <= b@.len(),
    ensures
        r@ == b@.subrange(from as int, to as int),
{
    let mut r: Vec<u8> = Vec::new();
    let mut i: usize = from;
    while i < to
        invariant
            from <= i <= to <= b@.len(),
            r@ == b@.subrange(from as int, i as int),
        decreases to - i,
    {
        r.push(b[i]);
        i = i + 1;
        assert(r@ =~= b@.subrange(from as int, i as int));
    }
    r
}

fn compressed_key(secret: &[u8]) -> (r: Option<Vec<u8>>)
    ensures
        r is Some <==> compressed_public_key(secret@) is Some,
        r matches Some(p) ==> compressed_public_key(secret@) == Some(p@),
{
    match public_point(secret) {
        Some(p) => {
            let prefix: u8 = if p[64] % 2 == 0 { 2u8 } else { 3u8 };
            let mut r: Vec<u8> = vec![prefix];
            let x = subrange_vec(p.as_slice(), 1, 33);
            append_bytes(&mut r, x.as_slice());
            assert(r@ =~= compress_point(p@));
            Some(r)
        },
        None => None,
    }
}

/// The master extended key of a seed.
pub fn master_from_seed(seed: &[u8]) -> (r: Result<ExtendedKey, WalletError>)
    ensures
        match master_key(seed@) {
            Some(m) => r matches Ok(k) && k.secret@ == m.0 && k.chain_code@ == m.1
                && k.secret@.len() == 32 && k.chain_code@.len() == 32,
            None => r matches Err(WalletError::Crypto(_)),
        },
{
    let key = vec![66u8, 105, 116, 99, 111, 105, 110, 32, 115, 101, 101, 100];
    assert(key@ =~= master_hmac_key());
    let i = hmac_sha512_exec(key.as_slice(), seed);
    let secret = subrange_vec(i.as_slice(), 0, 32);
    let chain_code = subrange_vec(i.as_slice(), 32, 64);
    if public_point(secret.as_slice()).is_none() {
        return Err(WalletError::Crypto(String::from_str("seed gives an invalid master key")));
    }
    Ok(ExtendedKey { secret, chain_code })
}

/// The private child of an extended key for one step.
pub fn derive_child(parent: &ExtendedKey, step: ChildNumber) -> (r: Result<ExtendedKey, WalletError>)
    requires
        step.wf(),
        parent.chain_code@.len() == 32,
    ensures
        match child_key((parent.secret@, parent.chain_code@), step) {
            Some(c) => r matches Ok(k) && k.secret@ == c.0 && k.chain_code@ == c.1
                && k.chain_code@.len() == 32 && k.secret@.len() == 32,
            None => r matches Err(WalletError::Crypto(_)),
        },
{
    let mut data: Vec<u8>;
    if step.hardened {
        data = vec![0u8];
        append_bytes(&mut data, parent.secret.as_slice());
        let n = ser32_exec(step.index + HARDENED_OFFSET);
        append_bytes(&mut data, n.as_slice());
    } else {
        match compressed_key(parent.secret.as_slice()) {
            Some(p) => {
                data = p;
                let n = ser32_exec(step.index);
                append_bytes(&mut data, n.as_slice());
            },
            None => {
                return Err(WalletError::Crypto(String::from_str("invalid parent key")));
            },
        }
    }
    assert(child_data(parent.secret@, step) == Some(data@));
    let i = hmac_sha512_exec(parent.chain_code.as_slice(), data.as_slice());
    let left = subrange_vec(i.as_slice(), 0, 32);
    let chain_code = subrange_vec(i.as_slice(), 32, 64);
    match tweak_add(parent.secret.as_slice(), left.as_slice()) {
        Some(k) => {
            let secret = subrange_vec(k.as_slice(), 0, 32);
            assert(k@.subrange(0, 32) =~= k@);
            Ok(ExtendedKey { secret, chain_code })
        },
        None => Err(WalletError::Crypto(String::from_str("derived key out of range"))),
    }
}

proof fn lemma_failure_persists(seed: Seq<u8>, path: Seq<ChildNumber>, n: int, m: int)
    requires
        0 <= n <= m <= path.len(),
        derive_path(seed, path.subrange(0, n)) is None,
    ensures
        derive_path(seed, path.subrange(0, m)) is None,
    decreases m - n,
{
    if n < m {
        assert(path.subrange(0, n + 1).drop_last() =~= path.subrange(0, n));
        lemma_failure_persists(seed, path, n + 1, m);
    }
}

/// Whether every step of a path has an index below 2^31.
pub open spec fn path_wf(path: Seq<ChildNumber>) -> bool {
    forall|j: int| 0 <= j < path.len() ==> (#[trigger] path[j]).wf()
}

/// The private key at `path` below the master key of `seed`, by hierarchical derivation
/// with chain codes: hardened steps hash the parent's private key, the others its public key.
pub fn derive_key_from_seed(seed: &[u8; 64], derivation_path: &[ChildNumber]) -> (r: Result<[u8; 32], WalletError>)
    requires
        path_wf(derivation_path@),
    ensures
        match derive_path(seed@, derivation_path@) {
            Some(k) => r matches Ok(b) && b@ == k.0,
            None => r matches Err(WalletError::Crypto(_)),
        },
{
    let mut current = match master_from_seed(seed.as_slice()) {
        Ok(m) => m,
        Err(e) => {
            proof {
                lemma_failure_persists(seed@, derivation_path@, 0, derivation_path@.len() as int);
                assert(derivation_path@.subrange(0, 0).len() == 0);
                assert(derivation_path@.subrange(0, derivation_path@.len() as int) =~= derivation_path@);
            }
            return Err(e);
        },
    };
    let mut i: usize = 0;
    while i < derivation_path.len()
        invariant
            i <= derivation_path@.len(),
            path_wf(derivation_path@),
            current.chain_code@.len() == 32,
            current.secret@.len() == 32,
            derive_path(seed@, derivation_path@.subrange(0, i as int)) == Some(
                (current.secret@, current.chain_code@),
            ),
        decreases derivation_path@.len() - i,
    {
        let step = derivation_path[i];
        assert(derivation_path@.subrange(0, i + 1).drop_last() =~= derivation_path@.subrange(0, i as int));
        current = match derive_child(&current, step) {
            Ok(c) => c,
            Err(e) => {
                proof {
                    lemma_failure_persists(seed@, derivation_path@, i + 1, derivation_path@.len() as int);
                    assert(derivation_path@.subrange(0, derivation_path@.len() as int) =~= derivation_path@);
                }
                return Err(e);
            },
        };
        i = i + 1;
    }
    assert(derivation_path@.subrange(0, derivation_path@.len() as int) =~= derivation_path@);
    let mut out = [0u8; 32];
    let mut j: usize = 0;
    while j < 32
        invariant
            j <= 32,
            current.secret@.len() == 32,
            forall|t: int| 0 <= t < j ==> out@[t] == current.secret@[t],
        decreases 32 - j,
    {
        out[j] = current.secret[j];
        j = j + 1;
    }
    assert(out@ =~= current.secret@);
    Ok(out)
}

/// A secret key with its uncompressed public key.
#[derive(Debug)]
pub struct KeyPair {
    pub secret_key: [u8; 32],
    pub public_key: [u8; 65],
}

/// The secret and public key at `path` below the master key of `seed`.
pub open spec fn keypair_of(seed: Seq<u8>, path: Seq<ChildNumber>) -> Option<(Seq<u8>, Seq<u8>)> {
    match derive_path(seed, path) {
        Some(k) => match public_point_of(k.0) {
            Some(p) => Some((k.0, p)),
            None => None,
        },
        None => None,
    }
}

/// The keypair at `path` below the master key of `seed`.
pub fn derive_keypair(seed: &[u8; 64], path: &[ChildNumber]) -> (r: Result<KeyPair, WalletError>)
    requires
        path_wf(path@),
    ensures
        r is Ok <==> keypair_of(seed@, path@) is Some,
        r matches Ok(kp) ==> keypair_of(seed@, path@) == Some((kp.secret_key@, kp.public_key@)),
        r is Err ==> (r matches Err(WalletError::Crypto(_))),
{
    let secret_key = match derive_key_from_seed(seed, path) {
        Ok(k) => k,
        Err(e) => {
            return Err(e);
        },
    };
    match public_point(secret_key.as_slice()) {
        Some(public_key) => Ok(KeyPair { secret_key, public_key }),
        None => Err(WalletError::Crypto(String::from_str("derived key has no public point"))),
    }
}

/// Derivation is deterministic: two keypairs derived from the same seed along the same
/// path are the same keypair.
pub proof fn lemma_derivation_is_deterministic(seed: Seq<u8>, path: Seq<ChildNumber>, a: (Seq<u8>, Seq<u8>), b: (Seq<u8>, Seq<u8>))
    requires
        keypair_of(seed, path) == Some(a),
        keypair_of(seed, path) == Some(b),
    ensures
        a == b,
{
}

/// The steps of the standard receiving path m/44'/0'/0'/0/index.
pub open spec fn standard_path(index: u32) -> Seq<ChildNumber> {
    seq![
        ChildNumber { index: 44, hardened: true },
        ChildNumber { index: 0, hardened: true },
        ChildNumber { index: 0, hardened: true },
        ChildNumber { index: 0, hardened: false },
        ChildNumber { index, hardened: false },
    ]
}

/// The standard receiving path m/44'/0'/0'/0/index.
pub fn receiving_path(index: u32) -> (r: Vec<ChildNumber>)
    requires
        index < HARDENED_OFFSET,
    ensures
        r@ == standard_path(index),
        path_wf(r@),
{
    let r = vec![
        ChildNumber { index: 44, hardened: true },
        ChildNumber { index: 0, hardened: true },
        ChildNumber { index: 0, hardened: true },
        ChildNumber { index: 0, hardened: false },
        ChildNumber { index, hardened: false },
    ];
    assert(r@ =~= standard_path(index));
    r
}

} // verus!
