//! Account identities: addresses, signing keys and transaction hashes, held
//! as plain bytes, and how an address follows from a key.
//!
//! Curve arithmetic is done by secp256k1 and hashing by sha3. What they
//! return is named here, not restated; what this module proves is how the
//! address is cut from the hash of the public key.

use crate::text::{trim, trimmed};
use vstd::array::*;
use vstd::prelude::*;
use vstd::slice::*;

verus! {

/// A 20-byte account address.
#[derive(Clone, Copy, Debug, PartialEq, Eq)]
pub struct Address {
    pub bytes: [u8; 20],
}

/// A 32-byte signing key. Whoever holds it signs for the account.
#[derive(Clone, Copy, Debug, PartialEq, Eq)]
pub struct SecretKey {
    pub bytes: [u8; 32],
}

/// The 32-byte hash under which the chain knows a transaction.
#[derive(Clone, Copy, Debug, PartialEq, Eq)]
pub struct TxHash {
    pub bytes: [u8; 32],
}

/// An account as a key file holds it: address and signing key in hex.
#[derive(Clone, Debug, PartialEq, Eq)]
pub struct KeyPair {
    pub address: String,
    pub private: String,
}

/// The Keccak-256 hash of a byte string.
pub uninterp spec fn keccak256_digest(data: Seq<u8>) -> Seq<u8>;

/// The uncompressed public key of a signing key: 65 bytes, or `None` where
/// the 32 bytes are no valid key of the curve.
pub uninterp spec fn public_key_of_secret(secret: Seq<u8>) -> Option<Seq<u8>>;

/// The signing key that a text stands for, or `None` where it stands for
/// none.
pub uninterp spec fn secret_key_of_text(text: Seq<char>) -> Option<Seq<u8>>;

/// The address that a text stands for, or `None` where it stands for none.
pub uninterp spec fn address_of_text(text: Seq<char>) -> Option<Seq<u8>>;

/// The address of a public key: the last 20 bytes of the Keccak-256 hash of
/// its 64 bytes after the leading tag byte.
pub open spec fn address_of_public_key(public_key: Seq<u8>) -> Seq<u8>
    recommends
        public_key.len() == 65,
{
    keccak256_digest(public_key.subrange(1, 65)).subrange(12, 32)
}

/// Whether an address belongs to some valid signing key.
pub open spec fn is_key_address(address: Address) -> bool {
    exists|secret: Seq<u8>| #[trigger] address_of_secret(secret) == Some(address.bytes@)
}

/// The address that belongs to a signing key, where the key is valid.
pub open spec fn address_of_secret(secret: Seq<u8>) -> Option<Seq<u8>> {
    match public_key_of_secret(secret) {
        Some(public_key) => Some(address_of_public_key(public_key)),
        None => None,
    }
}

/// `Keccak256::digest` of sha3: the hash of the bytes.
#[verifier::external_body]
fn keccak256(data: &[u8]) -> (r: [u8; 32])
    ensures
        r@ == keccak256_digest(data@),
{
    let digest = <sha3::Keccak256 as sha3::Digest>::digest(data);
    digest.into()
}

/// `SecretKey::from_slice`, `PublicKey::from_secret_key` and
/// `PublicKey::serialize_uncompressed` of secp256k1: the public key of the
/// signing key with these bytes, in its 65-byte form, or `None` where the
/// curve has no such key.
#[verifier::external_body]
fn uncompressed_public_key(secret: &SecretKey) -> (r: Option<[u8; 65]>)
    ensures
        match r {
            Some(public_key) => public_key_of_secret(secret.bytes@) == Some(public_key@),
            None => public_key_of_secret(secret.bytes@) is None,
        },
{
    match secp256k1::SecretKey::from_slice(&secret.bytes) {
        Ok(key) => {
            let context = secp256k1::Secp256k1::signing_only();
            Some(secp256k1::PublicKey::from_secret_key(&context, &key).serialize_uncompressed())
        },
        Err(_) => None,
    }
}

/// `SecretKey::from_str` of secp256k1: the signing key written as 64 hex
/// digits, or `None` for any other text and for digits that are no valid key.
#[verifier::external_body]
fn secret_key_from_text(text: &str) -> (r: Option<SecretKey>)
    ensures
        match r {
            Some(key) => secret_key_of_text(text@) == Some(key.bytes@),
            None => secret_key_of_text(text@) is None,
        },
{
    match <secp256k1::SecretKey as std::str::FromStr>::from_str(text) {
        Ok(key) => Some(SecretKey { bytes: key.secret_bytes() }),
        Err(_) => None,
    }
}

/// `H160::from_str`, reached as `web3::types::Address`: the address that the
/// outside parser reads out of the text, or `None` where it reads none. It
/// reads 40 hex digits, with or without `0x` before them, and passes over
/// blanks, tabs and line ends among the digits.
#[verifier::external_body]
fn address_from_text(text: &str) -> (r: Option<Address>)
    ensures
        match r {
            Some(address) => address_of_text(text@) == Some(address.bytes@),
            None => address_of_text(text@) is None,
        },
{
    match <web3::types::Address as std::str::FromStr>::from_str(text) {
        Ok(address) => Some(Address { bytes: address.0 }),
        Err(_) => None,
    }
}

/// `Secp256k1::generate_keypair` of secp256k1 with the thread's random
/// number generator: a new signing key, and the public key that belongs to
/// it in 65 bytes. Nothing is said of which key comes out.
#[verifier::external_body]
fn generate_keypair() -> (r: (SecretKey, [u8; 65]))
    ensures
        public_key_of_secret(r.0.bytes@) == Some(r.1@),
{
    let context = secp256k1::Secp256k1::new();
    let (secret, public) = context.generate_keypair(&mut secp256k1::rand::thread_rng());
    (SecretKey { bytes: secret.secret_bytes() }, public.serialize_uncompressed())
}

impl Address {
    /// The address that a hash of a public key gives: its last 20 bytes.
    pub fn from_digest(digest: &[u8; 32]) -> (r: Address)
        ensures
            r.bytes@ == digest@.subrange(12, 32),
    {
        let mut bytes = [0u8; 20];
        let mut i: usize = 0;
        while i < 20
            invariant
                i <= 20,
                forall|j: int| 0 <= j < i ==> bytes@[j] == digest@[12 + j],
            decreases 20 - i,
        {
            bytes[i] = digest[12 + i];
            i = i + 1;
        }
        proof {
            assert(bytes@ =~= digest@.subrange(12, 32));
        }
        Address { bytes }
    }

    /// The address of a public key in its uncompressed 65-byte form.
    pub fn of_public_key(public_key: &[u8; 65]) -> (r: Address)
        ensures
            r.bytes@ == address_of_public_key(public_key@),
    {
        let body = slice_subrange(array_as_slice(public_key), 1, 65);
        let digest = keccak256(body);
        Address::from_digest(&digest)
    }

    /// The address that belongs to a signing key; `None` where the bytes are
    /// no valid key.
    pub fn of_secret(secret: &SecretKey) -> (r: Option<Address>)
        ensures
            match r {
                Some(address) => address_of_secret(secret.bytes@) == Some(address.bytes@),
                None => address_of_secret(secret.bytes@) is None,
            },
    {
        match uncompressed_public_key(secret) {
            Some(public_key) => Some(Address::of_public_key(&public_key)),
            None => None,
        }
    }

    /// The address written in `text` as 40 hex digits, with or without `0x`
    /// before them; `None` where the text is no address.
    pub fn parse(text: &str) -> (r: Option<Address>)
        ensures
            match r {
                Some(address) => address_of_text(text@) == Some(address.bytes@),
                None => address_of_text(text@) is None,
            },
    {
        address_from_text(text)
    }

    /// The address of a key that nobody has used before: the key is drawn at
    /// random and thrown away. The address is that of a valid signing key.
    pub fn fresh() -> (r: Address)
        ensures
            is_key_address(r),
    {
        let (secret, address) = Address::fresh_with_key();
        proof {
            assert(address_of_secret(secret.bytes@) == Some(address.bytes@));
        }
        address
    }

    /// A signing key drawn at random, and the address that belongs to it.
    pub fn fresh_with_key() -> (r: (SecretKey, Address))
        ensures
            address_of_secret(r.0.bytes@) == Some(r.1.bytes@),
    {
        let (secret, public_key) = generate_keypair();
        (secret, Address::of_public_key(&public_key))
    }
}

impl SecretKey {
    /// The signing key written in `text` as 64 hex digits; `None` where the
    /// text is no key.
    pub fn parse(text: &str) -> (r: Option<SecretKey>)
        ensures
            match r {
                Some(key) => secret_key_of_text(text@) == Some(key.bytes@),
                None => secret_key_of_text(text@) is None,
            },
    {
        secret_key_from_text(text)
    }
}

impl KeyPair {
    /// What both texts of a key file entry stand for.
    pub open spec fn parsed(self) -> Option<(Seq<u8>, Seq<u8>)> {
        match (secret_key_of_text(self.private@), address_of_text(self.address@)) {
            (Some(secret), Some(address)) => Some((secret, address)),
            _ => None,
        }
    }

    /// The signing key and the address of a key file entry; `None` where
    /// either text is not what it should be.
    pub fn parse(&self) -> (r: Option<(SecretKey, Address)>)
        ensures
            match r {
                Some((secret, address)) => self.parsed() == Some((secret.bytes@, address.bytes@)),
                None => self.parsed() is None,
            },
    {
        match (SecretKey::parse(self.private.as_str()), Address::parse(self.address.as_str())) {
            (Some(secret), Some(address)) => Some((secret, address)),
            _ => None,
        }
    }
}

/// The signing key and the address that the text of a secret file stands
/// for: the text without the white space around it.
pub open spec fn keypair_of_text(text: Seq<char>) -> Option<(Seq<u8>, Seq<u8>)> {
    match secret_key_of_text(trimmed(text)) {
        Some(secret) => match address_of_secret(secret) {
            Some(address) => Some((secret, address)),
            None => None,
        },
        None => None,
    }
}

/// The signing key in a secret file's text and the address that belongs to
/// it; `None` where the text holds no valid key.
pub fn extract_keypair(text: &str) -> (r: Option<(SecretKey, Address)>)
    ensures
        match r {
            Some((secret, address)) => keypair_of_text(text@) == Some(
                (secret.bytes@, address.bytes@),
            ),
            None => keypair_of_text(text@) is None,
        },
{
    match SecretKey::parse(trim(text)) {
        Some(secret) => match Address::of_secret(&secret) {
            Some(address) => Some((secret, address)),
            None => None,
        },
        None => None,
    }
}

} // verus!
