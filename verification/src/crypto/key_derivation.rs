//! A key from a password: the password is stretched with a salt through many
//! rounds of a keyed hash, so that guessing it is slow.

use crate::crypto::encoding::{
    base64_decoding, base64_encoding, decode_base64, encode_base64, encoded_len,
};
use vstd::prelude::*;
use vstd::string::StringSliceAdditionalSpecFns;

verus! {

/// The length of a salt in bytes.
pub const SALT_LEN: usize = 16;

/// The number of rounds with which a vault's key is derived.
pub const DEFAULT_ITERATIONS: u32 = 100_000;

/// The most bytes that a password or a salt may have for a key to be derived
/// from it. The hash takes fewer than 2^61 bytes at a time, and a salt is
/// hashed behind one block of 64 bytes and before four bytes more.
pub const MAX_KDF_INPUT: u64 = 0x1FFF_FFFF_FFFF_FFBB;

/// Why no key was derived.
#[derive(Debug)]
pub enum KeyDerivationError {
    DerivationError(String),
}

impl KeyDerivationError {
    /// The error in words.
    pub fn message(&self) -> (text: String)
        ensures
            text@ == match self {
                KeyDerivationError::DerivationError(detail) =>
                    "Erreur lors de la dérivation de clé: "@ + detail@,
            },
    {
        match self {
            KeyDerivationError::DerivationError(detail) => {
                "Erreur lors de la dérivation de clé: ".to_owned().concat(detail.as_str())
            },
        }
    }
}

/// A derived key with what it takes to derive it again from the password.
#[derive(Debug)]
pub struct MasterKey {
    /// The salt, as base64 text.
    pub salt: String,
    /// The key.
    pub key: [u8; 32],
    /// The number of rounds.
    pub iterations: u32,
}

/// A `MasterKey` as a mathematical value.
pub struct MasterKeyView {
    pub salt: Seq<char>,
    pub key: Seq<u8>,
    pub iterations: u32,
}

impl View for MasterKey {
    type V = MasterKeyView;

    open spec fn view(&self) -> MasterKeyView {
        MasterKeyView { salt: self.salt@, key: self.key@, iterations: self.iterations }
    }
}

/// The 32 bytes that PBKDF2 with HMAC-SHA256 derives from a password, a salt
/// and a number of rounds: what `ring::pbkdf2::derive` writes for them.
pub uninterp spec fn pbkdf2_hmac_sha256(password: Seq<char>, salt: Seq<u8>, iterations: u32) -> Seq<
    u8,
>;

/// Whether a key can be derived from `password`: it has no more than
/// `MAX_KDF_INPUT` bytes.
pub open spec fn derivable(password: &str) -> bool {
    password.spec_bytes().len() <= MAX_KDF_INPUT
}

/// The key material that `password` gives with the salt `salt` and
/// `iterations` rounds.
pub open spec fn key_material(password: Seq<char>, salt: Seq<u8>, iterations: u32) -> MasterKeyView {
    MasterKeyView {
        salt: base64_encoding(salt),
        key: pbkdf2_hmac_sha256(password, salt, iterations),
        iterations,
    }
}

/// The key material that `password` gives with a stored salt, or the words in
/// which the derivation is refused: where the salt is no base64 text, where
/// the number of rounds is zero, and where the salt is longer than
/// `MAX_KDF_INPUT` bytes, in this order.
pub open spec fn rederived(password: Seq<char>, salt: Seq<char>, iterations: u32) -> Result<
    MasterKeyView,
    Seq<char>,
> {
    match base64_decoding(salt) {
        Err(fault) => Err("Format de sel invalide: "@ + fault),
        Ok(bytes) => if iterations == 0 {
            Err("Nombre d'itérations invalide: 0"@)
        } else if bytes.len() > MAX_KDF_INPUT {
            Err("Sel trop long"@)
        } else {
            Ok(
                MasterKeyView {
                    salt,
                    key: pbkdf2_hmac_sha256(password, bytes, iterations),
                    iterations,
                },
            )
        },
    }
}

/// Asks the system for 16 random bytes with the `fill` of
/// `ring::rand::SystemRandom`. `None` where the system has none to give;
/// nothing is claimed of the bytes.
#[verifier::external_body]
fn random_salt() -> (salt: Option<[u8; 16]>) {
    let mut salt = [0u8; 16];
    match ring::rand::SecureRandom::fill(&ring::rand::SystemRandom::new(), &mut salt) {
        Ok(()) => Some(salt),
        Err(_) => None,
    }
}

/// Derives 32 bytes with `ring::pbkdf2::derive` for
/// `ring::pbkdf2::PBKDF2_HMAC_SHA256`. The number of rounds must not be zero
/// and the inputs not longer than `MAX_KDF_INPUT` bytes: `derive` takes no
/// zero and panics on inputs that its hash cannot take. The bytes are those
/// that `pbkdf2_hmac_sha256` names.
#[verifier::external_body]
fn stretch(password: &str, salt: &[u8], iterations: u32) -> (key: [u8; 32])
    requires
        iterations > 0,
        derivable(password),
        salt@.len() <= MAX_KDF_INPUT,
    ensures
        key@ == pbkdf2_hmac_sha256(password@, salt@, iterations),
{
    let mut key = [0u8; 32];
    ring::pbkdf2::derive(
        ring::pbkdf2::PBKDF2_HMAC_SHA256,
        std::num::NonZeroU32::new(iterations).unwrap(),
        salt,
        password.as_bytes(),
        &mut key,
    );
    key
}

/// Derives a key from a password with the salt given.
pub fn derive_key_with_salt(password: &str, salt: &[u8; 16], iterations: u32) -> (material:
    MasterKey)
    requires
        iterations > 0,
        derivable(password),
    ensures
        material@ == key_material(password@, salt@, iterations),
        material@.salt.len() == encoded_len(SALT_LEN as nat),
        rederived(password@, material@.salt, iterations) == Ok::<MasterKeyView, Seq<char>>(
            material@,
        ),
{
    let bytes = vstd::array::array_as_slice(salt);
    let text = encode_base64(bytes);
    let key = stretch(password, bytes, iterations);
    MasterKey { salt: text, key, iterations }
}

/// Derives a key from a password with a fresh random salt. Fails only where
/// the system has no random bytes to give.
pub fn derive_key_from_password(password: &str, iterations: u32) -> (r: Result<
    MasterKey,
    KeyDerivationError,
>)
    requires
        iterations > 0,
        derivable(password),
    ensures
        match r {
            Ok(material) => {
                &&& exists|salt: Seq<u8>|
                    salt.len() == SALT_LEN && material@ == key_material(password@, salt, iterations)
                &&& material@.salt.len() == encoded_len(SALT_LEN as nat)
                &&& rederived(password@, material@.salt, iterations) == Ok::<
                    MasterKeyView,
                    Seq<char>,
                >(material@)
            },
            Err(KeyDerivationError::DerivationError(detail)) => detail@
                == "Échec de génération de sel aléatoire"@,
        },
{
    match random_salt() {
        Some(salt) => {
            let material = derive_key_with_salt(password, &salt, iterations);
            assert(salt@.len() == SALT_LEN);
            Ok(material)
        },
        None => Err(
            KeyDerivationError::DerivationError("Échec de génération de sel aléatoire".to_owned()),
        ),
    }
}

/// Derives the key again from a password and a stored salt. The same inputs
/// always give the same key; whether the password is the right one shows only
/// when the key is used. Fails where the salt is no base64 text, where the
/// number of rounds is zero, and where the salt is too long.
pub fn verify_and_derive_key(password: &str, salt: &str, iterations: u32) -> (r: Result<
    MasterKey,
    KeyDerivationError,
>)
    requires
        derivable(password),
    ensures
        match r {
            Ok(material) => rederived(password@, salt@, iterations) == Ok::<
                MasterKeyView,
                Seq<char>,
            >(material@),
            Err(KeyDerivationError::DerivationError(detail)) => rederived(
                password@,
                salt@,
                iterations,
            ) == Err::<MasterKeyView, Seq<char>>(detail@),
        },
{
    match decode_base64(salt) {
        Ok(bytes) => {
            if iterations == 0 {
                return Err(
                    KeyDerivationError::DerivationError(
                        "Nombre d'itérations invalide: 0".to_owned(),
                    ),
                );
            }
            if bytes.len() as u64 > MAX_KDF_INPUT {
                return Err(KeyDerivationError::DerivationError("Sel trop long".to_owned()));
            }
            let key = stretch(password, bytes.as_slice(), iterations);
            Ok(MasterKey { salt: salt.to_owned(), key, iterations })
        },
        Err(fault) => Err(
            KeyDerivationError::DerivationError(
                "Format de sel invalide: ".to_owned().concat(fault.as_str()),
            ),
        ),
    }
}

} // verus!
