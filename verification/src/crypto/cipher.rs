//! Authenticated encryption of a payload under a 256-bit key: nobody reads
//! the sealed bytes without the key, and nobody changes them unnoticed.

use crate::crypto::encoding::{
    base64_decoding, base64_encoding, decode_base64, decoded, encodable, encode_base64,
    encoded_len,
};
use vstd::prelude::*;

verus! {

/// The length of a nonce in bytes.
pub const NONCE_LEN: usize = 12;

/// The length of the integrity tag that ends a ciphertext, in bytes.
pub const TAG_LEN: usize = 16;

/// The most bytes that one payload may have.
pub const MAX_PLAINTEXT: u64 = 0x10_0000_0000;

/// Why a payload was not sealed or not opened.
#[derive(Debug)]
pub enum CipherError {
    /// The payload could not be sealed.
    EncryptionError(String),
    /// The key is wrong or the sealed bytes were changed: which of the two,
    /// nobody can tell.
    DecryptionError(String),
    /// A stored field is no base64 text, or has the wrong length.
    FormatError(String),
}

/// A `CipherError` as a mathematical value.
pub enum CipherErrorView {
    EncryptionError(Seq<char>),
    DecryptionError(Seq<char>),
    FormatError(Seq<char>),
}

impl View for CipherError {
    type V = CipherErrorView;

    open spec fn view(&self) -> CipherErrorView {
        match self {
            CipherError::EncryptionError(detail) => CipherErrorView::EncryptionError(detail@),
            CipherError::DecryptionError(detail) => CipherErrorView::DecryptionError(detail@),
            CipherError::FormatError(detail) => CipherErrorView::FormatError(detail@),
        }
    }
}

impl CipherError {
    /// The error in words.
    pub fn message(&self) -> (text: String)
        ensures
            text@ == match self {
                CipherError::EncryptionError(detail) => "Erreur de chiffrement: "@ + detail@,
                CipherError::DecryptionError(detail) => "Erreur de déchiffrement: "@ + detail@,
                CipherError::FormatError(detail) => "Format invalide: "@ + detail@,
            },
    {
        match self {
            CipherError::EncryptionError(detail) => {
                "Erreur de chiffrement: ".to_owned().concat(detail.as_str())
            },
            CipherError::DecryptionError(detail) => {
                "Erreur de déchiffrement: ".to_owned().concat(detail.as_str())
            },
            CipherError::FormatError(detail) => {
                "Format invalide: ".to_owned().concat(detail.as_str())
            },
        }
    }
}

/// A sealed payload as it is stored.
#[derive(Debug)]
pub struct EncryptedData {
    /// The nonce, as base64 text.
    pub nonce: String,
    /// The ciphertext with its integrity tag, as base64 text.
    pub ciphertext: String,
}

/// An `EncryptedData` as a mathematical value.
pub struct EncryptedDataView {
    pub nonce: Seq<char>,
    pub ciphertext: Seq<char>,
}

impl View for EncryptedData {
    type V = EncryptedDataView;

    open spec fn view(&self) -> EncryptedDataView {
        EncryptedDataView { nonce: self.nonce@, ciphertext: self.ciphertext@ }
    }
}

/// The ciphertext, tag included, that AES-256-GCM gives for a key, a nonce
/// and a plaintext of at most `MAX_PLAINTEXT` bytes, without associated
/// data: what the `encrypt` of `aes_gcm::Aes256Gcm` returns for them.
pub uninterp spec fn aes256_gcm_seal(key: Seq<u8>, nonce: Seq<u8>, plaintext: Seq<u8>) -> Seq<u8>;

/// The plaintext that AES-256-GCM recovers from a ciphertext under a key and
/// a nonce, or nothing where the tag does not fit: what the `decrypt` of
/// `aes_gcm::Aes256Gcm` returns for them.
pub uninterp spec fn aes256_gcm_open(key: Seq<u8>, nonce: Seq<u8>, ciphertext: Seq<u8>) -> Option<
    Seq<u8>,
>;

/// Whether a payload of `len` bytes is small enough for its ciphertext to be
/// written as base64 text.
pub open spec fn sealable(len: nat) -> bool {
    encodable((len + TAG_LEN) as nat)
}

/// The outcome of sealing `plaintext` under `key` with the nonce `nonce`.
pub open spec fn sealed(plaintext: Seq<u8>, key: Seq<u8>, nonce: Seq<u8>) -> Result<
    EncryptedDataView,
    CipherErrorView,
> {
    if plaintext.len() > MAX_PLAINTEXT {
        Err(CipherErrorView::EncryptionError("aead::Error"@))
    } else {
        Ok(
            EncryptedDataView {
                nonce: base64_encoding(nonce),
                ciphertext: base64_encoding(aes256_gcm_seal(key, nonce, plaintext)),
            },
        )
    }
}

/// The outcome of opening `blob` under `key`. A nonce or a ciphertext that is
/// no base64 text is refused first, then a nonce that is not `NONCE_LEN`
/// bytes long; after that everything rests on the integrity tag.
pub open spec fn decrypted(blob: EncryptedDataView, key: Seq<u8>) -> Result<
    Seq<u8>,
    CipherErrorView,
> {
    match base64_decoding(blob.nonce) {
        Err(fault) => Err(CipherErrorView::FormatError("Format de nonce invalide: "@ + fault)),
        Ok(nonce) => match base64_decoding(blob.ciphertext) {
            Err(fault) => Err(
                CipherErrorView::FormatError("Format de texte chiffré invalide: "@ + fault),
            ),
            Ok(ciphertext) => if nonce.len() != NONCE_LEN {
                Err(CipherErrorView::FormatError("Taille de nonce invalide"@))
            } else {
                match aes256_gcm_open(key, nonce, ciphertext) {
                    Some(plaintext) => Ok(plaintext),
                    None => Err(CipherErrorView::DecryptionError("aead::Error"@)),
                }
            },
        },
    }
}

/// Whether `blob` is what sealing `plaintext` under `key` with `nonce`
/// stores: the nonce as base64 text that decodes to the nonce again, and as
/// ciphertext the base64 text of the plaintext's length and `TAG_LEN` bytes
/// more, which opens to the plaintext under the key.
pub open spec fn seals(
    blob: EncryptedDataView,
    plaintext: Seq<u8>,
    key: Seq<u8>,
    nonce: Seq<u8>,
) -> bool {
    &&& plaintext.len() <= MAX_PLAINTEXT
    &&& sealed(plaintext, key, nonce) == Ok::<EncryptedDataView, CipherErrorView>(blob)
    &&& blob.nonce.len() == encoded_len(nonce.len())
    &&& base64_decoding(blob.nonce) == decoded(nonce)
    &&& blob.ciphertext.len() == encoded_len((plaintext.len() + TAG_LEN) as nat)
    &&& base64_decoding(blob.ciphertext) == decoded(aes256_gcm_seal(key, nonce, plaintext))
    &&& aes256_gcm_seal(key, nonce, plaintext).len() == plaintext.len() + TAG_LEN
    &&& decrypted(blob, key) == Ok::<Seq<u8>, CipherErrorView>(plaintext)
}

/// Two nonces give two nonce texts: what is stored of two sealings with
/// different nonces differs in the nonce, whatever was sealed under whatever
/// key.
pub proof fn lemma_nonce_texts_differ(
    first: EncryptedDataView,
    second: EncryptedDataView,
    plaintext: Seq<u8>,
    key: Seq<u8>,
    nonce: Seq<u8>,
    other_plaintext: Seq<u8>,
    other_key: Seq<u8>,
    other_nonce: Seq<u8>,
)
    requires
        seals(first, plaintext, key, nonce),
        seals(second, other_plaintext, other_key, other_nonce),
        nonce != other_nonce,
    ensures
        first.nonce != second.nonce,
{
    if first.nonce == second.nonce {
        assert(decoded(nonce) == decoded(other_nonce));
    }
}

/// The outcome of an operation of the cipher as a mathematical value.
pub open spec fn opened_view(r: Result<Vec<u8>, CipherError>) -> Result<Seq<u8>, CipherErrorView> {
    match r {
        Ok(bytes) => Ok(bytes@),
        Err(e) => Err(e@),
    }
}

/// The outcome of sealing as a mathematical value.
pub open spec fn sealed_view(r: Result<EncryptedData, CipherError>) -> Result<
    EncryptedDataView,
    CipherErrorView,
> {
    match r {
        Ok(blob) => Ok(blob@),
        Err(e) => Err(e@),
    }
}

/// Draws a random nonce with the `generate_nonce` of `aes_gcm::Aes256Gcm` on
/// `aes_gcm::aead::OsRng`. Nothing is claimed of the bytes.
#[verifier::external_body]
fn fresh_nonce() -> (nonce: [u8; 12]) {
    <aes_gcm::Aes256Gcm as aes_gcm::aead::AeadCore>::generate_nonce(&mut aes_gcm::aead::OsRng).into()
}

/// Seals a plaintext with the `encrypt` of `aes_gcm::Aes256Gcm`, without
/// associated data. The plaintext must leave room for the tag in a `usize`.
/// The cipher refuses a plaintext of more than `MAX_PLAINTEXT` bytes, in the
/// words of its error, and nothing else. The ciphertext is the one that
/// `aes256_gcm_seal` names; it is `TAG_LEN` bytes longer than the plaintext,
/// and opening it under the same key and nonce gives the plaintext back.
#[verifier::external_body]
fn seal(key: &[u8; 32], nonce: &[u8; 12], plaintext: &[u8]) -> (r: Result<Vec<u8>, String>)
    requires
        plaintext@.len() + TAG_LEN <= usize::MAX,
    ensures
        match r {
            Ok(ciphertext) => {
                &&& plaintext@.len() <= MAX_PLAINTEXT
                &&& ciphertext@ == aes256_gcm_seal(key@, nonce@, plaintext@)
                &&& ciphertext@.len() == plaintext@.len() + TAG_LEN
                &&& aes256_gcm_open(key@, nonce@, ciphertext@) == Some(plaintext@)
            },
            Err(fault) => plaintext@.len() > MAX_PLAINTEXT && fault@ == "aead::Error"@,
        },
{
    let cipher = <aes_gcm::Aes256Gcm as aes_gcm::KeyInit>::new(aes_gcm::Key::<aes_gcm::Aes256Gcm>::from_slice(key));
    match aes_gcm::aead::Aead::encrypt(&cipher, aes_gcm::Nonce::from_slice(nonce), plaintext) {
        Ok(ciphertext) => Ok(ciphertext),
        Err(e) => Err(e.to_string()),
    }
}

/// Opens a ciphertext with the `decrypt` of `aes_gcm::Aes256Gcm`, without
/// associated data. The nonce must be `NONCE_LEN` bytes long: the cipher
/// takes no other. The result is what `aes256_gcm_open` names: the
/// plaintext, or, where the tag does not fit, the words of the cipher's
/// error.
#[verifier::external_body]
fn open(key: &[u8; 32], nonce: &[u8], ciphertext: &[u8]) -> (r: Result<Vec<u8>, String>)
    requires
        nonce@.len() == NONCE_LEN,
    ensures
        match r {
            Ok(plaintext) => aes256_gcm_open(key@, nonce@, ciphertext@) == Some(plaintext@),
            Err(fault) => aes256_gcm_open(key@, nonce@, ciphertext@).is_none() && fault@
                == "aead::Error"@,
        },
{
    let cipher = <aes_gcm::Aes256Gcm as aes_gcm::KeyInit>::new(aes_gcm::Key::<aes_gcm::Aes256Gcm>::from_slice(key));
    match aes_gcm::aead::Aead::decrypt(&cipher, aes_gcm::Nonce::from_slice(nonce), ciphertext) {
        Ok(plaintext) => Ok(plaintext),
        Err(e) => Err(e.to_string()),
    }
}

/// Seals a plaintext under a key with the nonce given. A nonce must never
/// serve twice under one key. Fails exactly where the plaintext has more than
/// `MAX_PLAINTEXT` bytes.
pub fn encrypt_with_nonce(plaintext: &[u8], key: &[u8; 32], nonce: &[u8; 12]) -> (r: Result<
    EncryptedData,
    CipherError,
>)
    requires
        sealable(plaintext@.len()),
    ensures
        sealed_view(r) == sealed(plaintext@, key@, nonce@),
        r matches Ok(blob) ==> seals(blob@, plaintext@, key@, nonce@),
{
    match seal(key, nonce, plaintext) {
        Ok(ciphertext) => {
            let nonce_text = encode_base64(vstd::array::array_as_slice(nonce));
            let ciphertext_text = encode_base64(ciphertext.as_slice());
            Ok(EncryptedData { nonce: nonce_text, ciphertext: ciphertext_text })
        },
        Err(fault) => Err(CipherError::EncryptionError(fault)),
    }
}

/// Seals a plaintext under a key with a fresh random nonce of `NONCE_LEN`
/// bytes. Fails exactly where the plaintext has more than `MAX_PLAINTEXT`
/// bytes. What was sealed opens again under the same key.
pub fn encrypt(plaintext: &[u8], key: &[u8; 32]) -> (r: Result<EncryptedData, CipherError>)
    requires
        sealable(plaintext@.len()),
    ensures
        match r {
            Ok(blob) => exists|nonce: Seq<u8>|
                nonce.len() == NONCE_LEN && seals(blob@, plaintext@, key@, nonce),
            Err(e) => plaintext@.len() > MAX_PLAINTEXT && e@ == CipherErrorView::EncryptionError(
                "aead::Error"@,
            ),
        },
{
    let nonce = fresh_nonce();
    let r = encrypt_with_nonce(plaintext, key, &nonce);
    assert(nonce@.len() == NONCE_LEN);
    r
}

/// Opens a sealed payload under a key. A field that is no base64 text and a
/// nonce of the wrong length are format errors; a wrong key and changed
/// bytes give the same decryption error.
pub fn decrypt(encrypted_data: &EncryptedData, key: &[u8; 32]) -> (r: Result<Vec<u8>, CipherError>)
    ensures
        opened_view(r) == decrypted(encrypted_data@, key@),
{
    let nonce = match decode_base64(encrypted_data.nonce.as_str()) {
        Ok(bytes) => bytes,
        Err(fault) => {
            return Err(
                CipherError::FormatError(
                    "Format de nonce invalide: ".to_owned().concat(fault.as_str()),
                ),
            );
        },
    };
    let ciphertext = match decode_base64(encrypted_data.ciphertext.as_str()) {
        Ok(bytes) => bytes,
        Err(fault) => {
            return Err(
                CipherError::FormatError(
                    "Format de texte chiffré invalide: ".to_owned().concat(fault.as_str()),
                ),
            );
        },
    };
    if nonce.len() != NONCE_LEN {
        return Err(CipherError::FormatError("Taille de nonce invalide".to_owned()));
    }
    match open(key, nonce.as_slice(), ciphertext.as_slice()) {
        Ok(plaintext) => Ok(plaintext),
        Err(fault) => Err(CipherError::DecryptionError(fault)),
    }
}

} // verus!
