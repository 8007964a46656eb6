//! The vault file: a payload sealed under a key that is derived from the
//! master password, framed with what it takes to open it again.
//!
//! The file holds, in this order: the eight bytes of `FILE_MAGIC`, one byte
//! with `FILE_VERSION`, the length of the header record as two bytes, the
//! more significant first, the header record, and the record of the sealed
//! payload up to the end of the file.

use crate::crypto::cipher::{
    decrypt, decrypted, encrypt, encrypt_with_nonce, sealable, sealed, seals, CipherError,
    CipherErrorView, EncryptedData, EncryptedDataView, MAX_PLAINTEXT, NONCE_LEN,
};
use crate::crypto::encoding::encoded_len;
use crate::crypto::key_derivation::{
    derivable, derive_key_from_password, derive_key_with_salt, key_material, rederived,
    verify_and_derive_key, KeyDerivationError, DEFAULT_ITERATIONS,
    SALT_LEN,
};
use vstd::prelude::*;

verus! {

/// The bytes that begin every vault file: `KEEPRUST`.
pub const FILE_MAGIC: [u8; 8] = [75, 69, 69, 80, 82, 85, 83, 84];

/// The version of the file format.
pub const FILE_VERSION: u8 = 1;

/// The number of bytes before the header record.
pub const PREFIX_LEN: usize = 11;

/// Why a vault was not stored or not loaded.
#[derive(Debug)]
pub enum RepositoryError {
    /// The file could not be read or written, or ends too early.
    IoError(String),
    /// A record of the file is malformed.
    SerializationError(String),
    /// The payload could not be sealed.
    EncryptionError(CipherError),
    /// No key could be derived.
    KeyDerivationError(KeyDerivationError),
    /// The file does not begin with `FILE_MAGIC`.
    InvalidFileFormat,
    /// The file has another version than `FILE_VERSION`.
    UnsupportedFileVersion,
    /// The sealed payload does not open under the password.
    InvalidPassword,
}

/// A `RepositoryError` as a mathematical value.
pub enum RepositoryErrorView {
    IoError(Seq<char>),
    SerializationError(Seq<char>),
    EncryptionError(CipherErrorView),
    KeyDerivationError(Seq<char>),
    InvalidFileFormat,
    UnsupportedFileVersion,
    InvalidPassword,
}

impl View for RepositoryError {
    type V = RepositoryErrorView;

    open spec fn view(&self) -> RepositoryErrorView {
        match self {
            RepositoryError::IoError(detail) => RepositoryErrorView::IoError(detail@),
            RepositoryError::SerializationError(detail) => RepositoryErrorView::SerializationError(
                detail@,
            ),
            RepositoryError::EncryptionError(e) => RepositoryErrorView::EncryptionError(e@),
            RepositoryError::KeyDerivationError(KeyDerivationError::DerivationError(detail)) =>
                RepositoryErrorView::KeyDerivationError(detail@),
            RepositoryError::InvalidFileFormat => RepositoryErrorView::InvalidFileFormat,
            RepositoryError::UnsupportedFileVersion => RepositoryErrorView::UnsupportedFileVersion,
            RepositoryError::InvalidPassword => RepositoryErrorView::InvalidPassword,
        }
    }
}

impl RepositoryError {
    /// The error in words. No secret is part of them.
    pub fn message(&self) -> (text: String)
        ensures
            text@ == match self@ {
                RepositoryErrorView::IoError(detail) => "Erreur d'entrée/sortie: "@ + detail,
                RepositoryErrorView::SerializationError(detail) => "Erreur de sérialisation: "@
                    + detail,
                RepositoryErrorView::EncryptionError(CipherErrorView::EncryptionError(detail)) =>
                    "Erreur de chiffrement: "@ + ("Erreur de chiffrement: "@ + detail),
                RepositoryErrorView::EncryptionError(CipherErrorView::DecryptionError(detail)) =>
                    "Erreur de chiffrement: "@ + ("Erreur de déchiffrement: "@ + detail),
                RepositoryErrorView::EncryptionError(CipherErrorView::FormatError(detail)) =>
                    "Erreur de chiffrement: "@ + ("Format invalide: "@ + detail),
                RepositoryErrorView::KeyDerivationError(detail) => "Erreur de dérivation de clé: "@
                    + ("Erreur lors de la dérivation de clé: "@ + detail),
                RepositoryErrorView::InvalidFileFormat => "Format de fichier invalide"@,
                RepositoryErrorView::UnsupportedFileVersion => "Version de fichier non supportée"@,
                RepositoryErrorView::InvalidPassword => "Mot de passe invalide"@,
            },
    {
        match self {
            RepositoryError::IoError(detail) => {
                "Erreur d'entrée/sortie: ".to_owned().concat(detail.as_str())
            },
            RepositoryError::SerializationError(detail) => {
                "Erreur de sérialisation: ".to_owned().concat(detail.as_str())
            },
            RepositoryError::EncryptionError(e) => {
                "Erreur de chiffrement: ".to_owned().concat(e.message().as_str())
            },
            RepositoryError::KeyDerivationError(e) => {
                "Erreur de dérivation de clé: ".to_owned().concat(e.message().as_str())
            },
            RepositoryError::InvalidFileFormat => "Format de fichier invalide".to_owned(),
            RepositoryError::UnsupportedFileVersion => "Version de fichier non supportée".to_owned(),
            RepositoryError::InvalidPassword => "Mot de passe invalide".to_owned(),
        }
    }
}

/// What the file tells in the clear: how the key is derived.
#[derive(Debug)]
pub struct FileHeader {
    /// The salt, as base64 text.
    pub salt: String,
    /// The number of rounds.
    pub iterations: u32,
}

/// A `FileHeader` as a mathematical value.
pub struct FileHeaderView {
    pub salt: Seq<char>,
    pub iterations: u32,
}

impl View for FileHeader {
    type V = FileHeaderView;

    open spec fn view(&self) -> FileHeaderView {
        FileHeaderView { salt: self.salt@, iterations: self.iterations }
    }
}

/// A sealed payload with the header that goes with it.
#[derive(Debug)]
pub struct SealedVault {
    pub header: FileHeader,
    pub data: EncryptedData,
}

/// The two records of a vault file, as they stand in it.
#[derive(Debug)]
pub struct FileRecords {
    /// The header record.
    pub header: Vec<u8>,
    /// The record of the sealed payload.
    pub data: Vec<u8>,
}

/// The two bytes of `n`, the more significant first.
pub open spec fn be16(n: u16) -> Seq<u8> {
    seq![(n / 256) as u8, (n % 256) as u8]
}

/// The number that two bytes stand for, the more significant first.
pub open spec fn from_be16(high: u8, low: u8) -> nat {
    (high * 256 + low) as nat
}

/// The most bytes that a header record may have: its length is written in
/// sixteen bits.
pub const MAX_HEADER_LEN: usize = 0xFFFF;

/// The bytes of the file that frames a header record of no more than
/// `MAX_HEADER_LEN` bytes and a data record.
pub open spec fn framed(header: Seq<u8>, data: Seq<u8>) -> Seq<u8>
    recommends
        header.len() <= MAX_HEADER_LEN,
{
    FILE_MAGIC@ + seq![FILE_VERSION] + be16(header.len() as u16) + header + data
}

/// What reading a file finds: the two records, or the first thing that is
/// wrong with the file. A file that ends before a field is complete cannot
/// be read; the magic marker is looked at before the version, and the
/// version before the length of the header record.
pub open spec fn parsed(file: Seq<u8>) -> Result<(Seq<u8>, Seq<u8>), RepositoryErrorView> {
    if file.len() < 8 {
        Err(RepositoryErrorView::IoError("failed to fill whole buffer"@))
    } else if file.subrange(0, 8) != FILE_MAGIC@ {
        Err(RepositoryErrorView::InvalidFileFormat)
    } else if file.len() < 9 {
        Err(RepositoryErrorView::IoError("failed to fill whole buffer"@))
    } else if file[8] != FILE_VERSION {
        Err(RepositoryErrorView::UnsupportedFileVersion)
    } else if file.len() < PREFIX_LEN {
        Err(RepositoryErrorView::IoError("failed to fill whole buffer"@))
    } else {
        let end = PREFIX_LEN + from_be16(file[9], file[10]);
        if file.len() < end {
            Err(RepositoryErrorView::IoError("failed to fill whole buffer"@))
        } else {
            Ok((file.subrange(PREFIX_LEN as int, end as int), file.subrange(end as int, file.len() as int)))
        }
    }
}

/// The outcome of opening a sealed payload with a password: the key is
/// derived as the header says, and a payload that does not open under it,
/// for whatever reason, means that the password is not the right one.
pub open spec fn opened(
    header: FileHeaderView,
    data: EncryptedDataView,
    password: Seq<char>,
) -> Result<Seq<u8>, RepositoryErrorView> {
    match rederived(password, header.salt, header.iterations) {
        Err(fault) => Err(RepositoryErrorView::KeyDerivationError(fault)),
        Ok(material) => match decrypted(data, material.key) {
            Ok(payload) => Ok(payload),
            Err(_) => Err(RepositoryErrorView::InvalidPassword),
        },
    }
}

/// The outcome of sealing a payload with a password, a salt and a nonce, at
/// `DEFAULT_ITERATIONS` rounds.
pub open spec fn sealed_vault(
    payload: Seq<u8>,
    password: Seq<char>,
    salt: Seq<u8>,
    nonce: Seq<u8>,
) -> Result<(FileHeaderView, EncryptedDataView), RepositoryErrorView> {
    let material = key_material(password, salt, DEFAULT_ITERATIONS);
    match sealed(payload, material.key, nonce) {
        Ok(data) => Ok(
            (FileHeaderView { salt: material.salt, iterations: DEFAULT_ITERATIONS }, data),
        ),
        Err(e) => Err(RepositoryErrorView::EncryptionError(e)),
    }
}

/// Whether `header` and `data` are what sealing `payload` with `password`,
/// the salt `salt` and the nonce `nonce` stores: the header names the salt
/// and `DEFAULT_ITERATIONS` rounds, the data are the payload sealed under the
/// key that these give, and both together open to the payload with the
/// password.
pub open spec fn vault_seals(
    header: FileHeaderView,
    data: EncryptedDataView,
    payload: Seq<u8>,
    password: Seq<char>,
    salt: Seq<u8>,
    nonce: Seq<u8>,
) -> bool {
    &&& sealed_vault(payload, password, salt, nonce) == Ok::<
        (FileHeaderView, EncryptedDataView),
        RepositoryErrorView,
    >((header, data))
    &&& header.salt.len() == encoded_len(salt.len())
    &&& seals(data, payload, key_material(password, salt, DEFAULT_ITERATIONS).key, nonce)
    &&& opened(header, data, password) == Ok::<Seq<u8>, RepositoryErrorView>(payload)
}

/// The outcome of sealing as a mathematical value.
pub open spec fn sealed_vault_view(r: Result<SealedVault, RepositoryError>) -> Result<
    (FileHeaderView, EncryptedDataView),
    RepositoryErrorView,
> {
    match r {
        Ok(vault) => Ok((vault.header@, vault.data@)),
        Err(e) => Err(e@),
    }
}

/// The outcome of opening as a mathematical value.
pub open spec fn payload_view(r: Result<Vec<u8>, RepositoryError>) -> Result<
    Seq<u8>,
    RepositoryErrorView,
> {
    match r {
        Ok(payload) => Ok(payload@),
        Err(e) => Err(e@),
    }
}

/// The outcome of reading as a mathematical value.
pub open spec fn records_view(r: Result<FileRecords, RepositoryError>) -> Result<
    (Seq<u8>, Seq<u8>),
    RepositoryErrorView,
> {
    match r {
        Ok(records) => Ok((records.header@, records.data@)),
        Err(e) => Err(e@),
    }
}

/// Appends bytes to a buffer.
fn append_bytes(out: &mut Vec<u8>, bytes: &[u8])
    ensures
        final(out)@ == old(out)@ + bytes@,
{
    let n = bytes.len();
    let mut i: usize = 0;
    while i < n
        invariant
            n == bytes@.len(),
            i <= n,
            out@ == old(out)@ + bytes@.take(i as int),
        decreases n - i,
    {
        out.push(bytes[i]);
        assert(bytes@.take(i + 1) =~= bytes@.take(i as int).push(bytes@[i as int]));
        i += 1;
    }
    assert(bytes@.take(n as int) =~= bytes@);
}

/// The bytes of a buffer from `from` up to `to`.
fn copy_range(bytes: &[u8], from: usize, to: usize) -> (out: Vec<u8>)
    requires
        from <= to <= bytes@.len(),
    ensures
        out@ == bytes@.subrange(from as int, to as int),
{
    let mut out: Vec<u8> = Vec::new();
    let mut i: usize = from;
    while i < to
        invariant
            from <= i <= to,
            to <= bytes@.len(),
            out@ == bytes@.subrange(from as int, i as int),
        decreases to - i,
    {
        out.push(bytes[i]);
        assert(bytes@.subrange(from as int, i + 1) =~= bytes@.subrange(from as int, i as int).push(
            bytes@[i as int],
        ));
        i += 1;
    }
    out
}

/// The place where a vault is stored.
pub struct Repository {
    path: String,
}

impl View for Repository {
    type V = Seq<char>;

    /// The path of the vault file.
    closed spec fn view(&self) -> Seq<char> {
        self.path@
    }
}

impl Repository {
    /// The repository of the vault file at `path`.
    pub fn new(path: &str) -> (repository: Repository)
        ensures
            repository@ == path@,
    {
        Repository { path: path.to_owned() }
    }

    /// The path of the vault file.
    pub fn path(&self) -> (path: &str)
        ensures
            path@ == self@,
    {
        self.path.as_str()
    }

    /// Seals a payload under the key that the password gives with the salt
    /// given, at `DEFAULT_ITERATIONS` rounds, and with the nonce given. What
    /// was sealed opens again with the same password.
    pub fn seal_payload_with(
        payload: &[u8],
        password: &str,
        salt: &[u8; 16],
        nonce: &[u8; 12],
    ) -> (r: Result<SealedVault, RepositoryError>)
        requires
            derivable(password),
            sealable(payload@.len()),
        ensures
            sealed_vault_view(r) == sealed_vault(payload@, password@, salt@, nonce@),
            r matches Ok(vault) ==> vault_seals(
                vault.header@,
                vault.data@,
                payload@,
                password@,
                salt@,
                nonce@,
            ),
    {
        let material = derive_key_with_salt(password, salt, DEFAULT_ITERATIONS);
        match encrypt_with_nonce(payload, &material.key, nonce) {
            Ok(data) => {
                let header = FileHeader { salt: material.salt, iterations: DEFAULT_ITERATIONS };
                Ok(SealedVault { header, data })
            },
            Err(e) => Err(RepositoryError::EncryptionError(e)),
        }
    }

    /// Seals a payload under a key that is derived from the password with a
    /// fresh random salt, at `DEFAULT_ITERATIONS` rounds, and with a fresh
    /// random nonce. Fails where the system has no random bytes for the
    /// salt, and where the payload has more than `MAX_PLAINTEXT` bytes. What
    /// was sealed opens again with the same password.
    pub fn seal_payload(payload: &[u8], password: &str) -> (r: Result<SealedVault, RepositoryError>)
        requires
            derivable(password),
            sealable(payload@.len()),
        ensures
            match r {
                Ok(vault) => (exists|salt: Seq<u8>, nonce: Seq<u8>|
                    salt.len() == SALT_LEN && nonce.len() == NONCE_LEN && (#[trigger] sealed_vault(
                        payload@,
                        password@,
                        salt,
                        nonce,
                    )) is Ok && vault_seals(
                        vault.header@,
                        vault.data@,
                        payload@,
                        password@,
                        salt,
                        nonce,
                    )),
                Err(e) => {
                    ||| e@ == RepositoryErrorView::KeyDerivationError(
                        "Échec de génération de sel aléatoire"@,
                    )
                    ||| payload@.len() > MAX_PLAINTEXT && e@ == RepositoryErrorView::EncryptionError(
                        CipherErrorView::EncryptionError("aead::Error"@),
                    )
                },
            },
    {
        let material = match derive_key_from_password(password, DEFAULT_ITERATIONS) {
            Ok(material) => material,
            Err(e) => {
                return Err(RepositoryError::KeyDerivationError(e));
            },
        };
        let ghost salt = choose|salt: Seq<u8>|
            salt.len() == SALT_LEN && material@ == key_material(
                password@,
                salt,
                DEFAULT_ITERATIONS,
            );
        match encrypt(payload, &material.key) {
            Ok(data) => {
                let ghost nonce = choose|nonce: Seq<u8>|
                    nonce.len() == NONCE_LEN && seals(data@, payload@, material.key@, nonce);
                let header = FileHeader { salt: material.salt, iterations: DEFAULT_ITERATIONS };
                let vault = SealedVault { header, data };
                assert(salt.len() == SALT_LEN && nonce.len() == NONCE_LEN && vault_seals(
                    vault.header@,
                    vault.data@,
                    payload@,
                    password@,
                    salt,
                    nonce,
                ));
                Ok(vault)
            },
            Err(e) => Err(RepositoryError::EncryptionError(e)),
        }
    }

    /// Opens a sealed payload with a password: derives the key as the header
    /// says and opens the payload under it. A header from which no key can
    /// be derived (a salt that is no base64 text or too long, no rounds at
    /// all) is a key derivation error; every failure to open the payload is
    /// reported as an invalid password.
    pub fn open_payload(header: &FileHeader, data: &EncryptedData, password: &str) -> (r: Result<
        Vec<u8>,
        RepositoryError,
    >)
        requires
            derivable(password),
        ensures
            payload_view(r) == opened(header@, data@, password@),
    {
        let material = match verify_and_derive_key(
            password,
            header.salt.as_str(),
            header.iterations,
        ) {
            Ok(material) => material,
            Err(e) => {
                return Err(RepositoryError::KeyDerivationError(e));
            },
        };
        match decrypt(data, &material.key) {
            Ok(payload) => Ok(payload),
            Err(_) => Err(RepositoryError::InvalidPassword),
        }
    }

    /// The bytes of the vault file for a header record and a data record.
    /// The header record must have no more than `MAX_HEADER_LEN` bytes, for
    /// its length to be written in the file. What is framed is read back by
    /// `parse`.
    pub fn frame(header: &[u8], data: &[u8]) -> (file: Vec<u8>)
        requires
            header@.len() <= MAX_HEADER_LEN,
        ensures
            file@ == framed(header@, data@),
            parsed(file@) == Ok::<(Seq<u8>, Seq<u8>), RepositoryErrorView>((header@, data@)),
    {
        proof {
            lemma_parse_of_frame(header@, data@);
        }
        let mut file: Vec<u8> = Vec::new();
        append_bytes(&mut file, vstd::array::array_as_slice(&FILE_MAGIC));
        file.push(FILE_VERSION);
        let len: u16 = header.len() as u16;
        file.push((len / 256) as u8);
        file.push((len % 256) as u8);
        assert(file@ =~= FILE_MAGIC@ + seq![FILE_VERSION] + be16(len));
        append_bytes(&mut file, header);
        append_bytes(&mut file, data);
        file
    }

    /// Reads the bytes of a vault file: checks the magic marker and the
    /// version, and cuts out the header record and the data record.
    pub fn parse(file: &[u8]) -> (r: Result<FileRecords, RepositoryError>)
        ensures
            records_view(r) == parsed(file@),
    {
        if file.len() < 8 {
            return Err(RepositoryError::IoError("failed to fill whole buffer".to_owned()));
        }
        let mut i: usize = 0;
        while i < 8
            invariant
                i <= 8,
                file@.len() >= 8,
                forall|j: int| 0 <= j < i ==> file@[j] == FILE_MAGIC@[j],
            decreases 8 - i,
        {
            if file[i] != FILE_MAGIC[i] {
                assert(file@.subrange(0, 8)[i as int] != FILE_MAGIC@[i as int]);
                return Err(RepositoryError::InvalidFileFormat);
            }
            i += 1;
        }
        assert(file@.subrange(0, 8) =~= FILE_MAGIC@);
        if file.len() < 9 {
            return Err(RepositoryError::IoError("failed to fill whole buffer".to_owned()));
        }
        if file[8] != FILE_VERSION {
            return Err(RepositoryError::UnsupportedFileVersion);
        }
        if file.len() < PREFIX_LEN {
            return Err(RepositoryError::IoError("failed to fill whole buffer".to_owned()));
        }
        let header_len: usize = file[9] as usize * 256 + file[10] as usize;
        if file.len() - PREFIX_LEN < header_len {
            return Err(RepositoryError::IoError("failed to fill whole buffer".to_owned()));
        }
        let end = PREFIX_LEN + header_len;
        let header = copy_range(file, PREFIX_LEN, end);
        let data = copy_range(file, end, file.len());
        Ok(FileRecords { header, data })
    }
}

/// Reading gives back what was framed: of the file that frames a header
/// record of no more than `MAX_HEADER_LEN` bytes and a data record, reading
/// finds exactly these two records.
pub proof fn lemma_parse_of_frame(header: Seq<u8>, data: Seq<u8>)
    requires
        header.len() <= MAX_HEADER_LEN,
    ensures
        parsed(framed(header, data)) == Ok::<(Seq<u8>, Seq<u8>), RepositoryErrorView>(
            (header, data),
        ),
{
    let file = framed(header, data);
    let len = header.len() as u16;
    assert(len == header.len());
    assert(FILE_MAGIC@.len() == 8);
    assert(file.len() == PREFIX_LEN + header.len() + data.len());
    assert(file.subrange(0, 8) =~= FILE_MAGIC@);
    assert(file[8] == FILE_VERSION);
    assert(file[9] == (len / 256) as u8);
    assert(file[10] == (len % 256) as u8);
    assert(from_be16(file[9], file[10]) == header.len());
    let end = PREFIX_LEN + header.len();
    assert(file.subrange(PREFIX_LEN as int, end as int) =~= header);
    assert(file.subrange(end as int, file.len() as int) =~= data);
}

} // verus!
