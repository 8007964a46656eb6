use base64::Engine;
use keeprust::crypto::cipher::{decrypt, encrypt, encrypt_with_nonce, CipherError, EncryptedData};
use keeprust::crypto::key_derivation::{
    derive_key_from_password, derive_key_with_salt, verify_and_derive_key, KeyDerivationError,
};

fn hex(text: &str) -> Vec<u8> {
    (0..text.len() / 2)
        .map(|i| u8::from_str_radix(&text[2 * i..2 * i + 2], 16).unwrap())
        .collect()
}

fn b64(bytes: &[u8]) -> String {
    base64::engine::general_purpose::STANDARD.encode(bytes)
}

#[test]
fn pbkdf2_known_answer_one_round() {
    let material = verify_and_derive_key("password", "c2FsdA==", 1).unwrap();
    assert_eq!(
        material.key.to_vec(),
        hex("120fb6cffcf8b32c43e7225256c4f837a86548c92ccc35480805987cb70be17b")
    );
    assert_eq!(material.salt, "c2FsdA==");
    assert_eq!(material.iterations, 1);
}

#[test]
fn pbkdf2_known_answer_two_rounds() {
    let material = verify_and_derive_key("password", "c2FsdA==", 2).unwrap();
    assert_eq!(
        material.key.to_vec(),
        hex("ae4d0c95af6b46d32d0adff928f06dd02a303f8ef3c251dfd6e2d85a95474c43")
    );
}

#[test]
fn pbkdf2_known_answer_many_rounds() {
    let material = verify_and_derive_key("password", "c2FsdA==", 4096).unwrap();
    assert_eq!(
        material.key.to_vec(),
        hex("c5e478d59288c841aa530db6845c4c8d962893a001ce4e11a4963873aa98134a")
    );
}

#[test]
fn key_with_a_given_salt() {
    let salt = [7u8; 16];
    let material = derive_key_with_salt("hunter2", &salt, 1000);
    assert_eq!(material.salt, b64(&salt));
    assert_eq!(material.salt, "BwcHBwcHBwcHBwcHBwcHBw==");
    assert_eq!(material.iterations, 1000);
    let again = verify_and_derive_key("hunter2", &material.salt, 1000).unwrap();
    assert_eq!(again.key, material.key);
    assert_eq!(again.salt, material.salt);
}

#[test]
fn derived_key_is_derived_again_from_its_salt() {
    let material = derive_key_from_password("hunter2", 1000).unwrap();
    assert_eq!(material.iterations, 1000);
    assert_eq!(material.salt.len(), 24);
    let salt = base64::engine::general_purpose::STANDARD.decode(&material.salt).unwrap();
    assert_eq!(salt.len(), 16);
    let again = verify_and_derive_key("hunter2", &material.salt, 1000).unwrap();
    assert_eq!(again.key, material.key);
    let other = verify_and_derive_key("hunter3", &material.salt, 1000).unwrap();
    assert_ne!(other.key, material.key);
    let fewer = verify_and_derive_key("hunter2", &material.salt, 999).unwrap();
    assert_ne!(fewer.key, material.key);
}

#[test]
fn each_derivation_has_its_own_salt() {
    let a = derive_key_from_password("hunter2", 10).unwrap();
    let b = derive_key_from_password("hunter2", 10).unwrap();
    assert_ne!(a.salt, b.salt);
    assert_ne!(a.key, b.key);
}

#[test]
fn a_salt_that_is_no_base64_is_refused() {
    match verify_and_derive_key("hunter2", "!!!!", 10) {
        Err(KeyDerivationError::DerivationError(detail)) => {
            assert_eq!(detail, "Format de sel invalide: Invalid symbol 33, offset 0.");
        }
        Ok(_) => panic!("a key was derived from a salt that is no base64 text"),
    }
    match verify_and_derive_key("hunter2", "abc", 10) {
        Err(e) => {
            assert_eq!(
                e.message(),
                "Erreur lors de la dérivation de clé: Format de sel invalide: Invalid padding"
            );
        }
        Ok(_) => panic!("a key was derived from a salt that is no base64 text"),
    }
}

#[test]
fn the_empty_salt_is_a_salt() {
    let material = verify_and_derive_key("password", "", 1).unwrap();
    assert_eq!(material.salt, "");
    assert_eq!(material.key.len(), 32);
}

#[test]
fn aes_gcm_known_answer_empty_plaintext() {
    let blob = encrypt_with_nonce(&[], &[0u8; 32], &[0u8; 12]).unwrap();
    assert_eq!(blob.nonce, "AAAAAAAAAAAAAAAA");
    assert_eq!(blob.ciphertext, b64(&hex("530f8afbc74536b9a963b4f1c4cb738b")));
    assert_eq!(decrypt(&blob, &[0u8; 32]).unwrap(), Vec::<u8>::new());
}

#[test]
fn aes_gcm_known_answer_one_block() {
    let blob = encrypt_with_nonce(&[0u8; 16], &[0u8; 32], &[0u8; 12]).unwrap();
    assert_eq!(
        blob.ciphertext,
        b64(&hex("cea7403d4d606b6e074ec5d3baf39d18d0d1c8a799996bf0265b98b5d48ab919"))
    );
    assert_eq!(decrypt(&blob, &[0u8; 32]).unwrap(), vec![0u8; 16]);
}

#[test]
fn what_was_sealed_opens_again() {
    let key = [42u8; 32];
    let plaintext = b"{\"name\":\"Vault\"}".to_vec();
    let blob = encrypt(&plaintext, &key).unwrap();
    let nonce = base64::engine::general_purpose::STANDARD.decode(&blob.nonce).unwrap();
    assert_eq!(nonce.len(), 12);
    let ciphertext = base64::engine::general_purpose::STANDARD.decode(&blob.ciphertext).unwrap();
    assert_eq!(ciphertext.len(), plaintext.len() + 16);
    assert_ne!(&ciphertext[..plaintext.len()], &plaintext[..]);
    assert_eq!(decrypt(&blob, &key).unwrap(), plaintext);
}

#[test]
fn sealing_twice_gives_two_nonces_and_two_ciphertexts() {
    let key = [42u8; 32];
    let a = encrypt(b"the same plaintext", &key).unwrap();
    let b = encrypt(b"the same plaintext", &key).unwrap();
    assert_ne!(a.nonce, b.nonce);
    assert_ne!(a.ciphertext, b.ciphertext);
}

#[test]
fn a_wrong_key_does_not_open() {
    let blob = encrypt(b"secret", &[1u8; 32]).unwrap();
    match decrypt(&blob, &[2u8; 32]) {
        Err(CipherError::DecryptionError(detail)) => assert_eq!(detail, "aead::Error"),
        _ => panic!("a wrong key opened the payload"),
    }
}

#[test]
fn a_changed_byte_does_not_open() {
    let key = [9u8; 32];
    let blob = encrypt_with_nonce(b"secret payload", &key, &[3u8; 12]).unwrap();
    let nonce = base64::engine::general_purpose::STANDARD.decode(&blob.nonce).unwrap();
    let ciphertext = base64::engine::general_purpose::STANDARD.decode(&blob.ciphertext).unwrap();
    for i in 0..nonce.len() {
        let mut changed = nonce.clone();
        changed[i] ^= 0x01;
        let tampered = EncryptedData { nonce: b64(&changed), ciphertext: blob.ciphertext.clone() };
        assert!(matches!(decrypt(&tampered, &key), Err(CipherError::DecryptionError(_))));
    }
    for i in 0..ciphertext.len() {
        let mut changed = ciphertext.clone();
        changed[i] ^= 0x80;
        let tampered = EncryptedData { nonce: blob.nonce.clone(), ciphertext: b64(&changed) };
        assert!(matches!(decrypt(&tampered, &key), Err(CipherError::DecryptionError(_))));
    }
    assert_eq!(decrypt(&blob, &key).unwrap(), b"secret payload".to_vec());
}

#[test]
fn a_changed_character_of_the_stored_text_does_not_open() {
    let key = [9u8; 32];
    let blob = encrypt_with_nonce(b"secret payload", &key, &[3u8; 12]).unwrap();
    for i in 0..blob.nonce.len() {
        let mut text = blob.nonce.clone().into_bytes();
        text[i] = if text[i] == b'A' { b'B' } else { b'A' };
        let tampered = EncryptedData {
            nonce: String::from_utf8(text).unwrap(),
            ciphertext: blob.ciphertext.clone(),
        };
        assert!(decrypt(&tampered, &key).is_err());
    }
    for i in 0..blob.ciphertext.len() {
        let mut text = blob.ciphertext.clone().into_bytes();
        text[i] = if text[i] == b'A' { b'B' } else { b'A' };
        let tampered = EncryptedData {
            nonce: blob.nonce.clone(),
            ciphertext: String::from_utf8(text).unwrap(),
        };
        assert!(decrypt(&tampered, &key).is_err());
    }
}

#[test]
fn a_nonce_of_another_length_is_a_format_error() {
    let key = [9u8; 32];
    let blob = encrypt(b"secret", &key).unwrap();
    for len in [0usize, 11, 13, 16] {
        let tampered = EncryptedData {
            nonce: b64(&vec![0u8; len]),
            ciphertext: blob.ciphertext.clone(),
        };
        match decrypt(&tampered, &key) {
            Err(CipherError::FormatError(detail)) => assert_eq!(detail, "Taille de nonce invalide"),
            _ => panic!("a nonce of {} bytes was taken", len),
        }
    }
}

#[test]
fn fields_that_are_no_base64_are_format_errors() {
    let key = [9u8; 32];
    let blob = encrypt(b"secret", &key).unwrap();
    let bad_nonce = EncryptedData { nonce: "@@@@".to_string(), ciphertext: blob.ciphertext.clone() };
    match decrypt(&bad_nonce, &key) {
        Err(CipherError::FormatError(detail)) => {
            assert_eq!(detail, "Format de nonce invalide: Invalid symbol 64, offset 0.");
        }
        _ => panic!("a nonce that is no base64 text was taken"),
    }
    let bad_ciphertext = EncryptedData { nonce: blob.nonce.clone(), ciphertext: "@@@@".to_string() };
    match decrypt(&bad_ciphertext, &key) {
        Err(CipherError::FormatError(detail)) => {
            assert_eq!(detail, "Format de texte chiffré invalide: Invalid symbol 64, offset 0.");
        }
        _ => panic!("a ciphertext that is no base64 text was taken"),
    }
    let both = EncryptedData { nonce: "@@@@".to_string(), ciphertext: "####".to_string() };
    match decrypt(&both, &key) {
        Err(CipherError::FormatError(detail)) => {
            assert_eq!(detail, "Format de nonce invalide: Invalid symbol 64, offset 0.");
        }
        _ => panic!("fields that are no base64 text were taken"),
    }
}

#[test]
fn a_ciphertext_shorter_than_its_tag_does_not_open() {
    let key = [9u8; 32];
    let short = EncryptedData { nonce: b64(&[0u8; 12]), ciphertext: b64(&[1u8; 15]) };
    assert!(matches!(decrypt(&short, &key), Err(CipherError::DecryptionError(_))));
    let empty = EncryptedData { nonce: b64(&[0u8; 12]), ciphertext: String::new() };
    assert!(matches!(decrypt(&empty, &key), Err(CipherError::DecryptionError(_))));
}

#[test]
fn cipher_errors_in_words() {
    assert_eq!(
        CipherError::EncryptionError("a".to_string()).message(),
        "Erreur de chiffrement: a"
    );
    assert_eq!(
        CipherError::DecryptionError("b".to_string()).message(),
        "Erreur de déchiffrement: b"
    );
    assert_eq!(CipherError::FormatError("c".to_string()).message(), "Format invalide: c");
}

#[test]
fn no_key_is_derived_again_without_rounds() {
    match verify_and_derive_key("hunter2", "c2FsdA==", 0) {
        Err(KeyDerivationError::DerivationError(detail)) => {
            assert_eq!(detail, "Nombre d'itérations invalide: 0");
        }
        Ok(_) => panic!("a key was derived without rounds"),
    }
    match verify_and_derive_key("hunter2", "!!!!", 0) {
        Err(KeyDerivationError::DerivationError(detail)) => {
            assert_eq!(detail, "Format de sel invalide: Invalid symbol 33, offset 0.");
        }
        Ok(_) => panic!("a key was derived without rounds"),
    }
}

#[test]
fn what_is_stored_has_the_lengths_of_nonce_and_tag() {
    let key = [5u8; 32];
    for n in [0usize, 1, 2, 3, 15, 16, 17, 100] {
        let plaintext = vec![7u8; n];
        let blob = encrypt(&plaintext, &key).unwrap();
        assert_eq!(blob.nonce.len(), 16);
        let nonce = base64::engine::general_purpose::STANDARD.decode(&blob.nonce).unwrap();
        assert_eq!(nonce.len(), 12);
        assert_eq!(blob.ciphertext.len(), (n + 16 + 2) / 3 * 4);
        let ciphertext =
            base64::engine::general_purpose::STANDARD.decode(&blob.ciphertext).unwrap();
        assert_eq!(ciphertext.len(), n + 16);
    }
}

#[test]
fn the_nonce_that_is_stored_is_the_nonce_given() {
    let key = [5u8; 32];
    let a = encrypt_with_nonce(b"payload", &key, &[1u8; 12]).unwrap();
    let b = encrypt_with_nonce(b"payload", &key, &[2u8; 12]).unwrap();
    assert_eq!(a.nonce, b64(&[1u8; 12]));
    assert_eq!(b.nonce, b64(&[2u8; 12]));
    assert_ne!(a.nonce, b.nonce);
    assert_ne!(a.ciphertext, b.ciphertext);
}
