//! The secure-storage boundary: a trait platform backends implement, and the
//! failures they report.

use vstd::prelude::*;

verus! {

/// Why a secure-storage operation failed.
#[derive(Debug)]
pub enum SecureStorageError {
    Encryption(String),
    Decryption(String),
    Platform(String),
}

impl SecureStorageError {
    /// A human-readable account of the failure.
    pub fn message(&self) -> (r: String)
        ensures
            match self {
                SecureStorageError::Encryption(d) => r@ == "Encryption failed: "@ + d@,
                SecureStorageError::Decryption(d) => r@ == "Decryption failed: "@ + d@,
                SecureStorageError::Platform(d) => r@ == "Platform-specific error: "@ + d@,
            },
    {
        match self {
            SecureStorageError::Encryption(detail) => {
                let mut m: String = "Encryption failed: ".to_owned();
                m.append(detail.as_str());
                m
            },
            SecureStorageError::Decryption(detail) => {
                let mut m: String = "Decryption failed: ".to_owned();
                m.append(detail.as_str());
                m
            },
            SecureStorageError::Platform(detail) => {
                let mut m: String = "Platform-specific error: ".to_owned();
                m.append(detail.as_str());
                m
            },
        }
    }
}

/// Platform-native secure storage, implemented once per platform outside the
/// library (a keychain, a cryptography API).  The library states nothing of
/// what an implementation returns.
pub trait SecureStorage {
    /// Encrypts the given plaintext.
    fn encrypt(&self, plaintext: &Vec<u8>) -> Result<Vec<u8>, SecureStorageError>;

    /// Decrypts the given ciphertext.
    fn decrypt(&self, ciphertext: &Vec<u8>) -> Result<Vec<u8>, SecureStorageError>;
}

} // verus!
