//! Keys derived from a passphrase, and the decryption of objects with them.
//!
//! A key is derived in two steps. PBKDF2 with HMAC-SHA1 and 1000 rounds
//! turns the passphrase and a salt into 48 bytes; from these and the same
//! salt the old OpenSSL key derivation (`EVP_BytesToKey`, SHA-1, 1000
//! rounds) makes the key and the initialisation vector for AES-256 in CBC
//! mode. The cryptography itself is OpenSSL's.

use openssl::error::ErrorStack;
use vstd::prelude::*;
use vstd::string::*;
use vstd::utf8::encode_utf8;

verus! {

#[verifier::external_type_specification]
#[verifier::external_body]
pub struct ExErrorStack(ErrorStack);

/// Why a cryptographic operation failed.
#[derive(Debug)]
pub enum CryptoError {
    /// The data could not be decrypted: most likely a wrong passphrase.
    BadKey,
    /// The data does not have the form that the operation asks for.
    MalformedData,
    /// The cryptographic backend gave something it should not give.
    Unexpected,
    /// The cryptographic backend failed.
    LibraryError(ErrorStack),
}

/// Anything that can encrypt a buffer.
pub trait Encrypter {
    fn encrypt(&self, buf: &[u8]) -> Result<Vec<u8>, ()>;
}

/// Anything that can decrypt a buffer.
pub trait Decrypter {
    fn decrypt(&self, buf: &[u8]) -> Result<Vec<u8>, ()>;
}

/// Anything that can decrypt the content of an object of the repository.
pub trait ObjectDecrypter {
    fn decrypt_object(&self, object_bytes: &[u8]) -> Result<Vec<u8>, CryptoError>;
}

/// The number of bytes that the first step of the key derivation gives.
pub const KEY_LEN: usize = 48;

/// The number of rounds of both steps of the key derivation.
pub const KEY_ITER: usize = 1000;

/// The length of an AES-256 key.
pub const AES_KEY_LEN: usize = 32;

/// The length of the initialisation vector of AES in CBC mode.
pub const AES_IV_LEN: usize = 16;

/// The length that the salt of the key derivation has to have.
pub const SALT_LEN: usize = 8;

/// The longest buffer that the cryptographic backend takes.
pub const MAX_INPUT_LEN: usize = 0x7fff_ffef;

/// The marker in front of an encrypted object under the first version of
/// the envelope: the letters of `encrypted`.
pub const V1_HEADER: [u8; 9] = [0x65, 0x6e, 0x63, 0x72, 0x79, 0x70, 0x74, 0x65, 0x64];

/// The `len` bytes that PBKDF2 with HMAC-SHA1 derives from `pass` and
/// `salt` in `iter` rounds, or nothing where the backend refuses.
pub uninterp spec fn pbkdf2_hmac_sha1_key(pass: Seq<u8>, salt: Seq<u8>, iter: usize, len: usize) -> Option<Seq<u8>>;

/// The key and the initialisation vector for AES-256 in CBC mode that
/// `EVP_BytesToKey` derives with SHA-1 from `data` and `salt` in `count`
/// rounds, or nothing where the backend refuses.
pub uninterp spec fn evp_bytes_to_key_pair(data: Seq<u8>, salt: Seq<u8>, count: i32) -> Option<(Seq<u8>, Option<Seq<u8>>)>;

/// What AES-256 in CBC mode with PKCS padding decrypts `data` to under
/// `key` and `iv`, or nothing where `data` is no ciphertext under them.
pub uninterp spec fn aes_256_cbc_plaintext(key: Seq<u8>, iv: Seq<u8>, data: Seq<u8>) -> Option<Seq<u8>>;

/// What AES-256 in CBC mode with PKCS padding encrypts `data` to under
/// `key` and `iv`, or nothing where the backend refuses.
pub uninterp spec fn aes_256_cbc_ciphertext(key: Seq<u8>, iv: Seq<u8>, data: Seq<u8>) -> Option<Seq<u8>>;

/// `openssl::pkcs5::pbkdf2_hmac` with SHA-1, into a fresh buffer of `len`
/// bytes. Whether the call succeeds, and what the buffer then holds, is a
/// matter of the arguments alone. The lengths and the number of rounds have
/// to fit the C `int` that OpenSSL counts in.
#[verifier::external_body]
pub(crate) fn pbkdf2_hmac_sha1(pass: &[u8], salt: &[u8], iter: usize, len: usize) -> (r: Result<
    Vec<u8>,
    ErrorStack,
>)
    requires
        pass@.len() <= 0x7fff_ffff,
        salt@.len() <= 0x7fff_ffff,
        iter <= 0x7fff_ffff,
        len <= 0x7fff_ffff,
    ensures
        match r {
            Ok(key) => pbkdf2_hmac_sha1_key(pass@, salt@, iter, len) == Some(key@) && key@.len()
                == len,
            Err(_) => pbkdf2_hmac_sha1_key(pass@, salt@, iter, len) is None,
        },
{
    let mut key = vec![0u8; len];
    openssl::pkcs5::pbkdf2_hmac(pass, salt, iter, openssl::hash::MessageDigest::sha1(), &mut key)
        .map(|_| key)
}

/// `openssl::pkcs5::bytes_to_key` for AES-256 in CBC mode with SHA-1: the
/// derived key and initialisation vector, or nothing where the call fails.
/// Which of the two is a matter of the arguments alone. The salt has to be 8
/// bytes long and the data has to fit the C `int` that OpenSSL counts in.
#[verifier::external_body]
pub(crate) fn bytes_to_key_aes_256_cbc(data: &[u8], salt: &[u8], count: i32) -> (r: Option<
    (Vec<u8>, Option<Vec<u8>>),
>)
    requires
        data@.len() <= 0x7fff_ffff,
        salt@.len() == 8,
    ensures
        r.deep_view() == evp_bytes_to_key_pair(data@, salt@, count),
{
    openssl::pkcs5::bytes_to_key(
        openssl::symm::Cipher::aes_256_cbc(),
        openssl::hash::MessageDigest::sha1(),
        data,
        Some(salt),
        count,
    ).ok().map(|pair| (pair.key, pair.iv))
}

/// `openssl::symm::decrypt` with AES-256 in CBC mode: the plaintext, or a
/// failure where the data is no ciphertext under the key. Which of the two
/// is a matter of the arguments alone. The key and the initialisation vector
/// have to have the lengths of the cipher, and the data, with one block
/// more, has to fit the C `int` that OpenSSL counts in.
#[verifier::external_body]
pub(crate) fn aes_256_cbc_decrypt(key: &[u8], iv: &[u8], data: &[u8]) -> (r: Result<
    Vec<u8>,
    ErrorStack,
>)
    requires
        key@.len() == 32,
        iv@.len() == 16,
        data@.len() <= 0x7fff_ffef,
    ensures
        match r {
            Ok(plain) => aes_256_cbc_plaintext(key@, iv@, data@) == Some(plain@),
            Err(_) => aes_256_cbc_plaintext(key@, iv@, data@) is None,
        },
{
    openssl::symm::decrypt(openssl::symm::Cipher::aes_256_cbc(), key, Some(iv), data)
}

/// `openssl::symm::encrypt` with AES-256 in CBC mode: the ciphertext, or a
/// failure. Which of the two is a matter of the arguments alone. The key and
/// the initialisation vector have to have the lengths of the cipher, and the
/// data, with one block more, has to fit the C `int` that OpenSSL counts in.
#[verifier::external_body]
pub(crate) fn aes_256_cbc_encrypt(key: &[u8], iv: &[u8], data: &[u8]) -> (r: Result<
    Vec<u8>,
    ErrorStack,
>)
    requires
        key@.len() == 32,
        iv@.len() == 16,
        data@.len() <= 0x7fff_ffef,
    ensures
        match r {
            Ok(cipher) => aes_256_cbc_ciphertext(key@, iv@, data@) == Some(cipher@),
            Err(_) => aes_256_cbc_ciphertext(key@, iv@, data@) is None,
        },
{
    openssl::symm::encrypt(openssl::symm::Cipher::aes_256_cbc(), key, Some(iv), data)
}

/// A key for AES-256 in CBC mode, with its initialisation vector.
#[derive(Debug)]
pub struct CryptoKey {
    key: Vec<u8>,
    iv: Vec<u8>,
}

/// What the second step of the key derivation makes of what the backend
/// gave: a key, where there is a key of 32 bytes with an initialisation
/// vector of 16; anything else is unexpected.
pub open spec fn usable_key_material(pair: Option<(Seq<u8>, Option<Seq<u8>>)>) -> Option<
    (Seq<u8>, Seq<u8>),
> {
    match pair {
        Some((key, Some(iv))) => if key.len() == AES_KEY_LEN && iv.len() == AES_IV_LEN {
            Some((key, iv))
        } else {
            None
        },
        _ => None,
    }
}

/// The key and the initialisation vector that the two steps of the key
/// derivation make of a passphrase, given as UTF-8, and a salt. There is
/// none where the salt is not 8 bytes long, where the passphrase is longer
/// than the backend takes, where the backend refuses a step, and where what
/// the second step gives is no usable key material.
pub open spec fn spec_derived_key(pass: Seq<u8>, salt: Seq<u8>) -> Option<(Seq<u8>, Seq<u8>)> {
    if salt.len() != SALT_LEN || pass.len() > 0x7fff_ffff {
        None
    } else {
        match pbkdf2_hmac_sha1_key(pass, salt, KEY_ITER, KEY_LEN) {
            Some(seed) => usable_key_material(evp_bytes_to_key_pair(seed, salt, 1000)),
            None => None,
        }
    }
}

/// What a buffer decrypts to under a key and an initialisation vector: a
/// buffer that is longer than the backend takes decrypts to nothing.
pub open spec fn spec_decrypt(key: Seq<u8>, iv: Seq<u8>, buf: Seq<u8>) -> Option<Seq<u8>> {
    if buf.len() > MAX_INPUT_LEN {
        None
    } else {
        aes_256_cbc_plaintext(key, iv, buf)
    }
}

/// What a buffer encrypts to under a key and an initialisation vector: a
/// buffer that is longer than the backend takes encrypts to nothing.
pub open spec fn spec_encrypt(key: Seq<u8>, iv: Seq<u8>, buf: Seq<u8>) -> Option<Seq<u8>> {
    if buf.len() > MAX_INPUT_LEN {
        None
    } else {
        aes_256_cbc_ciphertext(key, iv, buf)
    }
}

/// Whether `blob` starts with the marker of the envelope.
pub open spec fn has_envelope(blob: Seq<u8>) -> bool {
    blob.len() >= 9 && blob.take(9) == V1_HEADER@
}

impl CryptoKey {
    /// The bytes of the key.
    pub closed spec fn key(&self) -> Seq<u8> {
        self.key@
    }

    /// The bytes of the initialisation vector.
    pub closed spec fn iv(&self) -> Seq<u8> {
        self.iv@
    }

    /// Every key has the lengths that the cipher asks for.
    #[verifier::type_invariant]
    spec fn well_formed(self) -> bool {
        self.key@.len() == AES_KEY_LEN && self.iv@.len() == AES_IV_LEN
    }

    /// The key made of what the second step of the key derivation gave.
    pub fn from_key_material(pair: Option<(Vec<u8>, Option<Vec<u8>>)>) -> (r: Result<
        CryptoKey,
        CryptoError,
    >)
        ensures
            match usable_key_material(pair.deep_view()) {
                Some((key, iv)) => r matches Ok(k) && k.key() == key && k.iv() == iv,
                None => r matches Err(CryptoError::Unexpected),
            },
    {
        match pair {
            Some((key, Some(iv))) => {
                if key.len() == AES_KEY_LEN && iv.len() == AES_IV_LEN {
                    Ok(CryptoKey { key, iv })
                } else {
                    Err(CryptoError::Unexpected)
                }
            },
            _ => Err(CryptoError::Unexpected),
        }
    }

    /// Derives the key for the passphrase `secret` and the salt `salt`.
    ///
    /// The salt has to be 8 bytes long, and the passphrase must not be
    /// longer than the backend takes: anything else is malformed data. A
    /// failure of the first step is a library error, one of the second is
    /// unexpected. The key that comes out is the one that the two steps
    /// derive.
    pub fn new(secret: &str, salt: &[u8]) -> (r: Result<CryptoKey, CryptoError>)
        ensures
            match r {
                Ok(k) => spec_derived_key(encode_utf8(secret@), salt@) == Some((k.key(), k.iv())),
                Err(e) => {
                    &&& spec_derived_key(encode_utf8(secret@), salt@) is None
                    &&& if salt@.len() != SALT_LEN || encode_utf8(secret@).len() > 0x7fff_ffff {
                        e is MalformedData
                    } else if pbkdf2_hmac_sha1_key(
                        encode_utf8(secret@),
                        salt@,
                        KEY_ITER,
                        KEY_LEN,
                    ) is None {
                        e is LibraryError
                    } else {
                        e is Unexpected
                    }
                },
            },
    {
        let pass = secret.as_bytes();
        if salt.len() != SALT_LEN || pass.len() > 0x7fff_ffff {
            return Err(CryptoError::MalformedData);
        }
        let key_bytes = match pbkdf2_hmac_sha1(pass, salt, KEY_ITER, KEY_LEN) {
            Ok(bytes) => bytes,
            Err(e) => {
                return Err(CryptoError::LibraryError(e));
            },
        };
        CryptoKey::from_key_material(bytes_to_key_aes_256_cbc(key_bytes.as_slice(), salt, 1000))
    }

    /// What the backend's answer to a decryption means: the plaintext, or,
    /// for any failure, a bad key.
    pub fn decrypted(outcome: Result<Vec<u8>, ErrorStack>) -> (r: Result<Vec<u8>, CryptoError>)
        ensures
            match outcome {
                Ok(plain) => r matches Ok(p) && p@ == plain@,
                Err(_) => r matches Err(CryptoError::BadKey),
            },
    {
        match outcome {
            Ok(plain) => Ok(plain),
            Err(_) => Err(CryptoError::BadKey),
        }
    }

    /// Decrypts `buf`. A buffer that the cipher cannot decrypt under this
    /// key, or that is longer than the backend takes, gives a bad key.
    pub fn decrypt(&self, buf: &[u8]) -> (r: Result<Vec<u8>, CryptoError>)
        ensures
            match spec_decrypt(self.key(), self.iv(), buf@) {
                Some(plain) => r matches Ok(x) && x@ == plain,
                None => r matches Err(CryptoError::BadKey),
            },
    {
        if buf.len() > MAX_INPUT_LEN {
            return Err(CryptoError::BadKey);
        }
        proof {
            use_type_invariant(self);
        }
        CryptoKey::decrypted(aes_256_cbc_decrypt(self.key.as_slice(), self.iv.as_slice(), buf))
    }

    /// What the backend's answer to an encryption means: the ciphertext, or,
    /// for any failure, a plain failure.
    pub fn encrypted(outcome: Result<Vec<u8>, ErrorStack>) -> (r: Result<Vec<u8>, ()>)
        ensures
            match outcome {
                Ok(cipher) => r matches Ok(c) && c@ == cipher@,
                Err(_) => r is Err,
            },
    {
        match outcome {
            Ok(cipher) => Ok(cipher),
            Err(_) => Err(()),
        }
    }

    /// Encrypts `buf`. A buffer that is longer than the backend takes, or
    /// that the backend refuses, is a failure.
    pub fn encrypt(&self, buf: &[u8]) -> (r: Result<Vec<u8>, ()>)
        ensures
            match spec_encrypt(self.key(), self.iv(), buf@) {
                Some(cipher) => r matches Ok(x) && x@ == cipher,
                None => r is Err,
            },
    {
        if buf.len() > MAX_INPUT_LEN {
            return Err(());
        }
        proof {
            use_type_invariant(self);
        }
        CryptoKey::encrypted(aes_256_cbc_encrypt(self.key.as_slice(), self.iv.as_slice(), buf))
    }
}

impl Clone for CryptoKey {
    fn clone(&self) -> (r: CryptoKey)
        ensures
            r.key() == self.key(),
            r.iv() == self.iv(),
    {
        proof {
            use_type_invariant(self);
        }
        CryptoKey { key: self.key.clone(), iv: self.iv.clone() }
    }
}

/// What is inside the envelope `blob`: the bytes behind the marker. A blob
/// without the marker is malformed data.
pub fn open_envelope(blob: &[u8]) -> (r: Result<&[u8], CryptoError>)
    ensures
        if has_envelope(blob@) {
            r matches Ok(inner) && inner@ == blob@.skip(9)
        } else {
            r matches Err(CryptoError::MalformedData)
        },
{
    if blob.len() < 9 {
        return Err(CryptoError::MalformedData);
    }
    let (head, inner) = blob.split_at(9);
    let mut k: usize = 0;
    while k < 9
        invariant
            k <= 9,
            head@ == blob@.take(9),
            head@.len() == 9,
            forall|j: int| 0 <= j < k ==> head@[j] == V1_HEADER@[j],
        decreases 9 - k,
    {
        if head[k] != V1_HEADER[k] {
            return Err(CryptoError::MalformedData);
        }
        k += 1;
    }
    assert(head@ =~= V1_HEADER@);
    Ok(inner)
}

/// Decrypts objects with one key, with nothing around the ciphertext.
#[derive(Clone, Debug)]
pub struct ObjectDecrypterV1 {
    key: CryptoKey,
}

impl ObjectDecrypterV1 {
    /// The key that objects are decrypted with.
    pub closed spec fn key(&self) -> CryptoKey {
        self.key
    }

    /// A decrypter with the key `key`.
    pub fn new(key: CryptoKey) -> (r: ObjectDecrypterV1)
        ensures
            r.key() == key,
    {
        ObjectDecrypterV1 { key }
    }

    /// Decrypts an object that has to come in the envelope: a blob without
    /// the marker is malformed data, and one that the cipher cannot decrypt
    /// under this key gives a bad key.
    pub fn decrypt_enveloped(&self, blob: &[u8]) -> (r: Result<Vec<u8>, CryptoError>)
        ensures
            if has_envelope(blob@) {
                match spec_decrypt(self.key().key(), self.key().iv(), blob@.skip(9)) {
                    Some(plain) => r matches Ok(x) && x@ == plain,
                    None => r matches Err(CryptoError::BadKey),
                }
            } else {
                r matches Err(CryptoError::MalformedData)
            },
    {
        let inner = open_envelope(blob)?;
        self.key.decrypt(inner)
    }
}

impl ObjectDecrypter for ObjectDecrypterV1 {
    /// Decrypts the content of an object as it lies in a pack file, with
    /// nothing around the ciphertext.
    fn decrypt_object(&self, object_bytes: &[u8]) -> (r: Result<Vec<u8>, CryptoError>)
        ensures
            match spec_decrypt(self.key().key(), self.key().iv(), object_bytes@) {
                Some(plain) => r matches Ok(x) && x@ == plain,
                None => r matches Err(CryptoError::BadKey),
            },
    {
        self.key.decrypt(object_bytes)
    }
}

impl Decrypter for ObjectDecrypterV1 {
    /// Decrypts `buf` with the key of the decrypter.
    fn decrypt(&self, buf: &[u8]) -> (r: Result<Vec<u8>, ()>)
        ensures
            match spec_decrypt(self.key().key(), self.key().iv(), buf@) {
                Some(plain) => r matches Ok(x) && x@ == plain,
                None => r is Err,
            },
    {
        match self.key.decrypt(buf) {
            Ok(plain) => Ok(plain),
            Err(_) => Err(()),
        }
    }
}

impl Encrypter for CryptoKey {
    /// Encrypts `buf` with the key.
    fn encrypt(&self, buf: &[u8]) -> (r: Result<Vec<u8>, ()>)
        ensures
            match spec_encrypt(self.key(), self.iv(), buf@) {
                Some(cipher) => r matches Ok(x) && x@ == cipher,
                None => r is Err,
            },
    {
        CryptoKey::encrypt(self, buf)
    }
}

} // verus!
