use aes_gcm::aead::{Aead, KeyInit};
use aes_gcm::{Aes256Gcm, Key, Nonce};
use sha2::{Digest, Sha256};
use vstd::bytes::{spec_u64_to_le_bytes, u64_to_le_bytes};
use vstd::prelude::*;
use vstd::slice::{slice_subrange, slice_to_vec};
use vstd::string::StringSliceAdditionalSpecFns;
use crate::random::random_bytes;

verus! {

/// Length of an AES-256 key, in bytes.
pub const KEY_LEN: usize = 32;

/// Length of an AES-GCM nonce, in bytes.
pub const NONCE_LEN: usize = 12;

/// Length of an AES-GCM tag, in bytes.
pub const TAG_LEN: usize = 16;

/// Length of a SHA-256 digest, in bytes.
pub const DIGEST_LEN: usize = 32;

/// How many digest bytes an id or username hash keeps.
pub const HASH_PREFIX_LEN: usize = 16;

/// The longest plaintext AES-GCM encrypts (2^36 bytes).
pub const P_MAX: u64 = 68719476736;

/// Salt appended to an id before hashing.
pub const ID_SALT: &'static str = "OVERKILL_SALT_2025";

/// Salt appended to a username before hashing.
pub const USERNAME_SALT: &'static str = "OVERKILL_USERNAME_SALT";

/// The error type of `aes_gcm`, carried through as it is.
#[verifier::external_type_specification]
#[verifier::external_body]
pub struct ExAeadError(aes_gcm::Error);

/// The ciphertext (with its tag) that AES-256-GCM makes of `plaintext`
/// under `key` and `nonce`, with no associated data.
pub uninterp spec fn aes256_gcm_seal(key: Seq<u8>, nonce: Seq<u8>, plaintext: Seq<u8>) -> Seq<u8>;

/// The plaintext that AES-256-GCM recovers from `ciphertext` under `key`
/// and `nonce`, with no associated data; none when the tag does not check.
pub uninterp spec fn aes256_gcm_open(key: Seq<u8>, nonce: Seq<u8>, ciphertext: Seq<u8>) -> Option<
    Seq<u8>,
>;

/// The SHA-256 digest of `data`.
pub uninterp spec fn sha256_digest(data: Seq<u8>) -> Seq<u8>;

/// Calls `aes_gcm::aead::Aead::encrypt` on `Aes256Gcm::new(key)` with the
/// given nonce and no associated data. Claimed, from the crate's source:
/// it fails exactly when the plaintext is longer than 2^36 bytes; otherwise
/// the result is the sealed ciphertext, 16 bytes longer than the plaintext.
/// `Key::from_slice` and `Nonce::from_slice` panic on other lengths, which
/// `requires` rules out.
#[verifier::external_body]
fn aes256_gcm_encrypt(key: &[u8], nonce: &[u8], plaintext: &[u8]) -> (r: Result<Vec<u8>, aes_gcm::Error>)
    requires
        key@.len() == KEY_LEN,
        nonce@.len() == NONCE_LEN,
    ensures
        r is Ok <==> plaintext@.len() <= P_MAX,
        r matches Ok(c) ==> c@ == aes256_gcm_seal(key@, nonce@, plaintext@) && c@.len()
            == plaintext@.len() + TAG_LEN,
{
    let cipher = Aes256Gcm::new(Key::<Aes256Gcm>::from_slice(key));
    cipher.encrypt(Nonce::from_slice(nonce), plaintext)
}

/// Calls `aes_gcm::aead::Aead::decrypt` on `Aes256Gcm::new(key)` with the
/// given nonce and no associated data. Claimed: the result is the opened
/// plaintext, or an error where none opens; a ciphertext shorter than the
/// tag never opens (source); and, as the crate's documentation shows, a
/// ciphertext sealed under the same key and nonce opens to its plaintext.
#[verifier::external_body]
fn aes256_gcm_decrypt(key: &[u8], nonce: &[u8], ciphertext: &[u8]) -> (r: Result<Vec<u8>, aes_gcm::Error>)
    requires
        key@.len() == KEY_LEN,
        nonce@.len() == NONCE_LEN,
    ensures
        r matches Ok(p) ==> aes256_gcm_open(key@, nonce@, ciphertext@) == Some(p@),
        r is Err ==> aes256_gcm_open(key@, nonce@, ciphertext@) is None,
        ciphertext@.len() < TAG_LEN ==> r is Err,
        (exists|p: Seq<u8>|
            p.len() <= P_MAX && ciphertext@ == #[trigger] aes256_gcm_seal(key@, nonce@, p)) ==> r is Ok,
        r matches Ok(q) ==> forall|p: Seq<u8>|
            p.len() <= P_MAX && ciphertext@ == #[trigger] aes256_gcm_seal(key@, nonce@, p) ==> q@
                == p,
{
    let cipher = Aes256Gcm::new(Key::<Aes256Gcm>::from_slice(key));
    cipher.decrypt(Nonce::from_slice(nonce), ciphertext)
}

/// Calls `sha2::Sha256::digest`. Claimed: the result is the SHA-256 digest
/// of `data`, 32 bytes long.
#[verifier::external_body]
fn sha256(data: &[u8]) -> (d: Vec<u8>)
    ensures
        d@ == sha256_digest(data@),
        d@.len() == DIGEST_LEN,
{
    Sha256::digest(data).to_vec()
}

/// The lower-case hexadecimal digit of `n` (0 to 15).
pub open spec fn hex_digit(n: int) -> char {
    if n < 10 {
        ('0' as int + n) as char
    } else {
        ('a' as int + n - 10) as char
    }
}

/// `data` in lower-case hexadecimal, two digits per byte, high half first.
pub open spec fn hex_lower(data: Seq<u8>) -> Seq<char> {
    Seq::new(
        2 * data.len(),
        |i: int|
            if i % 2 == 0 {
                hex_digit(data[i / 2] as int / 16)
            } else {
                hex_digit(data[i / 2] as int % 16)
            },
    )
}

/// Calls `hex::encode`. Claimed, from the crate's source: lower-case
/// hexadecimal, two digits per byte, high half first.
#[verifier::external_body]
fn hex_encode(data: &[u8]) -> (s: String)
    ensures
        s@ == hex_lower(data@),
{
    hex::encode(data)
}

/// Why a payload could not be decrypted or encrypted.
#[derive(Debug, Clone, Copy, PartialEq, Eq, Structural)]
pub enum CryptoError {
    /// Shorter than a nonce.
    InvalidData,
    /// AES-GCM refused: the tag did not check, or the plaintext is too long.
    Aead,
}

/// The message of an error, as the error's text reads: "Invalid data" for
/// a payload shorter than a nonce, and `aes_gcm`'s own text for a refusal.
pub open spec fn spec_error_message(e: CryptoError) -> Seq<char> {
    match e {
        CryptoError::InvalidData => "Invalid data"@,
        CryptoError::Aead => "aead::Error"@,
    }
}

impl CryptoError {
    /// The message of the error.
    pub fn message(&self) -> (s: &'static str)
        ensures
            s@ == spec_error_message(*self),
    {
        match self {
            CryptoError::InvalidData => "Invalid data",
            CryptoError::Aead => "aead::Error",
        }
    }
}

/// A payload as `decrypt` reads it: the nonce, then the ciphertext.
pub open spec fn spec_decrypt(key: Seq<u8>, data: Seq<u8>) -> Result<Seq<u8>, CryptoError> {
    if data.len() < NONCE_LEN {
        Err(CryptoError::InvalidData)
    } else {
        match aes256_gcm_open(key, data.take(NONCE_LEN as int), data.skip(NONCE_LEN as int)) {
            Some(p) => Ok(p),
            None => Err(CryptoError::Aead),
        }
    }
}

/// Encrypts and decrypts payloads with AES-256-GCM under one key.
pub struct SecureCrypto {
    key: Vec<u8>,
}

impl SecureCrypto {
    /// The key.
    pub closed spec fn key(&self) -> Seq<u8> {
        self.key@
    }

    /// The key is 32 bytes long.
    pub open spec fn wf(&self) -> bool {
        self.key().len() == KEY_LEN
    }

    /// The key to use, given what the key file held: its contents when they
    /// are exactly 32 bytes, else 32 fresh random bytes. The flag is true
    /// when the key is fresh and must be written to the key file.
    pub fn load_or_create_key(stored: Option<Vec<u8>>) -> (r: (Vec<u8>, bool))
        ensures
            r.0@.len() == KEY_LEN,
            match stored {
                Some(d) => d@.len() == KEY_LEN ==> r.0@ == d@ && !r.1,
                None => true,
            },
            r.1 == !(stored matches Some(d) && d@.len() == KEY_LEN),
    {
        if let Some(data) = stored {
            if data.len() == KEY_LEN {
                return (data, false);
            }
        }
        (random_bytes(KEY_LEN), true)
    }

    /// Encryption under `key`.
    pub fn new(key: Vec<u8>) -> (c: Self)
        requires
            key@.len() == KEY_LEN,
        ensures
            c.wf(),
            c.key() == key@,
    {
        SecureCrypto { key }
    }

    /// A fresh random nonce followed by the AES-256-GCM ciphertext of
    /// `data` under that nonce.
    pub fn encrypt(&self, data: &[u8]) -> (r: Result<Vec<u8>, CryptoError>)
        requires
            self.wf(),
        ensures
            r is Ok <==> data@.len() <= P_MAX,
            r matches Ok(out) ==> {
                &&& out@.len() == NONCE_LEN + data@.len() + TAG_LEN
                &&& out@.skip(NONCE_LEN as int) == aes256_gcm_seal(
                    self.key(),
                    out@.take(NONCE_LEN as int),
                    data@,
                )
            },
            r matches Err(e) ==> e == CryptoError::Aead,
    {
        let nonce = random_bytes(NONCE_LEN);
        match aes256_gcm_encrypt(self.key.as_slice(), nonce.as_slice(), data) {
            Ok(ct) => {
                let mut out = nonce;
                let ghost n = out@;
                let mut i: usize = 0;
                while i < ct.len()
                    invariant
                        i <= ct@.len(),
                        out@ == n + ct@.take(i as int),
                    decreases ct.len() - i,
                {
                    out.push(ct[i]);
                    i = i + 1;
                    assert(out@ =~= n + ct@.take(i as int));
                }
                assert(ct@.take(ct@.len() as int) =~= ct@);
                assert(out@.take(NONCE_LEN as int) =~= n);
                assert(out@.skip(NONCE_LEN as int) =~= ct@);
                Ok(out)
            },
            Err(_) => Err(CryptoError::Aead),
        }
    }

    /// The plaintext of a payload made by `encrypt`: the first 12 bytes are
    /// the nonce, the rest the ciphertext.
    pub fn decrypt(&self, data: &[u8]) -> (r: Result<Vec<u8>, CryptoError>)
        requires
            self.wf(),
        ensures
            match r {
                Ok(p) => spec_decrypt(self.key(), data@) == Ok::<Seq<u8>, CryptoError>(p@),
                Err(e) => spec_decrypt(self.key(), data@) == Err::<Seq<u8>, CryptoError>(e),
            },
            forall|nonce: Seq<u8>, p: Seq<u8>|
                nonce.len() == NONCE_LEN && p.len() <= P_MAX && data@ == nonce
                    + #[trigger] aes256_gcm_seal(self.key(), nonce, p) ==> (r matches Ok(q)
                    && q@ == p),
    {
        if data.len() < NONCE_LEN {
            return Err(CryptoError::InvalidData);
        }
        let nonce = slice_subrange(data, 0, NONCE_LEN);
        let ciphertext = slice_subrange(data, NONCE_LEN, data.len());
        assert(nonce@ =~= data@.take(NONCE_LEN as int));
        assert(ciphertext@ =~= data@.skip(NONCE_LEN as int));
        let r = aes256_gcm_decrypt(self.key.as_slice(), nonce, ciphertext);
        proof {
            assert forall|n: Seq<u8>, p: Seq<u8>|
                n.len() == NONCE_LEN && p.len() <= P_MAX && data@ == n + #[trigger] aes256_gcm_seal(
                    self.key(),
                    n,
                    p,
                ) implies (r matches Ok(q) && q@ == p) by {
                assert(data@.take(NONCE_LEN as int) =~= n);
                assert(data@.skip(NONCE_LEN as int) =~= aes256_gcm_seal(self.key(), n, p));
            }
        }
        match r {
            Ok(p) => Ok(p),
            Err(_) => Err(CryptoError::Aead),
        }
    }
}

/// The hash of a user id: the SHA-256 digest of the id's eight
/// little-endian bytes followed by the salt, first 16 bytes, in
/// lower-case hexadecimal.
pub open spec fn spec_hash_id(id: i64) -> Seq<char> {
    hex_lower(
        sha256_digest(spec_u64_to_le_bytes(id as u64) + ID_SALT.spec_bytes()).take(
            HASH_PREFIX_LEN as int,
        ),
    )
}

/// The hash of a username: the SHA-256 digest of its UTF-8 bytes followed
/// by the salt, first 16 bytes, in lower-case hexadecimal.
pub open spec fn spec_hash_username(username: Seq<u8>) -> Seq<char> {
    hex_lower(
        sha256_digest(username + USERNAME_SALT.spec_bytes()).take(HASH_PREFIX_LEN as int),
    )
}

/// The first 16 digest bytes of `data`, in hexadecimal.
fn salted_digest_hex(data: &[u8], salt: &str) -> (s: String)
    ensures
        s@ == hex_lower(sha256_digest(data@ + salt.spec_bytes()).take(HASH_PREFIX_LEN as int)),
        s@.len() == 2 * HASH_PREFIX_LEN,
{
    let mut input = slice_to_vec(data);
    let salt_bytes = salt.as_bytes();
    let ghost d = input@;
    let mut i: usize = 0;
    while i < salt_bytes.len()
        invariant
            i <= salt_bytes@.len(),
            input@ == d + salt_bytes@.take(i as int),
        decreases salt_bytes.len() - i,
    {
        input.push(salt_bytes[i]);
        i = i + 1;
        assert(input@ =~= d + salt_bytes@.take(i as int));
    }
    assert(salt_bytes@.take(salt_bytes@.len() as int) =~= salt_bytes@);
    let digest = sha256(input.as_slice());
    let prefix = slice_subrange(digest.as_slice(), 0, HASH_PREFIX_LEN);
    assert(prefix@ =~= digest@.take(HASH_PREFIX_LEN as int));
    hex_encode(prefix)
}

/// The salted hash of a user id, as 32 lower-case hexadecimal digits.
pub fn hash_id(id: i64) -> (s: String)
    ensures
        s@ == spec_hash_id(id),
        s@.len() == 2 * HASH_PREFIX_LEN,
{
    let bytes = u64_to_le_bytes(#[verifier::truncate] (id as u64));
    salted_digest_hex(bytes.as_slice(), ID_SALT)
}

/// The salted hash of a username, as 32 lower-case hexadecimal digits.
pub fn hash_username(username: &str) -> (s: String)
    ensures
        s@ == spec_hash_username(username.spec_bytes()),
        s@.len() == 2 * HASH_PREFIX_LEN,
{
    salted_digest_hex(username.as_bytes(), USERNAME_SALT)
}

} // verus!
