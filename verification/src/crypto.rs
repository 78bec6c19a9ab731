//! The confidentiality layer: password-based key derivation, authenticated
//! encryption of a text message, and the packed transport form of the
//! result.

use crate::chunk::push_all;
use crate::error::PngmeError;
use crate::text::string_from_utf8;
use aes_gcm::aead::Generate;
use vstd::prelude::*;
use vstd::string::StringSliceAdditionalSpecFns;
use vstd::utf8::{decode_utf8, encode_utf8, valid_utf8};

verus! {

/// The byte length of the random salt in every packed blob.
pub const SALT_LENGTH: usize = 32;

/// The byte length of the random nonce in every packed blob.
pub const NONCE_LENGTH: usize = 12;

/// The 32-byte key that Argon2id with default parameters derives from a
/// password and a salt.
pub uninterp spec fn argon2_key_of(password: Seq<u8>, salt: Seq<u8>) -> Seq<u8>;

/// The ciphertext (with its appended authentication tag) that AES-256-GCM
/// produces for a key, nonce and plaintext, with no associated data.
pub uninterp spec fn aes_gcm_seal(key: Seq<u8>, nonce: Seq<u8>, plaintext: Seq<u8>) -> Seq<u8>;

/// What AES-256-GCM decryption returns for a key, nonce and ciphertext:
/// the plaintext when the authentication tag verifies, nothing otherwise.
pub uninterp spec fn aes_gcm_open(key: Seq<u8>, nonce: Seq<u8>, ciphertext: Seq<u8>) -> Option<
    Seq<u8>,
>;

/// The standard base64 text (padded, no line wrapping) of a byte sequence.
pub uninterp spec fn base64_of(bytes: Seq<u8>) -> Seq<char>;

/// What standard base64 decoding returns for a text: the encoded bytes for
/// a well-formed encoding, nothing otherwise.
pub uninterp spec fn base64_decode_of(text: Seq<char>) -> Option<Seq<u8>>;

/// Relies on aes_gcm's `Key::try_generate`, backed by the operating
/// system's secure random source: 32 fresh random bytes, or a generator
/// failure.
#[verifier::external_body]
fn random_salt() -> (r: Option<Vec<u8>>)
    ensures
        r matches Some(v) ==> v@.len() == 32,
{
    match aes_gcm::Key::<aes_gcm::Aes256Gcm>::try_generate() {
        Ok(k) => Some(k.as_slice().to_vec()),
        Err(_) => None,
    }
}

/// Relies on aes_gcm's `Nonce::try_generate`, backed by the operating
/// system's secure random source: 12 fresh random bytes, or a generator
/// failure.
#[verifier::external_body]
fn random_nonce() -> (r: Option<Vec<u8>>)
    ensures
        r matches Some(v) ==> v@.len() == 12,
{
    match aes_gcm::Nonce::<aes_gcm::aead::consts::U12>::try_generate() {
        Ok(n) => Some(n.as_slice().to_vec()),
        Err(_) => None,
    }
}

/// Relies on argon2's `hash_password_into` with Argon2id and default cost
/// parameters: deterministic in password and salt, filling a 32-byte key.
/// With the password and salt lengths in range it can fail only for want
/// of memory.
#[verifier::external_body]
fn derive_key(password: &[u8], salt: &Vec<u8>) -> (r: Option<Vec<u8>>)
    requires
        password@.len() <= 0xFFFFFFFF,
        8 <= salt@.len() <= 0xFFFFFFFF,
    ensures
        r matches Some(k) ==> k@ == argon2_key_of(password@, salt@) && k@.len() == 32,
{
    let mut key = [0u8; 32];
    match argon2::Argon2::default().hash_password_into(password, salt.as_slice(), &mut key) {
        Ok(()) => Some(key.to_vec()),
        Err(_) => None,
    }
}

/// Relies on aes_gcm's `Aes256Gcm` encryption (AES-256-GCM, no associated
/// data): the result depends on key, nonce and plaintext alone, and
/// decrypting it with the same key and nonce returns the plaintext.
#[verifier::external_body]
fn aead_encrypt(key: &Vec<u8>, nonce: &Vec<u8>, plaintext: &[u8]) -> (r: Option<Vec<u8>>)
    requires
        key@.len() == 32,
        nonce@.len() == 12,
    ensures
        r matches Some(ct) ==> ct@ == aes_gcm_seal(key@, nonce@, plaintext@) && aes_gcm_open(
            key@,
            nonce@,
            ct@,
        ) == Some(plaintext@),
{
    let key_arr = aes_gcm::Key::<aes_gcm::Aes256Gcm>::try_from(key.as_slice()).ok()?;
    let nonce_arr = aes_gcm::Nonce::<aes_gcm::aead::consts::U12>::try_from(nonce.as_slice()).ok()?;
    let cipher = <aes_gcm::Aes256Gcm as aes_gcm::KeyInit>::new(&key_arr);
    aes_gcm::aead::Aead::encrypt(&cipher, &nonce_arr, plaintext).ok()
}

/// Relies on aes_gcm's `Aes256Gcm` decryption: succeeds with the sealed
/// plaintext exactly when the authentication tag verifies for this key,
/// nonce and ciphertext.
#[verifier::external_body]
fn aead_decrypt(key: &Vec<u8>, nonce: &Vec<u8>, ciphertext: &[u8]) -> (r: Option<Vec<u8>>)
    requires
        key@.len() == 32,
        nonce@.len() == 12,
    ensures
        match r {
            Some(pt) => aes_gcm_open(key@, nonce@, ciphertext@) == Some(pt@),
            None => aes_gcm_open(key@, nonce@, ciphertext@) is None,
        },
{
    let key_arr = aes_gcm::Key::<aes_gcm::Aes256Gcm>::try_from(key.as_slice()).expect("32 bytes");
    let nonce_arr = aes_gcm::Nonce::<aes_gcm::aead::consts::U12>::try_from(nonce.as_slice()).expect(
        "12 bytes",
    );
    let cipher = <aes_gcm::Aes256Gcm as aes_gcm::KeyInit>::new(&key_arr);
    aes_gcm::aead::Aead::decrypt(&cipher, &nonce_arr, ciphertext).ok()
}

/// Relies on base64's `STANDARD` engine encode (standard alphabet, padded,
/// no line wrapping): the text depends on the bytes alone, and decoding
/// with the same engine inverts it.
#[verifier::external_body]
fn base64_encode(bytes: &Vec<u8>) -> (r: String)
    ensures
        r@ == base64_of(bytes@),
        base64_decode_of(r@) == Some(bytes@),
{
    base64::Engine::encode(&base64::engine::general_purpose::STANDARD, bytes.as_slice())
}

/// Relies on base64's `STANDARD` engine decode: succeeds exactly on
/// well-formed standard base64 and returns the encoded bytes.
#[verifier::external_body]
fn base64_decode(text: &str) -> (r: Option<Vec<u8>>)
    ensures
        match r {
            Some(v) => base64_decode_of(text@) == Some(v@),
            None => base64_decode_of(text@) is None,
        },
{
    match base64::Engine::decode(&base64::engine::general_purpose::STANDARD, text.as_bytes()) {
        Ok(v) => Some(v),
        Err(_) => None,
    }
}

/// The packed bundle of one encryption: random salt, random nonce, and the
/// AEAD ciphertext with its authentication tag.
pub struct EncryptedData {
    salt: Vec<u8>,
    nonce: Vec<u8>,
    ciphertext: Vec<u8>,
}

impl EncryptedData {
    /// The salt bytes.
    pub closed spec fn spec_salt(self) -> Seq<u8> {
        self.salt@
    }

    /// The nonce bytes.
    pub closed spec fn spec_nonce(self) -> Seq<u8> {
        self.nonce@
    }

    /// The ciphertext bytes, authentication tag included.
    pub closed spec fn spec_ciphertext(self) -> Seq<u8> {
        self.ciphertext@
    }

    /// A transportable blob carries a 32-byte salt and a 12-byte nonce.
    pub open spec fn wf(self) -> bool {
        self.spec_salt().len() == 32 && self.spec_nonce().len() == 12
    }

    /// The packed byte form: salt ‖ nonce ‖ ciphertext.
    pub open spec fn spec_packed(self) -> Seq<u8> {
        self.spec_salt() + self.spec_nonce() + self.spec_ciphertext()
    }

    /// Bundles the three parts as they are.
    pub fn new(salt: Vec<u8>, nonce: Vec<u8>, ciphertext: Vec<u8>) -> (r: EncryptedData)
        ensures
            r.spec_salt() == salt@,
            r.spec_nonce() == nonce@,
            r.spec_ciphertext() == ciphertext@,
    {
        EncryptedData { salt, nonce, ciphertext }
    }

    /// The salt bytes.
    pub fn salt(&self) -> (r: &[u8])
        ensures
            r@ == self.spec_salt(),
    {
        self.salt.as_slice()
    }

    /// The nonce bytes.
    pub fn nonce(&self) -> (r: &[u8])
        ensures
            r@ == self.spec_nonce(),
    {
        self.nonce.as_slice()
    }

    /// The ciphertext bytes, authentication tag included.
    pub fn ciphertext(&self) -> (r: &[u8])
        ensures
            r@ == self.spec_ciphertext(),
    {
        self.ciphertext.as_slice()
    }

    /// The reversible transport encoding: standard base64 of
    /// salt ‖ nonce ‖ ciphertext.
    pub fn to_base64(&self) -> (r: String)
        ensures
            r@ == base64_of(self.spec_packed()),
            base64_decode_of(r@) == Some(self.spec_packed()),
    {
        let mut combined: Vec<u8> = Vec::new();
        push_all(&mut combined, self.salt.as_slice());
        push_all(&mut combined, self.nonce.as_slice());
        push_all(&mut combined, self.ciphertext.as_slice());
        proof {
            assert(combined@ =~= self.spec_packed());
        }
        base64_encode(&combined)
    }

    /// Decodes a transport text: the base64 must be well-formed and hold
    /// at least 44 bytes (32 salt + 12 nonce); the split is
    /// salt(32) / nonce(12) / ciphertext(rest).
    pub fn from_base64(encoded: &str) -> (r: Result<EncryptedData, PngmeError>)
        ensures
            match base64_decode_of(encoded@) {
                Some(d) => {
                    if d.len() >= 44 {
                        match r {
                            Ok(b) => {
                                &&& b.spec_salt() == d.subrange(0, 32)
                                &&& b.spec_nonce() == d.subrange(32, 44)
                                &&& b.spec_ciphertext() == d.subrange(44, d.len() as int)
                                &&& b.wf()
                            },
                            Err(_) => false,
                        }
                    } else {
                        r == Err::<EncryptedData, _>(PngmeError::Format)
                    }
                },
                None => r == Err::<EncryptedData, _>(PngmeError::Format),
            },
    {
        let decoded = match base64_decode(encoded) {
            Some(v) => v,
            None => {
                return Err(PngmeError::Format);
            },
        };
        if decoded.len() < 44 {
            return Err(PngmeError::Format);
        }
        let d = decoded.as_slice();
        let salt = vstd::slice::slice_to_vec(vstd::slice::slice_subrange(d, 0, 32));
        let nonce = vstd::slice::slice_to_vec(vstd::slice::slice_subrange(d, 32, 44));
        let ciphertext = vstd::slice::slice_to_vec(
            vstd::slice::slice_subrange(d, 44, decoded.len()),
        );
        Ok(EncryptedData { salt, nonce, ciphertext })
    }
}

/// The two operations of the confidentiality layer.
pub struct Crypto;

impl Crypto {
    /// Encrypts `plaintext` under a key derived from `password` and a
    /// fresh random salt, with a fresh random nonce. Every returned blob
    /// is well-formed, its ciphertext is the AEAD seal of the message
    /// bytes under the derived key, and opening it with the same key and
    /// nonce gives the message bytes back. Failure means the random
    /// source or the key derivation gave out, or the AEAD refused the
    /// input; it does not depend on the message or password values.
    pub fn encrypt(plaintext: &str, password: &str) -> (r: Result<EncryptedData, PngmeError>)
        ensures
            match r {
                Ok(b) => {
                    &&& b.wf()
                    &&& b.spec_ciphertext() == aes_gcm_seal(
                        argon2_key_of(password.spec_bytes(), b.spec_salt()),
                        b.spec_nonce(),
                        plaintext.spec_bytes(),
                    )
                    &&& aes_gcm_open(
                        argon2_key_of(password.spec_bytes(), b.spec_salt()),
                        b.spec_nonce(),
                        b.spec_ciphertext(),
                    ) == Some(plaintext.spec_bytes())
                },
                Err(e) => e == PngmeError::Crypto,
            },
    {
        let salt = match random_salt() {
            Some(s) => s,
            None => {
                return Err(PngmeError::Crypto);
            },
        };
        let nonce = match random_nonce() {
            Some(n) => n,
            None => {
                return Err(PngmeError::Crypto);
            },
        };
        let password_bytes = password.as_bytes();
        if password_bytes.len() > 0xFFFFFFFF {
            return Err(PngmeError::Crypto);
        }
        let key = match derive_key(password_bytes, &salt) {
            Some(k) => k,
            None => {
                return Err(PngmeError::Crypto);
            },
        };
        let ciphertext = match aead_encrypt(&key, &nonce, plaintext.as_bytes()) {
            Some(c) => c,
            None => {
                return Err(PngmeError::Crypto);
            },
        };
        Ok(EncryptedData::new(salt, nonce, ciphertext))
    }

    /// Decrypts a blob with the key derived from `password` and the
    /// blob's salt. Success returns exactly the text whose UTF-8 bytes
    /// the AEAD opened; failure is always a `Crypto` error: the tag did
    /// not verify (wrong password or tampered data), the opened bytes
    /// were not UTF-8, or the key derivation gave out.
    pub fn decrypt(encrypted_data: &EncryptedData, password: &str) -> (r: Result<
        String,
        PngmeError,
    >)
        requires
            encrypted_data.wf(),
        ensures
            match r {
                Ok(s) => match aes_gcm_open(
                    argon2_key_of(password.spec_bytes(), encrypted_data.spec_salt()),
                    encrypted_data.spec_nonce(),
                    encrypted_data.spec_ciphertext(),
                ) {
                    Some(pt) => valid_utf8(pt) && s@ == decode_utf8(pt),
                    None => false,
                },
                Err(e) => e == PngmeError::Crypto,
            },
    {
        let password_bytes = password.as_bytes();
        if password_bytes.len() > 0xFFFFFFFF {
            return Err(PngmeError::Crypto);
        }
        let key = match derive_key(password_bytes, &encrypted_data.salt) {
            Some(k) => k,
            None => {
                return Err(PngmeError::Crypto);
            },
        };
        Self::decrypt_with_key(&key, encrypted_data)
    }

    /// Decrypts a blob with an already-derived key; the outcome is exact
    /// for every value of the AEAD result: the opened bytes decoded as
    /// text when they are UTF-8, a `Crypto` error when they are not or
    /// when the tag does not verify.
    pub fn decrypt_with_key(key: &Vec<u8>, encrypted_data: &EncryptedData) -> (r: Result<
        String,
        PngmeError,
    >)
        requires
            key@.len() == 32,
            encrypted_data.wf(),
        ensures
            match aes_gcm_open(
                key@,
                encrypted_data.spec_nonce(),
                encrypted_data.spec_ciphertext(),
            ) {
                Some(pt) => match r {
                    Ok(s) => valid_utf8(pt) && s@ == decode_utf8(pt),
                    Err(e) => e == PngmeError::Crypto && !valid_utf8(pt),
                },
                None => r == Err::<String, _>(PngmeError::Crypto),
            },
    {
        let plaintext = match aead_decrypt(
            key,
            &encrypted_data.nonce,
            encrypted_data.ciphertext.as_slice(),
        ) {
            Some(pt) => pt,
            None => {
                return Err(PngmeError::Crypto);
            },
        };
        match string_from_utf8(plaintext) {
            Some(s) => Ok(s),
            None => Err(PngmeError::Crypto),
        }
    }
}

/// Encryption round trip: blob contents as `Crypto::encrypt` ensures them
/// for a message and password — the ciphertext seals the message bytes
/// under the password-derived key, and opens back to them — decrypt to
/// exactly that message under the same password: the opened bytes are
/// valid UTF-8 and decode to the message, so `Crypto::decrypt` cannot
/// fail on them and returns the message.
pub proof fn lemma_encrypt_decrypt_round_trip(
    msg: Seq<char>,
    password: Seq<u8>,
    salt: Seq<u8>,
    nonce: Seq<u8>,
    ct: Seq<u8>,
)
    requires
        ct == aes_gcm_seal(argon2_key_of(password, salt), nonce, encode_utf8(msg)),
        aes_gcm_open(argon2_key_of(password, salt), nonce, ct) == Some(encode_utf8(msg)),
    ensures
        match aes_gcm_open(argon2_key_of(password, salt), nonce, ct) {
            Some(pt) => valid_utf8(pt) && decode_utf8(pt) == msg,
            None => false,
        },
{
    broadcast use vstd::utf8::encode_utf8_valid_utf8, vstd::utf8::encode_utf8_decode_utf8;

}

/// Blob transport round trip: the packed form of a well-formed blob is at
/// least 44 bytes, and splitting it at 32 and 44 gives back the blob's own
/// salt, nonce and ciphertext — so decoding the text that `to_base64`
/// produced hands `from_base64` exactly the original fields.
pub proof fn lemma_blob_transport_round_trip(salt: Seq<u8>, nonce: Seq<u8>, ct: Seq<u8>)
    requires
        salt.len() == 32,
        nonce.len() == 12,
    ensures
        (salt + nonce + ct).len() >= 44,
        (salt + nonce + ct).subrange(0, 32) == salt,
        (salt + nonce + ct).subrange(32, 44) == nonce,
        (salt + nonce + ct).subrange(44, (salt + nonce + ct).len() as int) == ct,
{
    let d = salt + nonce + ct;
    assert(d.subrange(0, 32) =~= salt);
    assert(d.subrange(32, 44) =~= nonce);
    assert(d.subrange(44, d.len() as int) =~= ct);
}

} // verus!
