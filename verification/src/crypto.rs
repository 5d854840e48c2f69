//! AEAD encryption of provider secrets with a 32-byte master key
//! (AES-256-GCM, 96-bit nonces, 128-bit tags).

use vstd::prelude::*;

use rand::Rng;
use ring::aead::{Aad, LessSafeKey, Nonce, UnboundKey, AES_256_GCM};

use crate::util::{b64_decode, b64_decode_of, b64_encode, b64_of};

verus! {

/// What AES-256-GCM decryption returns for a key, nonce and
/// ciphertext-with-tag: the plaintext when the tag verifies, nothing
/// otherwise. A function of its arguments alone.
pub uninterp spec fn aead_open(key: Seq<u8>, nonce: Seq<u8>, cipher: Seq<u8>) -> Option<Seq<u8>>;

pub const NONCE_LEN: usize = 12;

pub const TAG_LEN: usize = 16;

/// Largest plaintext the encryptor accepts: 256 MiB. The behaviour
/// above sets no bound of its own; this stays far below the cipher's
/// per-call input limit (about 2^36 bytes), so sealing cannot fail,
/// and is generous for the provider secrets it protects.
pub const MAX_PLAINTEXT_LEN: usize = 0x1000_0000;

#[derive(Debug, PartialEq, Eq, Structural, Clone, Copy)]
pub enum CryptoError {
    BadKeyLength,
    BadNonceLength,
    CiphertextTooShort,
    EncryptFailed,
    DecryptFailed,
}

impl CryptoError {
    pub fn message(&self) -> (r: &'static str)
        ensures
            match self {
                CryptoError::BadKeyLength => r@ == "master key must be 32 bytes"@,
                CryptoError::BadNonceLength => r@ == "invalid nonce length"@,
                CryptoError::CiphertextTooShort => r@ == "ciphertext too short"@,
                CryptoError::EncryptFailed => r@ == "encryption failed"@,
                CryptoError::DecryptFailed => r@ == "decryption failed"@,
            },
    {
        match self {
            CryptoError::BadKeyLength => "master key must be 32 bytes",
            CryptoError::BadNonceLength => "invalid nonce length",
            CryptoError::CiphertextTooShort => "ciphertext too short",
            CryptoError::EncryptFailed => "encryption failed",
            CryptoError::DecryptFailed => "decryption failed",
        }
    }
}

/// Relies on ring's `LessSafeKey::seal_in_place_append_tag` with
/// `AES_256_GCM`, empty AAD and the given nonce: it appends a 16-byte
/// tag and only fails above the AES-GCM input limit (about 2^36 bytes),
/// which the precondition rules out. Decrypting the output with the
/// same key and nonce returns the plaintext.
#[verifier::external_body]
fn aead_seal(key: &[u8], nonce: &[u8], plaintext: &[u8]) -> (r: Result<Vec<u8>, CryptoError>)
    requires
        key@.len() == 32,
        nonce@.len() == 12,
        plaintext@.len() <= MAX_PLAINTEXT_LEN,
    ensures
        r is Ok,
        (r matches Ok(c) ==> {
            &&& c@.len() == plaintext@.len() + 16
            &&& aead_open(key@, nonce@, c@) == Option::Some(plaintext@)
        }),
{
    let unbound = UnboundKey::new(&AES_256_GCM, key).map_err(|_| CryptoError::EncryptFailed)?;
    let sealing = LessSafeKey::new(unbound);
    let nonce_arr: [u8; 12] = nonce.try_into().map_err(|_| CryptoError::EncryptFailed)?;
    let n = Nonce::assume_unique_for_key(nonce_arr);
    let mut in_out = plaintext.to_vec();
    sealing
        .seal_in_place_append_tag(n, Aad::empty(), &mut in_out)
        .map_err(|_| CryptoError::EncryptFailed)?;
    Ok(in_out)
}

/// Relies on ring's `LessSafeKey::open_in_place` with `AES_256_GCM` and
/// empty AAD: returns the plaintext exactly when the tag verifies.
#[verifier::external_body]
fn aead_open_exec(key: &[u8], nonce: &[u8], cipher: &[u8]) -> (r: Option<Vec<u8>>)
    requires
        key@.len() == 32,
        nonce@.len() == 12,
    ensures
        (r matches Some(p) ==> aead_open(key@, nonce@, cipher@) == Option::Some(p@)),
        r is None ==> aead_open(key@, nonce@, cipher@) is None,
{
    let unbound = UnboundKey::new(&AES_256_GCM, key).ok()?;
    let opening = LessSafeKey::new(unbound);
    let nonce_arr: [u8; 12] = nonce.try_into().ok()?;
    let n = Nonce::assume_unique_for_key(nonce_arr);
    let mut buffer = cipher.to_vec();
    let plaintext = opening.open_in_place(n, Aad::empty(), &mut buffer).ok()?;
    Some(plaintext.to_vec())
}

/// Relies on `rand::rng().fill_bytes`: fills the 12-byte buffer; nothing
/// is assumed about the values drawn.
#[verifier::external_body]
fn random_nonce() -> (r: Vec<u8>)
    ensures
        r@.len() == 12,
{
    let mut bytes = [0u8; 12];
    rand::rng().fill_bytes(&mut bytes);
    bytes.to_vec()
}

pub struct KeyManager {
    key: Vec<u8>,
}

impl KeyManager {
    /// The 32 master-key bytes.
    pub closed spec fn spec_key(&self) -> Seq<u8> {
        self.key@
    }

    pub open spec fn wf(&self) -> bool {
        self.spec_key().len() == 32
    }

    /// Accepts exactly 32 bytes of key material.
    pub fn from_bytes(bytes: &[u8]) -> (r: Result<KeyManager, CryptoError>)
        ensures
            r is Ok <==> bytes@.len() == 32,
            (r matches Ok(k) ==> k.wf() && k.spec_key() == bytes@),
            r is Err ==> r == Result::<KeyManager, CryptoError>::Err(CryptoError::BadKeyLength),
    {
        if bytes.len() != 32 {
            return Err(CryptoError::BadKeyLength);
        }
        let mut key: Vec<u8> = Vec::new();
        let mut i: usize = 0;
        #[verifier::loop_isolation(false)]
        while i < 32
            invariant
                i <= 32,
                key@ =~= bytes@.subrange(0, i as int),
            decreases 32 - i,
        {
            key.push(bytes[i]);
            i = i + 1;
        }
        proof {
            assert(key@ =~= bytes@);
        }
        Ok(KeyManager { key })
    }

    /// Encrypt under a fresh random 96-bit nonce; returns `(nonce,
    /// ciphertext-with-tag)`. The ciphertext opens back to the
    /// plaintext under the returned nonce.
    pub fn encrypt(&self, plaintext: &[u8]) -> (r: Result<(Vec<u8>, Vec<u8>), CryptoError>)
        requires
            self.wf(),
            plaintext@.len() <= MAX_PLAINTEXT_LEN,
        ensures
            r is Ok,
            (r matches Ok((nonce, cipher)) ==> {
                &&& nonce@.len() == 12
                &&& cipher@.len() == plaintext@.len() + 16
                &&& aead_open(self.spec_key(), nonce@, cipher@) == Option::Some(plaintext@)
            }),
    {
        let nonce = random_nonce();
        match aead_seal(self.key.as_slice(), nonce.as_slice(), plaintext) {
            Ok(cipher) => Ok((nonce, cipher)),
            Err(e) => Err(e),
        }
    }

    /// Decrypt a `(nonce, ciphertext-with-tag)` pair: succeeds exactly
    /// when the nonce is 96 bits and the tag verifies.
    pub fn decrypt(&self, nonce: &[u8], cipher: &[u8]) -> (r: Result<Vec<u8>, CryptoError>)
        requires
            self.wf(),
        ensures
            nonce@.len() != 12 ==> r == Result::<Vec<u8>, CryptoError>::Err(
                CryptoError::BadNonceLength,
            ),
            nonce@.len() == 12 ==> match r {
                Result::Ok(p) => aead_open(self.spec_key(), nonce@, cipher@)
                    == Option::Some(p@),
                Result::Err(e) => aead_open(self.spec_key(), nonce@, cipher@) is None
                    && e == CryptoError::DecryptFailed,
            },
    {
        if nonce.len() != NONCE_LEN {
            return Err(CryptoError::BadNonceLength);
        }
        match aead_open_exec(self.key.as_slice(), nonce, cipher) {
            Some(p) => Ok(p),
            None => Err(CryptoError::DecryptFailed),
        }
    }

    /// `base64(nonce || ciphertext || tag)` under a fresh nonce.
    pub fn encrypt_to_base64(&self, plaintext: &[u8]) -> (r: Result<String, CryptoError>)
        requires
            self.wf(),
            plaintext@.len() <= MAX_PLAINTEXT_LEN,
        ensures
            r is Ok,
            (r matches Ok(s) ==> exists|payload: Seq<u8>|
                {
                    &&& s@ == b64_of(payload)
                    &&& b64_decode_of(s@) == Option::Some(payload)
                    &&& payload.len() >= 28
                    &&& aead_open(self.spec_key(), payload.subrange(0, 12), payload.skip(12))
                        == Option::Some(plaintext@)
                }),
    {
        let (nonce, cipher) = match self.encrypt(plaintext) {
            Ok(pair) => pair,
            Err(e) => {
                return Err(e);
            },
        };
        let ghost nonce_view = nonce@;
        let mut payload = nonce;
        let n = cipher.len();
        let mut i: usize = 0;
        #[verifier::loop_isolation(false)]
        while i < n
            invariant
                i <= n,
                payload@ =~= nonce_view + cipher@.subrange(0, i as int),
            decreases n - i,
        {
            payload.push(cipher[i]);
            i = i + 1;
        }
        proof {
            assert(payload@ =~= nonce_view + cipher@);
            assert(payload@.subrange(0, 12) =~= nonce_view);
            assert(payload@.skip(12) =~= cipher@);
        }
        let encoded = b64_encode(payload.as_slice());
        Ok(encoded)
    }

    /// Decode and decrypt `base64(nonce || ciphertext || tag)`; payloads
    /// shorter than nonce plus tag (28 bytes) are rejected.
    pub fn decrypt_from_base64(&self, encoded: &str) -> (r: Result<Vec<u8>, CryptoError>)
        requires
            self.wf(),
        ensures
            b64_decode_of(encoded@) is None ==> r == Result::<Vec<u8>, CryptoError>::Err(
                CryptoError::DecryptFailed,
            ),
            (b64_decode_of(encoded@) matches Some(payload) ==> if payload.len() < 28 {
                r == Result::<Vec<u8>, CryptoError>::Err(CryptoError::CiphertextTooShort)
            } else {
                match r {
                    Result::Ok(p) => aead_open(
                        self.spec_key(),
                        payload.subrange(0, 12),
                        payload.skip(12),
                    ) == Option::Some(p@),
                    Result::Err(e) => aead_open(
                        self.spec_key(),
                        payload.subrange(0, 12),
                        payload.skip(12),
                    ) is None && e == CryptoError::DecryptFailed,
                }
            }),
    {
        let bytes = match b64_decode(encoded) {
            Some(b) => b,
            None => {
                return Err(CryptoError::DecryptFailed);
            },
        };
        if bytes.len() < NONCE_LEN + TAG_LEN {
            return Err(CryptoError::CiphertextTooShort);
        }
        let nonce = vstd::slice::slice_subrange(bytes.as_slice(), 0, 12);
        let cipher = vstd::slice::slice_subrange(bytes.as_slice(), 12, bytes.len());
        proof {
            assert(cipher@ =~= bytes@.skip(12));
        }
        self.decrypt(nonce, cipher)
    }
}

/// Law: decrypting what `encrypt` produced, under the nonce it
/// returned, gives back the plaintext, for every plaintext and key.
pub fn encrypt_then_decrypt(km: &KeyManager, plaintext: &[u8]) -> (r: Vec<u8>)
    requires
        km.wf(),
        plaintext@.len() <= MAX_PLAINTEXT_LEN,
    ensures
        r@ == plaintext@,
{
    let (nonce, cipher) = match km.encrypt(plaintext) {
        Ok(pair) => pair,
        Err(_) => {
            proof {
                assert(false);
            }
            (Vec::new(), Vec::new())
        },
    };
    match km.decrypt(nonce.as_slice(), cipher.as_slice()) {
        Ok(p) => p,
        Err(_) => {
            proof {
                assert(false);
            }
            Vec::new()
        },
    }
}

/// Law: the base64 form round-trips the same way.
pub fn encrypt_then_decrypt_base64(km: &KeyManager, plaintext: &[u8]) -> (r: Vec<u8>)
    requires
        km.wf(),
        plaintext@.len() <= MAX_PLAINTEXT_LEN,
    ensures
        r@ == plaintext@,
{
    let encoded = match km.encrypt_to_base64(plaintext) {
        Ok(s) => s,
        Err(_) => {
            proof {
                assert(false);
            }
            String::new()
        },
    };
    match km.decrypt_from_base64(encoded.as_str()) {
        Ok(p) => p,
        Err(_) => {
            proof {
                assert(false);
            }
            Vec::new()
        },
    }
}

} // verus!
