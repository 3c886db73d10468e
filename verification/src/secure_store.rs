//! The encrypted credential vault file: a random 192-bit nonce followed by
//! the XChaCha20-Poly1305 ciphertext of the accounts, under a 256-bit master
//! key that the operating system's credential store keeps.
use vstd::prelude::*;
use crate::error::{AppError, AppErrorV, app_error, random_error, random_unavailable};
use crate::oauth::random_bytes;

verus! {

/// The file name of the vault in the application data directory.
pub const CREDENTIALS_FILE: &'static str = "credentials.v1.enc";

/// The credential-store service and entry that hold the master key.
pub const KEYRING_SERVICE: &'static str = "dev.local.codex-accounts";
pub const KEYRING_ENTRY: &'static str = "vault-key-v1";

/// XChaCha20-Poly1305 encryption: the ciphertext (with its tag) of a
/// plaintext under a key and nonce, if the cipher accepts it.
pub uninterp spec fn aead_seal(key: Seq<u8>, nonce: Seq<u8>, plaintext: Seq<u8>) -> Option<Seq<u8>>;

/// XChaCha20-Poly1305 decryption: the plaintext of an authentic ciphertext.
pub uninterp spec fn aead_open(key: Seq<u8>, nonce: Seq<u8>, ciphertext: Seq<u8>) -> Option<Seq<u8>>;

pub open spec fn opt_bytes(b: Option<Vec<u8>>) -> Option<Seq<u8>> {
    match b {
        Some(v) => Some(v@),
        None => None,
    }
}

/// Encrypts with `chacha20poly1305::XChaCha20Poly1305` (`new_from_slice`,
/// `Aead::encrypt`). Claims that the result is the cipher's, and, as an
/// AEAD guarantees, that decrypting it under the same key and nonce gives
/// the plaintext back.
#[verifier::external_body]
fn xchacha_encrypt(key: &[u8], nonce: &[u8], plaintext: &[u8]) -> (r: Option<Vec<u8>>)
    requires
        key@.len() == 32,
        nonce@.len() == 24,
    ensures
        opt_bytes(r) == aead_seal(key@, nonce@, plaintext@),
        r matches Some(c) ==> aead_open(key@, nonce@, c@) == Some(plaintext@),
{
    match <chacha20poly1305::XChaCha20Poly1305 as chacha20poly1305::KeyInit>::new_from_slice(key) {
        Ok(c) => chacha20poly1305::aead::Aead::encrypt(&c, chacha20poly1305::XNonce::from_slice(nonce), plaintext).ok(),
        Err(_) => None,
    }
}

/// Decrypts with `chacha20poly1305::XChaCha20Poly1305` (`Aead::decrypt`).
/// Claims that the result is the cipher's.
#[verifier::external_body]
fn xchacha_decrypt(key: &[u8], nonce: &[u8], ciphertext: &[u8]) -> (r: Option<Vec<u8>>)
    requires
        key@.len() == 32,
        nonce@.len() == 24,
    ensures
        opt_bytes(r) == aead_open(key@, nonce@, ciphertext@),
{
    match <chacha20poly1305::XChaCha20Poly1305 as chacha20poly1305::KeyInit>::new_from_slice(key) {
        Ok(c) => chacha20poly1305::aead::Aead::decrypt(&c, chacha20poly1305::XNonce::from_slice(nonce), ciphertext).ok(),
        Err(_) => None,
    }
}

pub open spec fn key_error_value() -> AppErrorV {
    app_error(
        "SECURE_STORE"@,
        "系统凭据存储不可用或已锁定；请解锁 Keychain / Credential Manager / Secret Service"@,
    )
}

/// The error for a master key that is missing, locked or malformed.
pub fn key_error() -> (r: AppError)
    ensures
        r@ == key_error_value(),
{
    AppError::new("SECURE_STORE", "系统凭据存储不可用或已锁定；请解锁 Keychain / Credential Manager / Secret Service")
}

pub open spec fn vault_corrupt_error() -> AppErrorV {
    app_error("VAULT_CORRUPT"@, "凭据库损坏"@)
}

pub open spec fn vault_undecryptable_error() -> AppErrorV {
    app_error("VAULT_CORRUPT"@, "凭据库无法解密；请勿删除系统密钥"@)
}

/// The plaintext of a vault file (none when the file does not exist).
pub open spec fn spec_open_vault(key: Seq<u8>, file: Option<Seq<u8>>) -> Result<Option<Seq<u8>>, AppErrorV> {
    match file {
        None => Ok(None),
        Some(b) => if b.len() < 24 {
            Err(vault_corrupt_error())
        } else if key.len() != 32 {
            Err(key_error_value())
        } else {
            match aead_open(key, b.subrange(0, 24), b.subrange(24, b.len() as int)) {
                None => Err(vault_undecryptable_error()),
                Some(p) => Ok(Some(p)),
            }
        },
    }
}

/// The vault file for a plaintext, under a key and a 24-byte nonce.
pub open spec fn spec_seal_vault(key: Seq<u8>, nonce: Seq<u8>, plaintext: Seq<u8>) -> Result<Seq<u8>, AppErrorV> {
    if key.len() != 32 {
        Err(key_error_value())
    } else {
        match aead_seal(key, nonce, plaintext) {
            None => Err(key_error_value()),
            Some(c) => Ok(nonce + c),
        }
    }
}

pub open spec fn opt_result(r: Result<Option<Vec<u8>>, AppError>) -> Result<Option<Seq<u8>>, AppErrorV> {
    match r {
        Ok(b) => Ok(opt_bytes(b)),
        Err(e) => Err(e@),
    }
}

pub open spec fn bytes_result(r: Result<Vec<u8>, AppError>) -> Result<Seq<u8>, AppErrorV> {
    match r {
        Ok(b) => Ok(b@),
        Err(e) => Err(e@),
    }
}

fn slice_copy(b: &[u8], from: usize, to: usize) -> (r: Vec<u8>)
    requires
        from <= to <= b@.len(),
    ensures
        r@ == b@.subrange(from as int, to as int),
{
    let mut out: Vec<u8> = Vec::new();
    let mut i = from;
    while i < to
        invariant
            from <= i <= to <= b@.len(),
            out@ == b@.subrange(from as int, i as int),
        decreases to - i,
    {
        out.push(b[i]);
        i += 1;
        assert(out@ =~= b@.subrange(from as int, i as int));
    }
    out
}

/// Reads the plaintext of a vault file.
pub fn open_vault(key: &[u8], file: Option<Vec<u8>>) -> (r: Result<Option<Vec<u8>>, AppError>)
    ensures
        opt_result(r) == spec_open_vault(key@, opt_bytes(file)),
{
    let bytes = match file {
        None => {
            return Ok(None);
        },
        Some(b) => b,
    };
    if bytes.len() < 24 {
        return Err(AppError::new("VAULT_CORRUPT", "凭据库损坏"));
    }
    if key.len() != 32 {
        return Err(key_error());
    }
    let nonce = slice_copy(bytes.as_slice(), 0, 24);
    let body = slice_copy(bytes.as_slice(), 24, bytes.len());
    match xchacha_decrypt(key, nonce.as_slice(), body.as_slice()) {
        None => Err(AppError::new("VAULT_CORRUPT", "凭据库无法解密；请勿删除系统密钥")),
        Some(p) => Ok(Some(p)),
    }
}

/// Writes the vault file for a plaintext with the given nonce.
pub fn seal_vault(key: &[u8], nonce: &[u8], plaintext: &[u8]) -> (r: Result<Vec<u8>, AppError>)
    requires
        nonce@.len() == 24,
    ensures
        bytes_result(r) == spec_seal_vault(key@, nonce@, plaintext@),
        r matches Ok(f) ==> f@.subrange(0, 24) == nonce@,
        // What the vault gives back is what was written to it.
        r matches Ok(f) ==> spec_open_vault(key@, Some(f@)) == Ok::<Option<Seq<u8>>, AppErrorV>(Some(plaintext@)),
{
    if key.len() != 32 {
        return Err(key_error());
    }
    match xchacha_encrypt(key, nonce, plaintext) {
        None => Err(key_error()),
        Some(c) => {
            let mut out = slice_copy(nonce, 0, 24);
            let mut i: usize = 0;
            while i < c.len()
                invariant
                    i <= c@.len(),
                    out@ == nonce@ + c@.subrange(0, i as int),
                decreases c.len() - i,
            {
                out.push(c[i]);
                i += 1;
                assert(out@ =~= nonce@ + c@.subrange(0, i as int));
            }
            proof {
                assert(c@.subrange(0, c@.len() as int) =~= c@);
                assert(nonce@.subrange(0, 24) =~= nonce@);
                assert(out@.subrange(0, 24) =~= nonce@);
                assert(out@.subrange(24, out@.len() as int) =~= c@);
            }
            Ok(out)
        },
    }
}

/// Writes the vault file for a plaintext with a fresh random nonce.
pub fn seal(key: &[u8], plaintext: &[u8]) -> (r: Result<Vec<u8>, AppError>)
    ensures
        (r is Err && r->Err_0@ == random_error()) || exists|nonce: Seq<u8>|
            nonce.len() == 24 && bytes_result(r) == #[trigger] spec_seal_vault(key@, nonce, plaintext@),
        r matches Ok(f) ==> spec_open_vault(key@, Some(f@)) == Ok::<Option<Seq<u8>>, AppErrorV>(Some(plaintext@)),
{
    match random_bytes(24) {
        Some(nonce) => seal_vault(key, nonce.as_slice(), plaintext),
        None => Err(random_unavailable()),
    }
}

/// The standard padded base64 decoder.
pub uninterp spec fn base64_decode(text: Seq<char>) -> Option<Seq<u8>>;

/// The standard padded base64 encoder.
pub uninterp spec fn base64_encode(bytes: Seq<u8>) -> Seq<char>;

/// Decodes with `base64::engine::general_purpose::STANDARD.decode`. Claims
/// the decoder's result.
#[verifier::external_body]
fn base64_decode_text(text: &str) -> (r: Option<Vec<u8>>)
    ensures
        opt_bytes(r) == base64_decode(text@),
{
    base64::Engine::decode(&base64::engine::general_purpose::STANDARD, text).ok()
}

/// Encodes with `base64::engine::general_purpose::STANDARD.encode`. Claims
/// the encoder's text, which the decoder reads back as the same bytes.
#[verifier::external_body]
fn base64_encode_bytes(bytes: &[u8]) -> (r: String)
    ensures
        r@ == base64_encode(bytes@),
        base64_decode(r@) == Some(bytes@),
{
    base64::Engine::encode(&base64::engine::general_purpose::STANDARD, bytes)
}

/// The master key that the credential store holds as base64 text: exactly
/// 32 bytes, else the store is unusable.
pub open spec fn spec_master_key(secret: Seq<char>) -> Result<Seq<u8>, AppErrorV> {
    match base64_decode(secret) {
        Some(k) => if k.len() == 32 {
            Ok(k)
        } else {
            Err(key_error_value())
        },
        None => Err(key_error_value()),
    }
}

pub fn master_key(secret: &str) -> (r: Result<Vec<u8>, AppError>)
    ensures
        bytes_result(r) == spec_master_key(secret@),
{
    match base64_decode_text(secret) {
        Some(k) => if k.len() == 32 {
            Ok(k)
        } else {
            Err(key_error())
        },
        None => Err(key_error()),
    }
}

/// A new random master key and the base64 text the credential store keeps
/// for it; that text reads back as the key. The random source's error when
/// the operating system cannot supply the key.
pub fn new_master_key() -> (r: Result<(Vec<u8>, String), AppError>)
    ensures
        match r {
            Ok((k, text)) => k@.len() == 32 && spec_master_key(text@) == Ok::<Seq<u8>, AppErrorV>(k@),
            Err(e) => e@ == random_error(),
        },
{
    match random_bytes(32) {
        Some(k) => {
            let text = base64_encode_bytes(k.as_slice());
            Ok((k, text))
        },
        None => Err(random_unavailable()),
    }
}

/// What the OS credential store answered for the master key entry.
#[derive(Clone, Copy, PartialEq, Eq, Structural)]
pub enum KeyEntry {
    /// The entry exists; its text was read.
    Found,
    /// There is no such entry.
    Missing,
    /// The store is unavailable or locked.
    Unavailable,
}

/// The master key to use: the stored one (`Some`), or a new one to create
/// (`None`), which is done only when neither the key nor a vault exists.
pub open spec fn spec_key_plan(entry: KeyEntry, secret: Seq<char>, vault_exists: bool) -> Result<Option<Seq<u8>>, AppErrorV> {
    match entry {
        KeyEntry::Found => match spec_master_key(secret) {
            Ok(k) => Ok(Some(k)),
            Err(e) => Err(e),
        },
        KeyEntry::Missing => if vault_exists {
            Err(key_error_value())
        } else {
            Ok(None)
        },
        KeyEntry::Unavailable => Err(key_error_value()),
    }
}

/// Decides on the master key; `secret` is the entry's text when it was found.
pub fn key_plan(entry: KeyEntry, secret: &str, vault_exists: bool) -> (r: Result<Option<Vec<u8>>, AppError>)
    ensures
        match r {
            Ok(k) => spec_key_plan(entry, secret@, vault_exists) == Ok::<Option<Seq<u8>>, AppErrorV>(opt_bytes(k)),
            Err(e) => spec_key_plan(entry, secret@, vault_exists) == Err::<Option<Seq<u8>>, AppErrorV>(e@),
        },
{
    match entry {
        KeyEntry::Found => match master_key(secret) {
            Ok(k) => Ok(Some(k)),
            Err(e) => Err(e),
        },
        KeyEntry::Missing => if vault_exists {
            Err(key_error())
        } else {
            Ok(None)
        },
        KeyEntry::Unavailable => Err(key_error()),
    }
}

/// An existing vault never gets a new master key: with a vault on disk the
/// stored key is used or opening fails, so a lost key is reported rather
/// than silently replaced.
pub proof fn law_existing_vault_keeps_its_key(entry: KeyEntry, secret: Seq<char>)
    ensures
        spec_key_plan(entry, secret, true) != Ok::<Option<Seq<u8>>, AppErrorV>(None),
{
}

} // verus!
