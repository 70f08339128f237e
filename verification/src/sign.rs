//! Signing release artifacts for the engine updater. Each artifact gets a
//! `<file>.meta.json` with its size, its sha256 and an ed25519 signature,
//! the fields that updater.json embeds per platform. The secret is
//! `<NAME>_UPDATE_KEY` in the env, 32 bytes hex, or the local key file when
//! that is unset.
use vstd::prelude::*;
use crate::text::{env_stem, env_stem_of, is_white, trim, trimmed};
use ed25519_dalek::{Signer, SigningKey};
use sha2::{Digest, Sha256};

verus! {

broadcast use vstd::string::group_string_axioms;

/// The lowercase hex digit of `n` (below 16).
pub open spec fn hex_digit(n: u8) -> char {
    if n < 10 {
        ((48 + n) as u8) as char
    } else {
        ((87 + n) as u8) as char
    }
}

/// `bytes` as lowercase hex, two digits a byte, high half first.
pub open spec fn hex_lower(bytes: Seq<u8>) -> Seq<char>
    decreases bytes.len(),
{
    if bytes.len() == 0 {
        Seq::empty()
    } else {
        seq![hex_digit(bytes[0] / 16), hex_digit(bytes[0] % 16)] + hex_lower(bytes.drop_first())
    }
}

/// The value of a hex digit of either case.
pub open spec fn hex_value(c: char) -> Option<u8> {
    if '0' <= c && c <= '9' {
        Some((c as u32 - 48) as u8)
    } else if 'a' <= c && c <= 'f' {
        Some((c as u32 - 87) as u8)
    } else if 'A' <= c && c <= 'F' {
        Some((c as u32 - 55) as u8)
    } else {
        None
    }
}

/// The bytes that the hex text `s` spells, two digits a byte, or `None` when
/// its length is odd or it holds anything but hex digits.
pub open spec fn hex_decoded(s: Seq<char>) -> Option<Seq<u8>>
    decreases s.len(),
{
    if s.len() == 0 {
        Some(Seq::empty())
    } else if s.len() == 1 {
        None
    } else {
        match (hex_value(s[0]), hex_value(s[1]), hex_decoded(s.skip(2))) {
            (Some(h), Some(l), Some(rest)) => Some(seq![(h * 16 + l) as u8] + rest),
            _ => None,
        }
    }
}

/// `hex::encode`: lowercase hex, high half of each byte first (the crate's
/// `HEX_CHARS_LOWER` table).
#[verifier::external_body]
fn hex_encode(bytes: &[u8]) -> (r: String)
    ensures
        r@ == hex_lower(bytes@),
{
    hex::encode(bytes)
}

/// `hex::decode`: the bytes when the text has an even length and only hex
/// digits of either case, else the crate's error, here `None`.
#[verifier::external_body]
fn hex_decode(s: &str) -> (r: Option<Vec<u8>>)
    ensures
        r is Some <==> hex_decoded(s@) is Some,
        r matches Some(b) ==> b@ == hex_decoded(s@)->0,
{
    hex::decode(s).ok()
}

/// The SHA-256 digest of `bytes`.
pub uninterp spec fn sha256(bytes: Seq<u8>) -> Seq<u8>;

/// `Sha256::digest` of the sha2 crate: the 32-byte digest.
#[verifier::external_body]
fn sha256_digest(bytes: &[u8]) -> (r: Vec<u8>)
    ensures
        r@ == sha256(bytes@),
        r@.len() == 32,
{
    Sha256::digest(bytes).to_vec()
}

/// The ed25519 public key of a 32-byte secret.
pub uninterp spec fn ed25519_public(secret: Seq<u8>) -> Seq<u8>;

/// The ed25519 signature of `message` under a 32-byte secret. Ed25519 signs
/// deterministically, so it is a function of the two.
pub uninterp spec fn ed25519_signature(secret: Seq<u8>, message: Seq<u8>) -> Seq<u8>;

/// `SigningKey::try_from(&[u8])` of ed25519-dalek: a key exactly when the
/// slice has 32 bytes, and then the key's secret is those bytes.
#[verifier::external_body]
fn secret_from_slice(bytes: &[u8]) -> (r: Option<[u8; 32]>)
    ensures
        r is Some <==> bytes@.len() == 32,
        r matches Some(k) ==> k@ == bytes@,
{
    match SigningKey::try_from(bytes) {
        Ok(k) => Some(k.to_bytes()),
        Err(_) => None,
    }
}

/// `SigningKey::verifying_key` of ed25519-dalek, as bytes.
#[verifier::external_body]
fn public_key_of(secret: &[u8; 32]) -> (r: [u8; 32])
    ensures
        r@ == ed25519_public(secret@),
{
    SigningKey::from_bytes(secret).verifying_key().to_bytes()
}

/// `SigningKey::sign` of ed25519-dalek, as bytes.
#[verifier::external_body]
fn signature_of(secret: &[u8; 32], message: &[u8]) -> (r: [u8; 64])
    ensures
        r@ == ed25519_signature(secret@, message@),
{
    SigningKey::from_bytes(secret).sign(message).to_bytes()
}

/// Why a key cannot sign, or signs for another app.
#[derive(Debug, PartialEq, Eq)]
pub enum SignError {
    /// The key text is not hex.
    NotHex,
    /// The key is hex but not 32 bytes.
    KeyLength,
    /// The key's public half differs from the one the app embeds.
    KeyMismatch,
}

/// What became of checking the key against the app's public key.
#[derive(Debug, PartialEq, Eq)]
pub enum KeyCheck {
    /// The app keeps no public key, the key is not checked.
    NotChecked,
    /// The key's public half is the one the app embeds.
    Matches,
}

/// The signing key of the updater: an ed25519 secret.
pub struct UpdateKey {
    secret: [u8; 32],
}

impl View for UpdateKey {
    type V = Seq<u8>;

    closed spec fn view(&self) -> Seq<u8> {
        self.secret@
    }
}

/// What updater.json embeds for one artifact.
#[derive(Debug, PartialEq, Eq)]
pub struct ArtifactMeta {
    pub size: u64,
    pub sha256: String,
    pub sig: String,
}

/// The variable that holds the update key of the app `name`.
pub fn update_key_env(name: &str) -> (r: String)
    ensures
        r@ == env_stem(name@) + "_UPDATE_KEY"@,
{
    let mut r = env_stem_of(name);
    r.append("_UPDATE_KEY");
    r
}

/// The local key file of the app `name` under `home`.
pub fn update_key_path(home: &str, name: &str) -> (r: String)
    ensures
        r@ == home@ + "/.config/"@ + name@ + "-hilen/update-key.hex"@,
{
    let mut r = String::new();
    r.append(home);
    r.append("/.config/");
    r.append(name);
    r.append("-hilen/update-key.hex");
    r
}

/// Whether the variable's value holds a key: anything but whitespace.
pub fn env_key_usable(value: &str) -> (r: bool)
    ensures
        r == (trimmed(value@).len() > 0),
{
    let t = trim(value);
    t.unicode_len() > 0
}

/// Where the app keeps the public key it embeds.
pub fn public_key_path() -> (r: &'static str)
    ensures
        r@ == "assets/update-key.pub"@,
{
    "assets/update-key.pub"
}

/// The file that `meta` of `file` is written to.
pub fn meta_path(file: &str) -> (r: String)
    ensures
        r@ == file@ + ".meta.json"@,
{
    let mut r = String::new();
    r.append(file);
    r.append(".meta.json");
    r
}

impl UpdateKey {
    /// Reads a key from its hex text, whitespace around it ignored.
    pub fn from_hex(text: &str) -> (r: Result<UpdateKey, SignError>)
        ensures
            r matches Err(SignError::NotHex) <==> hex_decoded(trimmed(text@)) is None,
            r matches Err(SignError::KeyLength) <==> (hex_decoded(trimmed(text@)) matches Some(
                b,
            ) && b.len() != 32),
            r matches Ok(k) ==> hex_decoded(trimmed(text@)) == Some(k@),
            r matches Err(SignError::KeyMismatch) ==> false,
    {
        let t = trim(text);
        match hex_decode(t.as_str()) {
            None => Err(SignError::NotHex),
            Some(bytes) => match secret_from_slice(bytes.as_slice()) {
                Some(secret) => Ok(UpdateKey { secret }),
                None => Err(SignError::KeyLength),
            },
        }
    }

    /// The public half as the app embeds it: lowercase hex.
    pub fn public_hex(&self) -> (r: String)
        ensures
            r@ == hex_lower(ed25519_public(self@)),
    {
        let public = public_key_of(&self.secret);
        hex_encode(&public)
    }

    /// Checks the key against the public key file of the app, `None` when the
    /// app keeps none. A wrong secret would ship updates that no installed
    /// app accepts.
    pub fn check_public_key(&self, public_file: Option<&str>) -> (r: Result<KeyCheck, SignError>)
        ensures
            public_file is None ==> r == Ok::<KeyCheck, SignError>(KeyCheck::NotChecked),
            public_file matches Some(text) ==> (r == if hex_lower(ed25519_public(self@))
                == trimmed(text@) {
                Ok::<KeyCheck, SignError>(KeyCheck::Matches)
            } else {
                Err(SignError::KeyMismatch)
            }),
    {
        match public_file {
            None => Ok(KeyCheck::NotChecked),
            Some(text) => {
                let ours = self.public_hex();
                let theirs = trim(text);
                if ours == theirs {
                    Ok(KeyCheck::Matches)
                } else {
                    Err(SignError::KeyMismatch)
                }
            },
        }
    }

    /// The size, sha256 and signature of an artifact's bytes.
    pub fn meta(&self, bytes: &[u8]) -> (r: ArtifactMeta)
        ensures
            r.size == bytes@.len(),
            r.sha256@ == hex_lower(sha256(bytes@)),
            r.sig@ == hex_lower(ed25519_signature(self@, bytes@)),
    {
        let digest = sha256_digest(bytes);
        let sig = signature_of(&self.secret, bytes);
        ArtifactMeta {
            size: bytes.len() as u64,
            sha256: hex_encode(digest.as_slice()),
            sig: hex_encode(&sig),
        }
    }
}

/// A key saved with a CRLF or LF line ending reads as the same key, and a
/// public key file so saved checks the same.
pub proof fn lemma_key_line_endings_are_ignored(text: Seq<char>)
    ensures
        hex_decoded(trimmed(text + "\r\n"@)) == hex_decoded(trimmed(text)),
        hex_decoded(trimmed(text + "\n"@)) == hex_decoded(trimmed(text)),
        trimmed(text + "\r\n"@) == trimmed(text),
{
    crate::text::lemma_trim_drops_line_endings(text);
}

proof fn lemma_hex_digit_value(n: u8)
    requires
        n < 16,
    ensures
        hex_value(hex_digit(n)) == Some(n),
{
}

/// Hex text that `hex::encode` writes, `hex::decode` reads back: the bytes of
/// a key or digest survive the round through hex.
pub proof fn lemma_hex_roundtrip(bytes: Seq<u8>)
    ensures
        hex_decoded(hex_lower(bytes)) == Some(bytes),
    decreases bytes.len(),
{
    if bytes.len() > 0 {
        let b = bytes[0];
        let h = hex_lower(bytes);
        let rest = bytes.drop_first();
        lemma_hex_roundtrip(rest);
        lemma_hex_digit_value(b / 16);
        lemma_hex_digit_value(b % 16);
        assert(h.skip(2) =~= hex_lower(rest));
        assert((b / 16) * 16 + b % 16 == b);
        assert(seq![b] + rest =~= bytes);
    }
}

/// Hex text holds no whitespace, so trimming leaves it as it is.
pub proof fn lemma_hex_is_trimmed(bytes: Seq<u8>)
    ensures
        trimmed(hex_lower(bytes)) == hex_lower(bytes),
{
    let h = hex_lower(bytes);
    lemma_hex_no_white(bytes);
    if h.len() > 0 {
        assert(!is_white(h[0]));
        assert(!is_white(h.last()));
    }
}

proof fn lemma_hex_no_white(bytes: Seq<u8>)
    ensures
        forall|i: int| 0 <= i < hex_lower(bytes).len() ==> !is_white(#[trigger] hex_lower(bytes)[i]),
        hex_lower(bytes).len() == 2 * bytes.len(),
    decreases bytes.len(),
{
    if bytes.len() > 0 {
        let rest = bytes.drop_first();
        lemma_hex_no_white(rest);
        let h = hex_lower(bytes);
        assert forall|i: int| 0 <= i < h.len() implies !is_white(#[trigger] h[i]) by {
            if i >= 2 {
                assert(h[i] == hex_lower(rest)[i - 2]);
            }
        }
    }
}

/// A key's own public hex, however the file pads it with whitespace, passes
/// the check.
pub proof fn lemma_own_public_key_matches(key: UpdateKey, pad_front: Seq<char>, pad_back: Seq<char>)
    requires
        forall|i: int| 0 <= i < pad_front.len() ==> is_white(#[trigger] pad_front[i]),
        forall|i: int| 0 <= i < pad_back.len() ==> is_white(#[trigger] pad_back[i]),
    ensures
        trimmed(pad_front + hex_lower(ed25519_public(key@)) + pad_back) == hex_lower(
            ed25519_public(key@),
        ),
{
    crate::text::lemma_trimmed_padding(pad_front, hex_lower(ed25519_public(key@)), pad_back);
    lemma_hex_is_trimmed(ed25519_public(key@));
}

} // verus!
