//! Device identity (an Ed25519 key pair) and plugin signatures: a plugin's
//! `.sig` file holds the base64 of the device's signature over the SHA-256
//! of the plugin binary.
//!
//! Reading and writing the key file and the plugin files is done outside;
//! these functions take and give the bytes and texts.
use vstd::prelude::*;
use ed25519_dalek::{Signer, SigningKey, Signature, Verifier, VerifyingKey};
use crate::errors::AppError;
use crate::json::hex_digit;
use crate::sha256::{sha256, sha256_spec};
use crate::text::{chars_of, push_str, string_of, trim, trim_chars, ws_prefix_len, ws_suffix_len};

verus! {

// ─── Ed25519 (ed25519-dalek) ─────────────────────────────────────────────────

/// The public key of the Ed25519 secret key `secret`.
pub uninterp spec fn ed25519_public_key(secret: Seq<u8>) -> [u8; 32];

/// The (deterministic) Ed25519 signature of `msg` under `secret`.
pub uninterp spec fn ed25519_signature(secret: Seq<u8>, msg: Seq<u8>) -> [u8; 64];

/// Whether `sig` verifies for `msg` under the public key of `secret`, with
/// the verifier's error message when it does not.
pub uninterp spec fn ed25519_verdict(secret: Seq<u8>, msg: Seq<u8>, sig: Seq<u8>) -> Result<
    (),
    Seq<char>,
>;

/// `SigningKey::from_bytes(secret).verifying_key().to_bytes()`: 32 bytes
/// determined by the secret.
#[verifier::external_body]
fn public_key_of(secret: &[u8]) -> (r: Vec<u8>)
    requires
        secret@.len() == 32,
    ensures
        r@ == ed25519_public_key(secret@)@,
{
    let mut key = [0u8; 32];
    key.copy_from_slice(secret);
    SigningKey::from_bytes(&key).verifying_key().to_bytes().to_vec()
}

/// `SigningKey::sign`: the 64-byte signature (Ed25519 signing is
/// deterministic).
#[verifier::external_body]
fn signature_of(secret: &[u8], msg: &[u8]) -> (r: Vec<u8>)
    requires
        secret@.len() == 32,
    ensures
        r@ == ed25519_signature(secret@, msg@)@,
{
    let mut key = [0u8; 32];
    key.copy_from_slice(secret);
    SigningKey::from_bytes(&key).sign(msg).to_bytes().to_vec()
}

/// `VerifyingKey::verify` with the secret's verifying key; a failure is
/// reported by the error's message. A signature that the same key made over
/// the same message verifies.
#[verifier::external_body]
fn check_signature(secret: &[u8], msg: &[u8], sig: &[u8]) -> (r: Result<(), String>)
    requires
        secret@.len() == 32,
        sig@.len() == 64,
    ensures
        match r {
            Ok(()) => ed25519_verdict(secret@, msg@, sig@) is Ok,
            Err(m) => ed25519_verdict(secret@, msg@, sig@) == Err::<(), Seq<char>>(m@),
        },
        sig@ == ed25519_signature(secret@, msg@)@ ==> r is Ok,
{
    let mut key = [0u8; 32];
    key.copy_from_slice(secret);
    let mut s = [0u8; 64];
    s.copy_from_slice(sig);
    let vk: VerifyingKey = (&SigningKey::from_bytes(&key)).into();
    match vk.verify(msg, &Signature::from_bytes(&s)) {
        Ok(()) => Ok(()),
        Err(e) => Err(e.to_string()),
    }
}

/// `SigningKey::generate(&mut OsRng)`: a fresh random secret key (nothing
/// about its value is stated).
#[verifier::external_body]
fn random_secret() -> (r: Vec<u8>)
    ensures
        r@.len() == 32,
{
    SigningKey::generate(&mut rand::rngs::OsRng).to_bytes().to_vec()
}

// ─── Base64 (standard alphabet, padded) and hex ──────────────────────────────

/// Characters of the standard base64 alphabet and its padding.
pub open spec fn is_base64_char(c: char) -> bool {
    ('A' <= c <= 'Z') || ('a' <= c <= 'z') || ('0' <= c <= '9') || c == '+' || c == '/' || c
        == '='
}

/// The character of the standard base64 alphabet for a 6-bit value.
pub open spec fn b64_char(v: int) -> char {
    if v < 26 {
        (('A' as u32) + v) as char
    } else if v < 52 {
        (('a' as u32) + (v - 26)) as char
    } else if v < 62 {
        (('0' as u32) + (v - 52)) as char
    } else if v == 62 {
        '+'
    } else {
        '/'
    }
}

/// The base64 text of `data` (RFC 4648, standard alphabet, padded): each
/// three bytes give four characters, a final one or two bytes give two or
/// three followed by `=` padding.
pub open spec fn base64_text(data: Seq<u8>) -> Seq<char>
    decreases data.len(),
{
    if data.len() == 0 {
        Seq::empty()
    } else if data.len() == 1 {
        seq![b64_char((data[0] / 4) as int), b64_char(((data[0] % 4) * 16) as int), '=', '=']
    } else if data.len() == 2 {
        seq![
            b64_char((data[0] / 4) as int),
            b64_char(((data[0] % 4) * 16 + data[1] / 16) as int),
            b64_char(((data[1] % 16) * 4) as int),
            '=',
        ]
    } else {
        seq![
            b64_char((data[0] / 4) as int),
            b64_char(((data[0] % 4) * 16 + data[1] / 16) as int),
            b64_char(((data[1] % 16) * 4 + data[2] / 64) as int),
            b64_char((data[2] % 64) as int),
        ] + base64_text(data.skip(3))
    }
}

/// The bytes that a base64 text decodes to, or the decoder's error message.
pub uninterp spec fn base64_bytes(text: Seq<char>) -> Result<Seq<u8>, Seq<char>>;

/// `STANDARD.encode`: characters of the alphabet only.
#[verifier::external_body]
fn base64_encode(data: &[u8]) -> (r: String)
    ensures
        r@ == base64_text(data@),
        forall|i: int| 0 <= i < r@.len() ==> is_base64_char(#[trigger] r@[i]),
{
    base64::Engine::encode(&base64::engine::general_purpose::STANDARD, data)
}

/// `STANDARD.decode`, its error given by message; the text that `encode`
/// gives for some data decodes to that data.
#[verifier::external_body]
fn base64_decode(text: &str) -> (r: Result<Vec<u8>, String>)
    ensures
        match r {
            Ok(v) => base64_bytes(text@) == Ok::<Seq<u8>, Seq<char>>(v@),
            Err(m) => base64_bytes(text@) == Err::<Seq<u8>, Seq<char>>(m@),
        },
        r is Err ==> forall|data: Seq<u8>| #[trigger] base64_text(data) != text@,
        r matches Ok(v) ==> forall|data: Seq<u8>| #[trigger] base64_text(data) == text@ ==> v@ == data,
{
    match base64::Engine::decode(&base64::engine::general_purpose::STANDARD, text) {
        Ok(v) => Ok(v),
        Err(e) => Err(e.to_string()),
    }
}

/// Lowercase hexadecimal, two digits per byte, high nibble first.
pub open spec fn hex_text(b: Seq<u8>) -> Seq<char>
    decreases b.len(),
{
    if b.len() == 0 {
        Seq::empty()
    } else {
        hex_text(b.drop_last()) + seq![
            hex_digit((b.last() / 16) as nat),
            hex_digit((b.last() % 16) as nat),
        ]
    }
}

/// `hex::encode`.
#[verifier::external_body]
fn hex_encode(b: &[u8]) -> (r: String)
    ensures
        r@ == hex_text(b@),
{
    hex::encode(b)
}

// ─── Device identity ─────────────────────────────────────────────────────────

/// Outcome of checking a plugin's signature text against its binary.
pub open spec fn signature_verdict(
    secret: Seq<u8>,
    binary: Seq<u8>,
    binary_display: Seq<char>,
    sig_text: Seq<char>,
) -> Result<(), Seq<char>> {
    match base64_bytes(trim(sig_text)) {
        Err(e) => Err("Invalid base64 in .sig file: "@ + e),
        Ok(sig) => if sig.len() != 64 {
            Err("Signature must be 64 bytes"@)
        } else {
            match ed25519_verdict(secret, sha256_spec(binary), sig) {
                Ok(()) => Ok(()),
                Err(e) => Err("Plugin signature invalid for '"@ + binary_display + "': "@ + e),
            }
        },
    }
}

/// The signature text written next to a plugin binary.
pub open spec fn plugin_signature_text(secret: Seq<u8>, binary: Seq<u8>) -> Seq<char> {
    base64_text(ed25519_signature(secret, sha256_spec(binary))@)
}

/// The device's Ed25519 key.
pub struct DeviceIdentity {
    secret: Vec<u8>,
}

impl DeviceIdentity {
    #[verifier::type_invariant]
    spec fn inv(self) -> bool {
        self.secret@.len() == 32
    }

    /// The secret key bytes.
    pub closed spec fn secret_key(&self) -> Seq<u8> {
        self.secret@
    }

    /// A fresh random identity.
    pub fn generate() -> (r: Self)
        ensures
            r.secret_key().len() == 32,
    {
        DeviceIdentity { secret: random_secret() }
    }

    /// An identity from the bytes of a key file: exactly 32 bytes.
    pub fn load(bytes: Vec<u8>) -> (r: Result<Self, AppError>)
        ensures
            match r {
                Ok(id) => bytes@.len() == 32 && id.secret_key() == bytes@,
                Err(e) => bytes@.len() != 32 && (e matches AppError::SecurityError(m) && m@
                    == "Invalid key file length"@),
            },
    {
        if bytes.len() == 32 {
            Ok(DeviceIdentity { secret: bytes })
        } else {
            Err(AppError::SecurityError(string_of(&chars_of("Invalid key file length"))))
        }
    }

    /// The 32 secret bytes, as the key file stores them.
    pub fn to_bytes(&self) -> (r: Vec<u8>)
        ensures
            r@ == self.secret_key(),
    {
        self.secret.clone()
    }

    /// The public key in lowercase hex.
    pub fn public_key_hex(&self) -> (r: String)
        ensures
            r@ == hex_text(ed25519_public_key(self.secret_key())@),
    {
        proof {
            use_type_invariant(self);
        }
        let pk = public_key_of(self.secret.as_slice());
        hex_encode(pk.as_slice())
    }

    /// Signs `data`.
    pub fn sign(&self, data: &[u8]) -> (r: Vec<u8>)
        ensures
            r@ == ed25519_signature(self.secret_key(), data@)@,
    {
        proof {
            use_type_invariant(self);
        }
        signature_of(self.secret.as_slice(), data)
    }

    /// Checks a plugin binary against the text of its `.sig` file:
    /// base64 of the device's signature over the binary's SHA-256.
    pub fn verify_plugin_signature(&self, binary: &[u8], sig_text: &str, binary_display: &str) -> (r:
        Result<(), AppError>)
        requires
            binary@.len() * 8 <= u64::MAX,
        ensures
            match r {
                Ok(()) => signature_verdict(
                    self.secret_key(),
                    binary@,
                    binary_display@,
                    sig_text@,
                ) is Ok,
                Err(e) => e matches AppError::SecurityError(m) && signature_verdict(
                    self.secret_key(),
                    binary@,
                    binary_display@,
                    sig_text@,
                ) == Err::<(), Seq<char>>(m@),
            },
            trim(sig_text@) == plugin_signature_text(self.secret_key(), binary@) ==> r is Ok,
    {
        proof {
            use_type_invariant(self);
        }
        let hash = sha256(binary);
        let trimmed = string_of(&trim_chars(&chars_of(sig_text)));
        let sig = match base64_decode(trimmed.as_str()) {
            Ok(v) => v,
            Err(e) => {
                let mut out: Vec<char> = Vec::new();
                push_str(&mut out, "Invalid base64 in .sig file: ");
                push_str(&mut out, e.as_str());
                return Err(AppError::SecurityError(string_of(&out)));
            },
        };
        if sig.len() != 64 {
            return Err(AppError::SecurityError(string_of(&chars_of("Signature must be 64 bytes"))));
        }
        match check_signature(self.secret.as_slice(), hash.as_slice(), sig.as_slice()) {
            Ok(()) => Ok(()),
            Err(e) => {
                let mut out: Vec<char> = Vec::new();
                push_str(&mut out, "Plugin signature invalid for '");
                push_str(&mut out, binary_display);
                push_str(&mut out, "': ");
                push_str(&mut out, e.as_str());
                Err(AppError::SecurityError(string_of(&out)))
            },
        }
    }

    /// The `.sig` text for a plugin binary. It has no surrounding
    /// whitespace, so `verify_plugin_signature` accepts it for that binary.
    pub fn sign_plugin(&self, binary: &[u8]) -> (r: String)
        requires
            binary@.len() * 8 <= u64::MAX,
        ensures
            r@ == plugin_signature_text(self.secret_key(), binary@),
            trim(r@) == r@,
    {
        proof {
            use_type_invariant(self);
        }
        let hash = sha256(binary);
        let sig = signature_of(self.secret.as_slice(), hash.as_slice());
        let text = base64_encode(sig.as_slice());
        proof {
            lemma_trim_no_ws(text@);
        }
        text
    }
}

/// Text without whitespace characters is its own trim.
pub proof fn lemma_trim_no_ws(s: Seq<char>)
    requires
        forall|i: int| 0 <= i < s.len() ==> is_base64_char(#[trigger] s[i]),
    ensures
        trim(s) == s,
{
    if s.len() > 0 {
        assert(is_base64_char(s[0]));
        assert(is_base64_char(s[s.len() - 1]));
    }
    assert(ws_prefix_len(s) == 0);
    assert(s.skip(0) =~= s);
    assert(ws_suffix_len(s) == 0);
    assert(s.take(s.len() as int) =~= s);
}

/// Why a file around a plugin signature could not be used.
pub enum SigFileFailure {
    /// The plugin binary could not be read (while verifying).
    ReadBinary,
    /// The `.sig` file at the path could not be read.
    ReadSignature(String),
    /// The binary could not be read (while signing).
    ReadBinaryToSign,
    /// The `.sig` file could not be written.
    WriteSignature,
}

pub open spec fn sig_file_failure_text(f: SigFileFailure, cause: Seq<char>) -> Seq<char> {
    match f {
        SigFileFailure::ReadBinary => "Cannot read plugin binary: "@ + cause,
        SigFileFailure::ReadSignature(p) => "Cannot read .sig file '"@ + p@ + "': "@ + cause,
        SigFileFailure::ReadBinaryToSign => "Cannot read binary: "@ + cause,
        SigFileFailure::WriteSignature => "Cannot write .sig file: "@ + cause,
    }
}

/// The security error for a failed read or write, with its cause.
pub fn sig_file_error(f: &SigFileFailure, cause: &str) -> (r: AppError)
    ensures
        r matches AppError::SecurityError(m) && m@ == sig_file_failure_text(*f, cause@),
{
    let mut out: Vec<char> = Vec::new();
    match f {
        SigFileFailure::ReadBinary => push_str(&mut out, "Cannot read plugin binary: "),
        SigFileFailure::ReadSignature(p) => {
            push_str(&mut out, "Cannot read .sig file '");
            push_str(&mut out, p.as_str());
            push_str(&mut out, "': ");
        },
        SigFileFailure::ReadBinaryToSign => push_str(&mut out, "Cannot read binary: "),
        SigFileFailure::WriteSignature => push_str(&mut out, "Cannot write .sig file: "),
    }
    push_str(&mut out, cause);
    AppError::SecurityError(string_of(&out))
}

} // verus!
