//! Identity keys.
//!
//! Keys are Ed25519 key pairs from `fastn_id52`; a public key is written as
//! its 52-character ID52 text.  The library holds a secret key as its 32
//! secret bytes: a daemon key file holds those bytes, an identity key file
//! holds the key's text (64 hexadecimal digits).

use vstd::prelude::*;

verus! {

/// An Ed25519 secret key.
#[verifier::external_type_specification]
#[verifier::external_body]
pub struct ExSecretKey(fastn_id52::SecretKey);

/// An Ed25519 public key.
#[verifier::external_type_specification]
#[verifier::external_body]
pub struct ExPublicKey(fastn_id52::PublicKey);

/// `fastn_id52::SecretKey::generate`: a fresh key from the operating
/// system's random number generator.  Nothing is stated of the key.
#[verifier::external_body]
pub(crate) fn generate_secret_key() -> (k: fastn_id52::SecretKey) {
    fastn_id52::SecretKey::generate()
}

/// `fastn_id52::SecretKey::generate` and `SecretKey::to_bytes`: the 32
/// secret bytes of a fresh key from the operating system's random number
/// generator.  Nothing is stated of them.
#[verifier::external_body]
pub(crate) fn generate_secret_bytes() -> (b: [u8; 32]) {
    fastn_id52::SecretKey::generate().to_bytes()
}

/// The ID52 text of the public half of the secret key with bytes `bytes`
/// (what `SecretKey::from_bytes(bytes).id52()` returns).
pub uninterp spec fn id52_of_secret(bytes: Seq<u8>) -> Seq<char>;

/// `fastn_id52::SecretKey::from_bytes` and `SecretKey::id52`: the ID52 text
/// of the key whose secret bytes are `bytes`, as `id52_of_secret` names it;
/// it is 52 characters of BASE32_DNSSEC.
#[verifier::external_body]
pub(crate) fn secret_bytes_id52(bytes: &[u8; 32]) -> (s: String)
    ensures
        s@ == id52_of_secret(bytes@),
        s@.len() == 52,
{
    fastn_id52::SecretKey::from_bytes(bytes).id52()
}

/// The secret bytes of the key that `<fastn_id52::SecretKey as FromStr>`
/// reads from `text`, or `None` when it does not parse.
pub uninterp spec fn secret_text_bytes(text: Seq<char>) -> Option<Seq<u8>>;

/// Whether `text` has one of the two lengths that `FromStr` for secret keys
/// decodes: 64 bytes (hexadecimal) or 52 bytes (BASE32 without padding).
/// On text of any other length the decoder it calls panics.
pub open spec fn key_text_length_ok(text: Seq<char>) -> bool {
    let n = vstd::utf8::encode_utf8(text).len();
    n == 64 || n == 52
}

/// `<fastn_id52::SecretKey as FromStr>::from_str` and `SecretKey::to_bytes`:
/// the secret bytes of the key written as `text`, as `secret_text_bytes`
/// names them.
#[verifier::external_body]
pub(crate) fn parse_secret_text(text: &str) -> (r: Option<[u8; 32]>)
    requires
        key_text_length_ok(text@),
    ensures
        match r {
            Some(b) => secret_text_bytes(text@) == Some(b@),
            None => secret_text_bytes(text@) is None,
        },
{
    match text.parse::<fastn_id52::SecretKey>() {
        Ok(k) => Some(k.to_bytes()),
        Err(_) => None,
    }
}

/// `fastn_id52::SecretKey::from_bytes` and its `Display`: the text of the key
/// whose secret bytes are `bytes`, 64 lowercase hexadecimal digits (64
/// bytes).  Reading that text back with `FromStr` (which decodes 64-byte
/// text as lowercase hexadecimal) gives the same bytes.
#[verifier::external_body]
pub(crate) fn secret_text(bytes: &[u8; 32]) -> (s: String)
    ensures
        s@.len() == 64,
        vstd::utf8::encode_utf8(s@).len() == 64,
        secret_text_bytes(s@) == Some(bytes@),
{
    fastn_id52::SecretKey::from_bytes(bytes).to_string()
}

/// The error message of parsing `s` as an ID52 public key, or `None` when it parses.
pub uninterp spec fn id52_error(s: Seq<char>) -> Option<Seq<char>>;

/// `<fastn_id52::PublicKey as FromStr>::from_str`, with the error rendered as
/// text: parsing succeeds or fails, and fails with the message, as
/// `id52_error` names for the input text.
#[verifier::external_body]
pub(crate) fn parse_public_key(s: &str) -> (r: Result<fastn_id52::PublicKey, String>)
    ensures
        r is Ok <==> id52_error(s@) is None,
        r matches Err(m) ==> id52_error(s@) == Some(m@),
{
    match s.parse::<fastn_id52::PublicKey>() {
        Ok(k) => Ok(k),
        Err(e) => Err(format!("{}", e)),
    }
}

/// The 32 bytes of a stored secret key: what a key file holds when it holds
/// exactly 32 bytes, nothing otherwise.
pub open spec fn stored_key_bytes(file: Option<Seq<u8>>) -> Option<Seq<u8>> {
    match file {
        Some(b) => if b.len() == 32 {
            Some(b)
        } else {
            None
        },
        None => None,
    }
}

/// The secret bytes of a daemon key file, given its contents (`None` when it
/// is missing or unreadable): the contents when they are exactly 32 bytes.
pub fn decode_key_file(file: Option<Vec<u8>>) -> (r: Option<[u8; 32]>)
    ensures
        match r {
            Some(b) => stored_key_bytes(file.deep_view()) == Some(b@),
            None => stored_key_bytes(file.deep_view()) is None,
        },
{
    match file {
        Some(bytes) => {
            if bytes.len() == 32 {
                let mut out = [0u8; 32];
                let mut i: usize = 0;
                while i < 32
                    invariant
                        i <= 32,
                        bytes@.len() == 32,
                        forall|j: int| 0 <= j < i ==> out@[j] == bytes@[j],
                    decreases 32 - i,
                {
                    out[i] = bytes[i];
                    i = i + 1;
                }
                assert(out@ =~= bytes@);
                Some(out)
            } else {
                None
            }
        },
        None => None,
    }
}

/// The secret bytes of the key that a text key file holds (`None` when the
/// file is missing or unreadable, or when its text has a length that no key
/// text has).
pub open spec fn stored_key_text(file: Option<Seq<char>>) -> Option<Seq<u8>> {
    match file {
        Some(t) => if key_text_length_ok(t) {
            secret_text_bytes(t)
        } else {
            None
        },
        None => None,
    }
}

/// The secret bytes of the key in a text key file, given its contents
/// (`None` when the file is missing or unreadable): exactly the key the text
/// denotes, and none when it denotes no key.
pub fn load_secret_key(file: Option<String>) -> (r: Option<[u8; 32]>)
    ensures
        match r {
            Some(b) => stored_key_text(file.deep_view()) == Some(b@),
            None => stored_key_text(file.deep_view()) is None,
        },
{
    match file {
        Some(text) => {
            let s = text.as_str();
            let n = s.as_bytes().len();
            if n == 64 || n == 52 {
                parse_secret_text(s)
            } else {
                None
            }
        },
        None => None,
    }
}

} // verus!
