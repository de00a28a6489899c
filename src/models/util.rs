//! Helpers of the models: the identity of a request, credential encoding,
//! token values and signing-key material.

use vstd::prelude::*;

use argon2::password_hash::rand_core::OsRng;
use argon2::password_hash::{PasswordHashString, PasswordHasher, SaltString};
use argon2::Argon2;
use base64::Engine;
use rsa::pkcs1::EncodeRsaPrivateKey;
use rsa::pkcs8::{EncodePublicKey, LineEnding};
use rsa::{RsaPrivateKey, RsaPublicKey};

use super::{DbError, MailUser, QueryResult};

verus! {

// ----- outside types and functions relied on -----

#[verifier::external_type_specification]
#[verifier::external_body]
pub struct ExRsaPrivateKey(RsaPrivateKey);

#[verifier::external_type_specification]
#[verifier::external_body]
pub struct ExRsaPublicKey(RsaPublicKey);

#[verifier::external_type_specification]
#[verifier::external_body]
pub struct ExRsaError(rsa::Error);

#[verifier::external_type_specification]
#[verifier::external_body]
pub struct ExPkcs1Error(rsa::pkcs1::Error);

#[verifier::external_type_specification]
#[verifier::external_body]
pub struct ExSpkiError(rsa::pkcs8::spki::Error);

#[verifier::external_type_specification]
#[verifier::external_body]
pub struct ExSaltString(SaltString);

#[verifier::external_type_specification]
#[verifier::external_body]
pub struct ExPasswordHashError(argon2::password_hash::Error);

/// Relies on `rand::random`: a value drawn from the thread-local generator;
/// nothing is known of which.
pub assume_specification<T>[ rand::random::<T> ]() -> (r: T)
    where
        rand::distributions::Standard: rand::distributions::Distribution<T>,
;

/// Relies on `String::push`: the character is appended.
#[verifier::external_body]
fn push_char(s: &mut String, c: char)
    ensures
        final(s)@ == old(s)@.push(c),
{
    s.push(c)
}

/// Relies on `RsaPrivateKey::new`: a fresh RSA key of `bits` bits, drawn from
/// the operating system's random source, or the error met doing so.
#[verifier::external_body]
fn generate_private_key(bits: usize) -> (r: Result<RsaPrivateKey, rsa::Error>) {
    RsaPrivateKey::new(&mut OsRng, bits)
}

/// Relies on `RsaPrivateKey::to_public_key`: the public half of a key.
#[verifier::external_body]
fn public_half(key: &RsaPrivateKey) -> (r: RsaPublicKey) {
    key.to_public_key()
}

/// Relies on `EncodeRsaPrivateKey::to_pkcs1_pem`: the key as PKCS#1 PEM text
/// with LF line endings.
#[verifier::external_body]
fn private_key_pem(key: &RsaPrivateKey) -> (r: Result<String, rsa::pkcs1::Error>) {
    key.to_pkcs1_pem(LineEnding::LF).map(|pem| pem.to_string())
}

/// Relies on `EncodePublicKey::to_public_key_der`: the DER encoding of the
/// key's SubjectPublicKeyInfo.
#[verifier::external_body]
fn public_key_der(key: &RsaPublicKey) -> (r: Result<Vec<u8>, rsa::pkcs8::spki::Error>) {
    key.to_public_key_der().map(|doc| doc.into_vec())
}

/// Standard base64 (RFC 4648 alphabet, with padding) of `b`.
pub uninterp spec fn base64_standard(b: Seq<u8>) -> Seq<char>;

/// Relies on base64's `STANDARD` engine, `Engine::encode`: padded base64 of
/// the bytes, four characters for every three bytes or part of them. It
/// panics only where that length overflows `usize`.
#[verifier::external_body]
fn base64_encode(b: &Vec<u8>) -> (r: String)
    requires
        b@.len() <= usize::MAX / 2,
    ensures
        r@ == base64_standard(b@),
        r@.len() == 4 * ((b@.len() + 2) / 3),
{
    base64::engine::general_purpose::STANDARD.encode(b)
}

/// The text of a well-formed PHC password-hash string `s`, re-serialised, or
/// `None` where `s` is not one.
pub uninterp spec fn phc_reformat(s: Seq<char>) -> Option<Seq<char>>;

/// Relies on `PasswordHashString::new`: parses a PHC string; `as_str` gives
/// its serialisation.
#[verifier::external_body]
fn reformat_phc(s: &str) -> (r: Option<String>)
    ensures
        match r {
            Some(h) => phc_reformat(s@) == Some(h@),
            None => phc_reformat(s@) is None,
        },
{
    PasswordHashString::new(s).ok().map(|h| h.as_str().to_string())
}

/// Relies on `SaltString::generate`: a random salt from the operating
/// system's random source.
#[verifier::external_body]
fn fresh_salt() -> (r: SaltString) {
    SaltString::generate(&mut OsRng)
}

/// The marker that every PHC string made by the default Argon2 hasher starts
/// with.
pub open spec fn is_argon2id_phc(h: Seq<char>) -> bool {
    h.len() > 10 && h.subrange(0, 10) == seq!['$', 'a', 'r', 'g', 'o', 'n', '2', 'i', 'd', '$']
}

/// Relies on `Argon2::default().hash_password`: Argon2id with the default
/// parameters over the secret's bytes and the salt; its `Display` gives the
/// PHC string, which starts with `$argon2id$`.
#[verifier::external_body]
fn argon2id_hash(secret: &str, salt: &SaltString) -> (r: Result<String, argon2::password_hash::Error>)
    ensures
        r matches Ok(h) ==> is_argon2id_phc(h@),
{
    Argon2::default().hash_password(secret.as_bytes(), salt).map(|h| h.to_string())
}

// ----- identity of a request -----

/// What an identity holds.
pub struct AuthView {
    pub token: Seq<char>,
    pub user: i32,
    pub username: Seq<char>,
    pub superuser: bool,
}

/// The identity behind a request: the bearer token it presented and the user
/// that owns that token.
#[derive(Debug, Clone)]
pub struct Authorisation {
    token: String,
    user: i32,
    username: String,
    superuser: bool,
}

impl View for Authorisation {
    type V = AuthView;

    closed spec fn view(&self) -> AuthView {
        AuthView {
            token: self.token@,
            user: self.user,
            username: self.username@,
            superuser: self.superuser,
        }
    }
}

impl Authorisation {
    /// The identity of `user`, who presented `token`.
    pub fn new(token: String, user: &MailUser) -> (r: Self)
        ensures
            r@ == (AuthView {
                token: token@,
                user: user.id,
                username: user.username@,
                superuser: user.superuser,
            }),
    {
        Authorisation {
            token,
            user: user.id,
            username: user.username.clone(),
            superuser: user.superuser,
        }
    }

    pub fn token(&self) -> (r: &str)
        ensures
            r@ == self@.token,
    {
        self.token.as_str()
    }

    pub fn user(&self) -> (r: i32)
        ensures
            r == self@.user,
    {
        self.user
    }

    pub fn username(&self) -> (r: &str)
        ensures
            r@ == self@.username,
    {
        self.username.as_str()
    }

    pub fn superuser(&self) -> (r: bool)
        ensures
            r == self@.superuser,
    {
        self.superuser
    }
}

// ----- credentials -----

/// The tag in front of every encoded secret.
pub open spec fn secret_tag() -> Seq<char> {
    seq!['{', 'A', 'R', 'G', 'O', 'N', '2', 'I', 'D', '}']
}

/// `s` is already an encoded secret: it carries the tag.
pub open spec fn is_tagged(s: Seq<char>) -> bool {
    s.len() >= 10 && s.subrange(0, 10) == secret_tag()
}

/// `e` is a stored encoding of the secret `password`: for a tagged value, the
/// tag followed by its PHC string as parsed and written back; otherwise the
/// tag followed by the PHC string of an Argon2id hash.
pub open spec fn encodes(password: Seq<char>, e: Seq<char>) -> bool {
    if is_tagged(password) {
        phc_reformat(password.skip(10)) matches Some(h) && e == secret_tag() + h
    } else {
        is_tagged(e) && is_argon2id_phc(e.skip(10))
    }
}

/// Encoding `password` can fail: it is hashed with a random salt, or it is a
/// tagged value that holds no PHC string.
pub open spec fn encoding_may_fail(password: Seq<char>) -> bool {
    !is_tagged(password) || phc_reformat(password.skip(10)) is None
}

/// Encodes a login secret for storage: the tag, then the PHC string of an
/// Argon2id hash with a fresh salt. A value that already carries the tag is
/// not hashed again: its PHC string is parsed and written back. `None` where
/// hashing fails or a tagged value holds no PHC string.
pub fn encode_password(password: &str) -> (r: Option<String>)
    ensures
        is_tagged(password@) ==> match phc_reformat(password@.skip(10)) {
            Some(h) => r matches Some(e) && e@ == secret_tag() + h,
            None => r is None,
        },
        !is_tagged(password@) ==> (r matches Some(e) ==> is_argon2id_phc(e@.skip(10))),
        r matches Some(e) ==> is_tagged(e@),
        match r {
            Some(e) => encodes(password@, e@),
            None => encoding_may_fail(password@),
        },
{
    proof {
        reveal_strlit("{ARGON2ID}");
        assert("{ARGON2ID}"@ =~= secret_tag());
    }
    let n = password.unicode_len();
    let mut tagged = n >= 10;
    if tagged {
        let head = String::from_str(password.substring_char(0, 10));
        let tag = String::from_str("{ARGON2ID}");
        tagged = head == tag;
    }
    assert(tagged == is_tagged(password@));
    if tagged {
        assert(password@.subrange(10, n as int) =~= password@.skip(10));
        match reformat_phc(password.substring_char(10, n)) {
            Some(h) => {
                let mut out = String::from_str("{ARGON2ID}");
                out.append(h.as_str());
                assert(out@.subrange(0, 10) =~= secret_tag());
                Some(out)
            },
            None => None,
        }
    } else {
        let salt = fresh_salt();
        match argon2id_hash(password, &salt) {
            Ok(h) => {
                let mut out = String::from_str("{ARGON2ID}");
                out.append(h.as_str());
                assert(out@.subrange(0, 10) =~= secret_tag());
                assert(out@.skip(10) =~= h@);
                Some(out)
            },
            Err(_) => None,
        }
    }
}

// ----- token values -----

/// Lower-case hexadecimal digits.
pub open spec fn is_hex_digit(c: char) -> bool {
    ('0' <= c <= '9') || ('a' <= c <= 'f')
}

/// A token value: 32 lower-case hexadecimal digits.
pub open spec fn is_token_value(s: Seq<char>) -> bool {
    s.len() == 32 && forall|i: int| 0 <= i < 32 ==> is_hex_digit(#[trigger] s[i])
}

/// A fresh random token value: the 128 bits of a random number as 32
/// hexadecimal digits.
pub fn new_token_value() -> (r: String)
    ensures
        is_token_value(r@),
{
    let digits: [char; 16] = [
        '0', '1', '2', '3', '4', '5', '6', '7', '8', '9', 'a', 'b', 'c', 'd', 'e', 'f',
    ];
    let mut x: u128 = rand::random::<u128>();
    let mut out = String::new();
    let mut i: usize = 0;
    while i < 32
        invariant
            i <= 32,
            out@.len() == i,
            forall|k: int| 0 <= k < i ==> is_hex_digit(#[trigger] out@[k]),
            digits@ == seq!['0', '1', '2', '3', '4', '5', '6', '7', '8', '9', 'a', 'b', 'c', 'd', 'e', 'f'],
        decreases 32 - i,
    {
        let d = (x % 16) as usize;
        x = x / 16;
        push_char(&mut out, digits[d]);
        i = i + 1;
    }
    out
}

// ----- signing keys -----

/// The size of generated signing keys, in bits.
pub const KEY_BITS: usize = 2048;

/// A fresh signing key pair for a domain: the private half as PKCS#1 PEM, the
/// public half as base64 of its DER SubjectPublicKeyInfo.
pub fn create_dkim_pair() -> (r: QueryResult<(String, String)>)
    ensures
        match r {
            Ok((_, public)) => exists|der: Seq<u8>| public@ == #[trigger] base64_standard(der),
            Err(e) => e is KeyMaterial,
        },
{
    let key = match generate_private_key(KEY_BITS) {
        Ok(k) => k,
        Err(_) => return Err(DbError::KeyMaterial(String::from_str("key generation failed"))),
    };
    let public = public_half(&key);
    let pem = match private_key_pem(&key) {
        Ok(p) => p,
        Err(_) => return Err(DbError::KeyMaterial(String::from_str("private key encoding failed"))),
    };
    let der = match public_key_der(&public) {
        Ok(d) => d,
        Err(_) => return Err(DbError::KeyMaterial(String::from_str("public key encoding failed"))),
    };
    if der.len() > usize::MAX / 2 {
        return Err(DbError::KeyMaterial(String::from_str("public key too long")));
    }
    let encoded = base64_encode(&der);
    Ok((pem, encoded))
}

} // verus!
