//! Signed cookie values: a value travels as an HMAC-SHA256 signature, in base64,
//! followed by the value itself, under a key derived from a secret of at least
//! 32 bytes.
use vstd::prelude::*;
use tide::http::cookies::{Cookie, CookieJar, Key};

verus! {

/// Shortest secret from which a signing key can be derived.
pub const MIN_SECRET_LEN: usize = 32;

/// Length of the base64 signature in front of a signed value.
pub const DIGEST_LEN: usize = 44;

/// The signed form of `value` under `secret`.
pub uninterp spec fn signed_of(secret: Seq<u8>, value: Seq<char>) -> Seq<char>;

/// Every character of `s` is ASCII.
pub open spec fn ascii_only(s: Seq<char>) -> bool {
    forall|k: int| 0 <= k < s.len() ==> (#[trigger] s[k] as u32) < 128
}

/// Relies on `cookie::SignedJar::add` (cookie 0.14, re-exported by tide) with
/// `Key::derive_from`: the stored value becomes the 44-character base64
/// HMAC-SHA256 of the value, followed by the value. `derive_from` panics on a
/// secret shorter than 32 bytes.
#[verifier::external_body]
fn signed_jar_add(secret: &[u8], value: &str) -> (r: String)
    requires
        secret@.len() >= MIN_SECRET_LEN,
    ensures
        r@ == signed_of(secret@, value@),
        r@.len() == DIGEST_LEN + value@.len(),
        r@.subrange(DIGEST_LEN as int, r@.len() as int) == value@,
        ascii_only(r@.subrange(0, DIGEST_LEN as int)),
{
    let mut jar = CookieJar::new();
    jar.signed(&Key::derive_from(secret)).add(Cookie::new("sid", value.to_string()));
    jar.get("sid").unwrap().value().to_string()
}

/// Relies on `cookie::SignedJar::get` (cookie 0.14, re-exported by tide) with
/// `Key::derive_from`: a value that `SignedJar::add` signed under the same
/// secret verifies and yields the value that was signed; whatever verifies yields
/// the part after the signature. Its split at byte 44 needs a character
/// boundary there, which ASCII input gives.
#[verifier::external_body]
fn signed_jar_get(secret: &[u8], token: &str) -> (r: Option<String>)
    requires
        secret@.len() >= MIN_SECRET_LEN,
        ascii_only(token@),
    ensures
        r is Some || !exists|v: Seq<char>| #[trigger] signed_of(secret@, v) == token@,
        r matches Some(s) ==> token@.len() >= DIGEST_LEN && s@ == token@.subrange(
            DIGEST_LEN as int,
            token@.len() as int,
        ),
{
    let mut jar = CookieJar::new();
    jar.add_original(Cookie::new("sid", token.to_string()));
    jar.signed(&Key::derive_from(secret)).get("sid").map(|c| c.value().to_string())
}

/// Why a value could not be signed.
#[derive(Debug, Clone, Copy, PartialEq, Eq, Structural)]
pub enum SignError {
    /// The secret is shorter than 32 bytes.
    ShortSecret,
}

/// What signing `value` with `secret` returns: an error exactly when the
/// secret is too short, else the signed form, which is the signature followed
/// by the value, and ASCII exactly when the value is.
pub open spec fn sign_post(secret: Seq<u8>, value: Seq<char>, r: Result<Seq<char>, SignError>) -> bool {
    &&& secret.len() < MIN_SECRET_LEN <==> r is Err
    &&& r matches Ok(t) ==> {
        &&& t == signed_of(secret, value)
        &&& t.len() == DIGEST_LEN + value.len()
        &&& t.subrange(DIGEST_LEN as int, t.len() as int) == value
        &&& ascii_only(t) <==> ascii_only(value)
    }
}

/// What verifying `token` with `secret` returns: nothing for a short secret
/// or a token that is not ASCII; a value for every signed form of a value; and
/// whatever it returns is the part of the token after the signature.
pub open spec fn verify_post(secret: Seq<u8>, token: Seq<char>, r: Option<Seq<char>>) -> bool {
    &&& secret.len() < MIN_SECRET_LEN ==> r is None
    &&& !ascii_only(token) ==> r is None
    &&& (secret.len() >= MIN_SECRET_LEN && ascii_only(token) && exists|v: Seq<char>|
        #[trigger] signed_of(secret, v) == token) ==> r is Some
    &&& r matches Some(s) ==> token.len() >= DIGEST_LEN && s == token.subrange(
        DIGEST_LEN as int,
        token.len() as int,
    )
}

/// The value of an optional string.
pub open spec fn option_view(r: Option<String>) -> Option<Seq<char>> {
    match r {
        Some(s) => Some(s@),
        None => None,
    }
}

/// The value of a signing result.
pub open spec fn result_view(r: Result<String, SignError>) -> Result<Seq<char>, SignError> {
    match r {
        Ok(s) => Ok(s@),
        Err(e) => Err(e),
    }
}

/// Tests that every character of `s` is ASCII.
pub fn is_ascii_text(s: &str) -> (r: bool)
    ensures
        r == ascii_only(s@),
{
    let n = s.unicode_len();
    let mut i: usize = 0;
    while i < n
        invariant
            i <= n,
            n == s@.len(),
            forall|k: int| 0 <= k < i ==> (#[trigger] s@[k] as u32) < 128,
        decreases n - i,
    {
        if s.get_char(i) as u32 >= 128 {
            return false;
        }
        i = i + 1;
    }
    true
}

/// Signs `value` with `secret`.
pub fn sign(value: &str, secret: &[u8]) -> (r: Result<String, SignError>)
    ensures
        sign_post(secret@, value@, result_view(r)),
{
    if secret.len() < MIN_SECRET_LEN {
        return Err(SignError::ShortSecret);
    }
    let t = signed_jar_add(secret, value);
    proof {
        let d = DIGEST_LEN as int;
        if ascii_only(value@) {
            assert forall|k: int| 0 <= k < t@.len() implies (#[trigger] t@[k] as u32) < 128 by {
                if k < d {
                    assert(t@[k] == t@.subrange(0, d)[k]);
                } else {
                    assert(t@[k] == t@.subrange(d, t@.len() as int)[k - d]);
                }
            }
        }
        if ascii_only(t@) {
            assert forall|k: int| 0 <= k < value@.len() implies (#[trigger] value@[k] as u32) < 128 by {
                assert(value@[k] == t@.subrange(d, t@.len() as int)[k]);
                assert((t@[k + d] as u32) < 128);
            }
        }
    }
    Ok(t)
}

/// Checks the signature on `token` and returns the value it carries. A secret
/// too short to derive a key from, or a token with a character that is not
/// ASCII, verifies nothing.
pub fn verify(token: &str, secret: &[u8]) -> (r: Option<String>)
    ensures
        verify_post(secret@, token@, option_view(r)),
{
    if secret.len() < MIN_SECRET_LEN || !is_ascii_text(token) {
        return None;
    }
    signed_jar_get(secret, token)
}

/// A value signed with a long enough secret is recovered by verifying its
/// signed form with the same secret, whenever the value is ASCII (as session
/// tokens are).
pub proof fn lemma_sign_then_verify(
    secret: Seq<u8>,
    value: Seq<char>,
    token: Seq<char>,
    r: Option<Seq<char>>,
)
    requires
        secret.len() >= MIN_SECRET_LEN,
        ascii_only(value),
        sign_post(secret, value, Ok(token)),
        verify_post(secret, token, r),
    ensures
        r == Some(value),
{
    assert(signed_of(secret, value) == token);
}

} // verus!
