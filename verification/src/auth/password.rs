//! Password hashing for tenant IAM accounts (bcrypt: self-salting, adaptive cost).

use vstd::prelude::*;
use vstd::utf8::encode_utf8;

verus! {

#[verifier::external_type_specification]
#[verifier::external_body]
pub struct ExBcryptError(bcrypt::BcryptError);

/// The work factor every new hash is made with.
pub const HASH_COST: u32 = 12;

/// What `bcrypt::verify(plain, hash)` answers: `Some(matches)`, or `None` when
/// the stored hash cannot be read.
pub uninterp spec fn bcrypt_check(plain: Seq<char>, hash: Seq<char>) -> Option<bool>;

/// Calls `bcrypt::hash` with the cost above. The salt is random, so only the
/// shape of the result is stated: `$2b$12$`, then 53 characters of salt and
/// hash; and `bcrypt::verify` of the same password against it answers `true`,
/// as it recomputes the hash with the stored cost and salt.
/// An error is handed back as the text bcrypt's `Display` writes for it.
#[verifier::external_body]
fn bcrypt_hash(plain: &str) -> (r: Result<String, String>)
    ensures
        r matches Ok(h) ==> h@.len() == 60 && h@.take(7) == "$2b$12$"@ && bcrypt_check(plain@, h@)
            == Some(true),
{
    match bcrypt::hash(plain, HASH_COST) {
        Ok(h) => Ok(h),
        Err(e) => Err(format!("{e}")),
    }
}

/// Calls `bcrypt::verify`: a function of the password and the stored hash alone.
/// A stored hash is read as three non-empty `$`-separated parts: a two-letter
/// version, a cost and 53 characters of salt and hash; so a text without `$`,
/// or shorter than 58 bytes, is refused.
#[verifier::external_body]
fn bcrypt_verify(plain: &str, hash: &str) -> (r: Result<bool, bcrypt::BcryptError>)
    ensures
        match r {
            Ok(b) => bcrypt_check(plain@, hash@) == Some(b),
            Err(_) => bcrypt_check(plain@, hash@) is None,
        },
        !hash@.contains('$') ==> r is Err,
        encode_utf8(hash@).len() < 58 ==> r is Err,
{
    bcrypt::verify(plain, hash)
}

/// Why a password could not be hashed.
#[derive(Debug)]
pub struct HashError {
    pub message: String,
}

/// Whether `message` reports a failed hash: `hash failed: ` and bcrypt's
/// own words.
pub open spec fn hash_failure(message: Seq<char>) -> bool {
    exists|detail: Seq<char>| message == "hash failed: "@ + detail
}

/// Hashes a plaintext password for storage. A hash is never the plaintext:
/// it is 60 characters starting `$2b$12$`, and the same password verifies against it.
/// bcrypt refuses only when the system gives it no random salt; the error
/// then says `hash failed: ` followed by bcrypt's message.
pub fn hash_password(plain: &str) -> (r: Result<String, HashError>)
    ensures
        r matches Ok(h) ==> h@.len() == 60 && h@.take(7) == "$2b$12$"@ && bcrypt_check(plain@, h@)
            == Some(true),
        r matches Err(e) ==> hash_failure(e.message@),
{
    match bcrypt_hash(plain) {
        Ok(h) => Ok(h),
        Err(detail) => {
            let mut message = crate::text::to_owned("hash failed: ");
            message.append(detail.as_str());
            assert(message@ == "hash failed: "@ + detail@);
            Err(HashError { message })
        },
    }
}

/// Whether `plain` matches the stored hash; an unreadable hash simply fails,
/// among them any text without `$` or shorter than 58 bytes.
pub fn verify_password(plain: &str, hash: &str) -> (b: bool)
    ensures
        b == (bcrypt_check(plain@, hash@) == Some(true)),
        !hash@.contains('$') ==> !b,
        encode_utf8(hash@).len() < 58 ==> !b,
{
    match bcrypt_verify(plain, hash) {
        Ok(b) => b,
        Err(_) => false,
    }
}

} // verus!
