//! Password hashing with Argon2.
//!
//! The hashing itself is the work of the `argon2` crate and is not verified
//! here. This module gives its result a name, [`argon2_phc`], so that the
//! contracts of the crate can say which hash an account ends up with.

use vstd::prelude::*;
use argon2::password_hash::rand_core::{OsRng, RngCore};
use argon2::password_hash::{Salt, SaltString};
use argon2::{Argon2, PasswordHasher};

verus! {

/// The error type of the `password-hash` crate, carried through unread.
#[verifier::external_type_specification]
#[verifier::external_body]
pub struct ExPasswordHashError(argon2::password_hash::Error);

/// The PHC string that `Argon2::default().hash_password` produces for a
/// password and a salt in B64 text, or `None` where the salt is refused or
/// the hasher returns an error, as it does for a salt that decodes to fewer
/// than 8 bytes.
pub uninterp spec fn argon2_phc(password: Seq<char>, salt: Seq<char>) -> Option<Seq<char>>;

/// Calls `Salt::from_b64` on `salt`, then `PasswordHasher::hash_password` on
/// `Argon2::default()` with the bytes of `password`, and renders the hash
/// with `to_string`. Trusted: the outcome is a function of the password and
/// the salt alone, and [`argon2_phc`] is the name of that function.
#[verifier::external_body]
fn argon2_hash(password: &str, salt: &str) -> (hashed: Result<String, argon2::password_hash::Error>)
    ensures
        match hashed {
            Ok(phc) => argon2_phc(password@, salt@) == Some(phc@),
            Err(_) => argon2_phc(password@, salt@).is_none(),
        },
{
    let salt = Salt::from_b64(salt)?;
    let hash = Argon2::default().hash_password(password.as_bytes(), salt)?;
    Ok(hash.to_string())
}

/// Whether hashing under `salt` succeeds whatever the password, as long as
/// the password has at most `0x3fff_ffff` characters, so that its bytes are
/// no more than the hasher takes.
pub open spec fn usable_salt(salt: Seq<char>) -> bool {
    forall|password: Seq<char>|
        password.len() <= 0x3fff_ffff ==> (#[trigger] argon2_phc(password, salt)) is Some
}

/// Draws `Salt::RECOMMENDED_LENGTH` bytes from the operating system's random
/// number generator with `RngCore::try_fill_bytes`, encodes them with
/// `SaltString::encode_b64` and copies the text out; `None` where the
/// operating system supplies no random bytes. Trusted: the text differs from
/// call to call, and all that is claimed of it is that the hasher takes it,
/// being the B64 text of sixteen bytes.
#[verifier::external_body]
pub(crate) fn generate_salt() -> (salt: Option<String>)
    ensures
        salt matches Some(text) ==> usable_salt(text@),
{
    let mut bytes = [0u8; Salt::RECOMMENDED_LENGTH];
    OsRng.try_fill_bytes(&mut bytes).ok()?;
    let salt = SaltString::encode_b64(&bytes).ok()?;
    Some(salt.as_str().to_owned())
}

/// The Argon2 hash of `password` under `salt`, as a PHC string; `None`
/// exactly where the hasher rejects the password or the salt.
pub fn hash_password(password: &str, salt: &str) -> (hashed: Option<String>)
    ensures
        match hashed {
            Some(phc) => argon2_phc(password@, salt@) == Some(phc@),
            None => argon2_phc(password@, salt@).is_none(),
        },
{
    match argon2_hash(password, salt) {
        Ok(phc) => Some(phc),
        Err(_) => None,
    }
}

} // verus!
