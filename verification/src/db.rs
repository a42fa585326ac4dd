//! Passwords (Argon2) and the first-start admin account.

use vstd::prelude::*;
use vstd::utf8::encode_utf8;

use argon2::{PasswordHasher, PasswordVerifier};

verus! {

/// What Argon2 says of a password against a PHC hash string: whether it
/// matches, or the text of the error that parsing the hash gave.
pub uninterp spec fn argon2_check(plain: Seq<char>, hash: Seq<char>) -> Result<bool, Seq<char>>;

/// Hashes a password with Argon2 (default parameters) and a fresh random
/// salt from the operating system, in PHC string form; on failure the
/// error's text. The salt is random, so the hash itself is not stated; what
/// is claimed is that Argon2 accepts `plain` against every hash it made of
/// it (`argon2_check` gives `Ok(true)`), and that it fails only for a
/// password longer than Argon2's limit of `0xFFFF_FFFF` bytes.
#[verifier::external_body]
fn argon2_hash(plain: &str) -> (r: Result<String, String>)
    ensures
        match r {
            Ok(h) => argon2_check(plain@, h@) == Ok::<bool, Seq<char>>(true),
            Err(_) => encode_utf8(plain@).len() > 0xFFFF_FFFF,
        },
{
    let salt = argon2::password_hash::SaltString::generate(&mut argon2::password_hash::rand_core::OsRng);
    argon2::Argon2::default().hash_password(plain.as_bytes(), &salt).map(|h| h.to_string()).map_err(
        |e| e.to_string(),
    )
}

/// `PasswordHash::new(hash)`, then `Argon2::default().verify_password`,
/// whose success is the answer. The result is named, not stated.
#[verifier::external_body]
fn argon2_verify(plain: &str, hash: &str) -> (r: Result<bool, String>)
    ensures
        match r {
            Ok(b) => argon2_check(plain@, hash@) == Ok::<bool, Seq<char>>(b),
            Err(e) => argon2_check(plain@, hash@) == Err::<bool, Seq<char>>(e@),
        },
{
    match argon2::PasswordHash::new(hash) {
        Ok(parsed) => Ok(argon2::Argon2::default().verify_password(plain.as_bytes(), &parsed).is_ok()),
        Err(e) => Err(e.to_string()),
    }
}

/// A new Argon2 hash of `plain`, against which `plain` verifies; it fails,
/// with `argon2-Hash: <error>`, only for a password longer than
/// `0xFFFF_FFFF` bytes.
pub fn hash_password(plain: &str) -> (r: Result<String, String>)
    ensures
        r matches Ok(h) ==> argon2_check(plain@, h@) == Ok::<bool, Seq<char>>(true),
        encode_utf8(plain@).len() <= 0xFFFF_FFFF ==> r is Ok,
        r matches Err(e) ==> e@.len() >= 13 && e@.subrange(0, 13) == "argon2-Hash: "@,
{
    match argon2_hash(plain) {
        Ok(h) => Ok(h),
        Err(e) => {
            let mut m = String::from_str("argon2-Hash: ");
            m.append(e.as_str());
            proof {
                reveal_strlit("argon2-Hash: ");
                assert(m@.subrange(0, 13) =~= "argon2-Hash: "@);
            }
            Err(m)
        },
    }
}

/// The answer of `verify_password`: Argon2's verdict, or its parse error
/// after `argon2-Parse: `.
pub open spec fn verify_outcome(plain: Seq<char>, hash: Seq<char>) -> Result<bool, Seq<char>> {
    match argon2_check(plain, hash) {
        Ok(b) => Ok(b),
        Err(e) => Err("argon2-Parse: "@ + e),
    }
}

/// Whether `plain` matches the stored hash; `argon2-Parse: <error>` when
/// the stored hash does not parse.
pub fn verify_password(plain: &str, hash: &str) -> (r: Result<bool, String>)
    ensures
        match r {
            Ok(b) => verify_outcome(plain@, hash@) == Ok::<bool, Seq<char>>(b),
            Err(m) => verify_outcome(plain@, hash@) == Err::<bool, Seq<char>>(m@),
        },
{
    match argon2_verify(plain, hash) {
        Ok(b) => Ok(b),
        Err(e) => {
            let mut m = String::from_str("argon2-Parse: ");
            m.append(e.as_str());
            Err(m)
        },
    }
}

/// A password verifies against every hash that `hash_password` made of it.
pub proof fn lemma_own_hash_verifies(plain: Seq<char>, hash: Seq<char>)
    requires
        argon2_check(plain, hash) == Ok::<bool, Seq<char>>(true),
    ensures
        verify_outcome(plain, hash) == Ok::<bool, Seq<char>>(true),
{
}

/// What the first start does about the local `admin` account.
pub enum BootstrapAction {
    /// Create `admin` with this password; `default_password` when it is the
    /// built-in `admin`, which the operator should change at once.
    CreateAdmin { password: String, default_password: bool },
    /// Overwrite the password of the existing admin (id) and enable it.
    ResetPassword { id: i64, password: String },
    Nothing,
}

/// Decides the bootstrap from the id of an existing local `admin` (if any)
/// and a reset password (if one was given on the command line).
pub fn bootstrap_plan(existing: Option<i64>, reset_password: Option<&str>) -> (r: BootstrapAction)
    ensures
        existing is None ==> (r matches BootstrapAction::CreateAdmin { password, default_password }
            && default_password == (reset_password is None) && password@ == (match reset_password {
            Some(p) => p@,
            None => "admin"@,
        })),
        existing is Some && reset_password is Some ==> (r matches BootstrapAction::ResetPassword {
            id,
            password,
        } && id == existing->0 && password@ == reset_password->0@),
        existing is Some && reset_password is None ==> r is Nothing,
        r is CreateAdmin <==> existing is None,
{
    match (existing, reset_password) {
        (None, reset) => {
            let pw = match reset {
                Some(p) => p,
                None => "admin",
            };
            BootstrapAction::CreateAdmin {
                password: String::from_str(pw),
                default_password: reset.is_none(),
            }
        },
        (Some(id), Some(pw)) => BootstrapAction::ResetPassword { id, password: String::from_str(pw) },
        _ => BootstrapAction::Nothing,
    }
}

} // verus!
