//! The first-run decision about the administrator account: whether one has
//! to be created, and with which credential.

use vstd::prelude::*;

verus! {

/// The error of the bcrypt crate. Nothing is read from it.
#[verifier::external_type_specification]
#[verifier::external_body]
pub struct ExBcryptError(bcrypt::BcryptError);

/// The work factor with which the administrator's password is hashed.
pub const ADMIN_HASH_COST: u32 = 4;

/// The number of characters of a bcrypt hash string.
pub const HASH_LENGTH: usize = 60;

/// What the bootstrap has to do about the administrator account.
#[derive(Debug, PartialEq, Eq)]
pub enum BootstrapAction {
    /// The account exists: nothing is written.
    Nothing,
    /// No account exists: one is to be created with this email and this
    /// password hash.
    CreateAdmin { email: String, password_hash: String },
}

/// Why the bootstrap could not decide.
#[derive(Debug)]
pub enum BootstrapError {
    /// The administrator's password could not be hashed, for this cause.
    PasswordHash(bcrypt::BcryptError),
}

/// The hash string that the bcrypt crate gives for a password, a work factor
/// and a salt of 16 bytes: what `bcrypt::hash_with_salt` returns, written in
/// the version `2b`. It is a function of these three alone.
pub uninterp spec fn bcrypt_hash_with_salt(password: Seq<char>, cost: u32, salt: Seq<u8>) -> Seq<char>;

/// The character of a decimal digit.
pub open spec fn digit(value: int) -> char {
    if value == 0 {
        '0'
    } else if value == 1 {
        '1'
    } else if value == 2 {
        '2'
    } else if value == 3 {
        '3'
    } else if value == 4 {
        '4'
    } else if value == 5 {
        '5'
    } else if value == 6 {
        '6'
    } else if value == 7 {
        '7'
    } else if value == 8 {
        '8'
    } else {
        '9'
    }
}

/// How a bcrypt hash string of the version `2b` begins: the version and the
/// work factor in two digits, each after a dollar sign, and a dollar sign.
pub open spec fn hash_prefix(cost: u32) -> Seq<char> {
    seq!['$', '2', 'b', '$', digit(cost as int / 10), digit(cost as int % 10), '$']
}

/// Calls `bcrypt::hash`, which draws a random salt of 16 bytes and hashes
/// `password` with it and with the work factor `cost`, as
/// `bcrypt::hash_with_salt` does for a given salt. The salt is random, so
/// two calls on one password need not agree, and the call fails where no
/// randomness is to be had. Claimed of every outcome: a hash comes back only
/// for a work factor from 4 to 31; it is the hash of this password and this
/// work factor for some salt; and it is the 60 characters in which the crate
/// writes the version, the work factor, the salt and the digest, in this
/// order.
#[verifier::external_body]
fn hash_password(password: &str, cost: u32) -> (hashed: Result<String, bcrypt::BcryptError>)
    ensures
        hashed matches Ok(hash) ==> {
            &&& 4 <= cost <= 31
            &&& hash@.len() == HASH_LENGTH
            &&& hash@.subrange(0, 7) == hash_prefix(cost)
            &&& exists|salt: Seq<u8>|
                salt.len() == 16 && hash@ == #[trigger] bcrypt_hash_with_salt(password@, cost, salt)
        },
{
    bcrypt::hash(password, cost)
}

/// What follows the hashing of the administrator's password: where it gave a
/// hash, the account is to be created with `admin_email` and that hash;
/// where it failed, the bootstrap fails with the cause.
pub fn admin_account(admin_email: String, hashed: Result<String, bcrypt::BcryptError>) -> (decided:
    Result<BootstrapAction, BootstrapError>)
    ensures
        match hashed {
            Ok(hash) => decided matches Ok(BootstrapAction::CreateAdmin { email, password_hash })
                && email == admin_email && password_hash == hash,
            Err(cause) => decided matches Err(BootstrapError::PasswordHash(reason)) && reason
                == cause,
        },
{
    match hashed {
        Ok(hash) => Ok(BootstrapAction::CreateAdmin { email: admin_email, password_hash: hash }),
        Err(cause) => Err(BootstrapError::PasswordHash(cause)),
    }
}

/// Decides what the bootstrap does about the administrator account.
/// `admin_exists` says whether a user with the configured administrator
/// email was found. Where one was, nothing is to be done and the password is
/// not touched. Where none was, `admin_password` is hashed with
/// [`ADMIN_HASH_COST`] and a fresh salt, and the account is to be created
/// with the email and that hash; a failure to hash is handed on.
pub fn bootstrap_admin(admin_exists: bool, admin_email: String, admin_password: &str) -> (decided:
    Result<BootstrapAction, BootstrapError>)
    ensures
        admin_exists ==> decided matches Ok(BootstrapAction::Nothing),
        !admin_exists ==> match decided {
            Ok(BootstrapAction::CreateAdmin { email, password_hash }) => {
                &&& email == admin_email
                &&& password_hash@.len() == HASH_LENGTH
                &&& password_hash@.subrange(0, 7) == "$2b$04$"@
                &&& exists|salt: Seq<u8>|
                    salt.len() == 16 && password_hash@ == #[trigger] bcrypt_hash_with_salt(
                        admin_password@,
                        ADMIN_HASH_COST,
                        salt,
                    )
            },
            Ok(BootstrapAction::Nothing) => false,
            Err(_) => true,
        },
{
    if admin_exists {
        return Ok(BootstrapAction::Nothing);
    }
    let hashed = hash_password(admin_password, ADMIN_HASH_COST);
    proof {
        reveal_strlit("$2b$04$");
        assert(hash_prefix(ADMIN_HASH_COST) =~= "$2b$04$"@);
    }
    admin_account(admin_email, hashed)
}

} // verus!
