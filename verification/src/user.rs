//! The credential model: a user, the hash of its password, and the check of a
//! presented password against a stored hash.

use vstd::prelude::*;
use vstd::string::StringExecFns;
use crate::text::push_signed_decimal;
use crate::text::signed_decimal;
use argon2::password_hash::PasswordHash;
use argon2::password_hash::PasswordHasher;
use argon2::password_hash::PasswordVerifier;
use argon2::password_hash::SaltString;
use argon2::Argon2;
use rand::rngs::OsRng;

verus! {

/// A salt in the text form that the hash function takes.
#[verifier::external_type_specification]
#[verifier::external_body]
pub struct ExSaltString(argon2::password_hash::SaltString);

/// The failure that the hash function reports.
#[verifier::external_type_specification]
#[verifier::external_body]
pub struct ExPasswordHashError(argon2::password_hash::Error);

/// What checking the bytes of a password against the text of a stored hash
/// gives: `None` where the text is no hash in PHC string format, else whether
/// Argon2, run with the parameters and the salt that the text holds, yields
/// the digest that the text holds.
pub uninterp spec fn stored_hash_check(password: Seq<u8>, stored: Seq<char>) -> Option<bool>;

/// Whether `stored` is a well-formed hash that `password` matches.
pub open spec fn password_verifies(password: Seq<char>, stored: Seq<char>) -> bool {
    stored_hash_check(vstd::utf8::encode_utf8(password), stored) == Some(true)
}

/// `PasswordHash::new` followed by `Argon2::default().verify_password`: the
/// stored text is parsed, and the password is hashed again with what the text
/// holds and compared with its digest. Nothing is proved of either call; the
/// result is only given its name.
#[verifier::external_body]
fn check_stored_hash(password: &[u8], stored: &str) -> (r: Option<bool>)
    ensures
        r == stored_hash_check(password@, stored@),
{
    match PasswordHash::new(stored) {
        Ok(parsed) => Some(Argon2::default().verify_password(password, &parsed).is_ok()),
        Err(_) => None,
    }
}

/// `SaltString::generate` on the operating system's random number generator:
/// sixteen fresh random bytes in text form. Nothing is claimed of them.
#[verifier::external_body]
fn fresh_salt() -> SaltString {
    SaltString::generate(&mut OsRng)
}

/// `Argon2::default().hash_password`, with the hash written out as a PHC
/// string. The contract claims what the crate's documentation shows for this
/// pair of calls: a hash that was made from a password verifies that password.
#[verifier::external_body]
fn hash_with_salt(password: &[u8], salt: &SaltString) -> (r: Result<
    String,
    argon2::password_hash::Error,
>)
    ensures
        r matches Ok(hash) ==> stored_hash_check(password@, hash@) == Some(true),
{
    Argon2::default().hash_password(password, salt).map(|hash| hash.to_string())
}

/// The password hashing primitive could not produce a hash.
#[derive(Debug)]
pub struct HashError {
    pub message: String,
}

/// Whether a check's outcome lets the password pass: only a well-formed hash
/// that matched does. A stored text that is no hash fails like a wrong
/// password.
pub fn hash_check_passes(outcome: Option<bool>) -> (r: bool)
    ensures
        r == (outcome == Some(true)),
{
    match outcome {
        Some(matched) => matched,
        None => false,
    }
}

/// Checks `password` against `stored_hash`.
pub fn verify(password: &str, stored_hash: &str) -> (r: bool)
    ensures
        r == password_verifies(password@, stored_hash@),
{
    hash_check_passes(check_stored_hash(password.as_bytes(), stored_hash))
}

/// A user of the dashboard: an identity and the hash of its password.
#[derive(Debug, Clone)]
pub struct User {
    pub id: i64,
    pub hash: String,
    pub name: String,
}

impl User {
    /// The user that a hashing outcome gives: with the hash where there is
    /// one, else the failure of the hashing primitive.
    pub fn with_hash(name: &str, hashed: Option<String>, id: i64) -> (r: Result<User, HashError>)
        ensures
            match hashed {
                Some(hash) => r matches Ok(user) && user.id == id && user.name@ == name@
                    && user.hash == hash,
                None => r matches Err(error) && error.message@ == "Could not make hash"@,
            },
    {
        match hashed {
            Some(hash) => Ok(User { id, name: String::from_str(name), hash }),
            None => Err(HashError { message: String::from_str("Could not make hash") }),
        }
    }

    /// Creates a user from a name and a password. The password is hashed with
    /// a fresh random salt; the user holds the hash, never the password, and
    /// the hash verifies the password.
    pub fn new(name: &str, password: &str, id: i64) -> (r: Result<User, HashError>)
        ensures
            match r {
                Ok(user) => user.id == id && user.name@ == name@ && password_verifies(
                    password@,
                    user.hash@,
                ),
                Err(error) => error.message@ == "Could not make hash"@,
            },
    {
        let salt = fresh_salt();
        let hashed = match hash_with_salt(password.as_bytes(), &salt) {
            Ok(hash) => Some(hash),
            Err(_) => None,
        };
        User::with_hash(name, hashed, id)
    }

    /// The user as text: the id and the name, never the hash.
    pub fn describe(&self) -> (r: String)
        ensures
            r@ == "("@ + signed_decimal(self.id as int) + ", "@ + self.name@ + ")"@,
    {
        let mut out = String::from_str("(");
        push_signed_decimal(&mut out, self.id);
        out.append(", ");
        out.append(self.name.as_str());
        out.append(")");
        out
    }

    pub fn get_id(&self) -> (r: i64)
        ensures
            r == self.id,
    {
        self.id
    }

    /// The bytes of the stored hash text.
    pub fn get_password_hash(&self) -> (r: Vec<u8>)
        ensures
            r@ == vstd::utf8::encode_utf8(self.hash@),
    {
        vstd::slice::slice_to_vec(self.hash.as_str().as_bytes())
    }
}

impl Default for User {
    fn default() -> (r: User)
        ensures
            r.id == 0,
            r.hash@.len() == 0,
            r.name@.len() == 0,
    {
        User { id: 0, hash: String::new(), name: String::new() }
    }
}

/// Makes a user out of the columns of a row of the users table.
#[derive(Debug, Clone, Copy)]
pub struct UserMapper;

impl UserMapper {
    pub fn map(id: i64, name: String, hash: String) -> (r: User)
        ensures
            r.id == id,
            r.name == name,
            r.hash == hash,
    {
        User { id, name, hash }
    }
}

/// The body of a login request.
#[derive(Debug)]
pub struct Login {
    pub username: String,
    pub password: String,
}

} // verus!
