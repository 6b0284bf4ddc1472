//! Player accounts: validation of credentials, and password hashing with
//! bcrypt.
use vstd::prelude::*;
use vstd::utf8::encode_utf8;

verus! {

/// `bcrypt::BcryptError`, the error of the bcrypt calls below, carried
/// through opaquely.
#[verifier::external_type_specification]
#[verifier::external_body]
pub struct ExBcryptError(bcrypt::BcryptError);

/// Whether bcrypt accepts `password` against `hash`, or `None` when `hash` is
/// not a well-formed bcrypt hash.
pub uninterp spec fn bcrypt_verdict(password: Seq<char>, hash: Seq<char>) -> Option<bool>;

/// Relies on `bcrypt::hash` at `bcrypt::DEFAULT_COST`: a hash salted with
/// fresh OS randomness, or an error where no randomness could be had. Which
/// salt is drawn is left open; every hash it returns is 60 bytes long and
/// `bcrypt::verify` accepts the same password against it.
#[verifier::external_body]
fn bcrypt_hash(password: &str) -> (r: Result<String, bcrypt::BcryptError>)
    ensures
        r matches Ok(h) ==> encode_utf8(h@).len() == 60 && bcrypt_verdict(password@, h@) == Some(
            true,
        ),
{
    bcrypt::hash(password, bcrypt::DEFAULT_COST)
}

/// Relies on `bcrypt::verify`: whether `password` matches `hash`, a function
/// of the two strings alone, or an error where `hash` is malformed; every
/// hash that is not exactly 60 bytes long is malformed.
#[verifier::external_body]
fn bcrypt_check(password: &str, hash: &str) -> (r: Result<bool, bcrypt::BcryptError>)
    ensures
        r is Ok <==> bcrypt_verdict(password@, hash@) is Some,
        r matches Ok(b) ==> bcrypt_verdict(password@, hash@) == Some(b),
        encode_utf8(hash@).len() != 60 ==> r is Err,
{
    bcrypt::verify(password, hash)
}

/// A user name is valid when it is not empty and at most 20 bytes long.
pub open spec fn valid_username(name: Seq<char>) -> bool {
    name.len() > 0 && encode_utf8(name).len() <= 20
}

/// A password is valid when it is 8 to 50 bytes long.
pub open spec fn valid_password(password: Seq<char>) -> bool {
    8 <= encode_utf8(password).len() <= 50
}

/// Why an operation on a user's password failed.
#[derive(Clone, Copy, Debug, PartialEq, Eq, Structural)]
pub enum UserError {
    /// No hash could be made: the system gave no randomness for a salt.
    HashFailed,
    /// The stored hash is not a well-formed bcrypt hash.
    MalformedHash,
}

/// What a user record holds.
pub struct UserView {
    pub username: Seq<char>,
    pub password: Option<Seq<char>>,
    pub password_hash: Option<Seq<char>>,
}

/// An account as a client submits it: a user name, and a password or a
/// stored password hash or both.
pub struct User {
    username: String,
    password: Option<String>,
    password_hash: Option<String>,
}

pub open spec fn opt_view(s: Option<String>) -> Option<Seq<char>> {
    match s {
        Some(v) => Some(v@),
        None => None,
    }
}

impl View for User {
    type V = UserView;

    closed spec fn view(&self) -> UserView {
        UserView {
            username: self.username@,
            password: opt_view(self.password),
            password_hash: opt_view(self.password_hash),
        }
    }
}

impl User {
    pub fn new(username: String, password: Option<String>, password_hash: Option<String>) -> (r:
        User)
        ensures
            r@ == (UserView {
                username: username@,
                password: opt_view(password),
                password_hash: opt_view(password_hash),
            }),
    {
        User { username, password, password_hash }
    }

    pub fn username(&self) -> (r: &str)
        ensures
            r@ == self@.username,
    {
        self.username.as_str()
    }

    pub fn password_hash(&self) -> (r: Option<&str>)
        ensures
            r is Some <==> self@.password_hash is Some,
            r matches Some(h) ==> self@.password_hash == Some(h@),
    {
        match &self.password_hash {
            Some(h) => Some(h.as_str()),
            None => None,
        }
    }

    pub fn is_valid_username(username: &str) -> (r: bool)
        ensures
            r == valid_username(username@),
    {
        !username.is_empty() && username.as_bytes().len() <= 20
    }

    pub fn is_valid_password(password: &str) -> (r: bool)
        ensures
            r == valid_password(password@),
    {
        let n: usize = password.as_bytes().len();
        n >= 8 && n <= 50
    }

    /// Both the user name and the password are valid.
    pub fn is_valid(&self) -> (r: bool)
        requires
            self@.password is Some,
        ensures
            r == (valid_username(self@.username) && valid_password(self@.password->0)),
    {
        match &self.password {
            Some(p) => User::is_valid_username(self.username.as_str()) && User::is_valid_password(
                p.as_str(),
            ),
            None => false,
        }
    }

    /// Replaces the stored hash by a fresh salted hash of the password. On
    /// failure nothing changes.
    pub fn generate_hash(&mut self) -> (r: Result<(), UserError>)
        requires
            old(self)@.password is Some,
        ensures
            final(self)@.username == old(self)@.username,
            final(self)@.password == old(self)@.password,
            r is Ok ==> (final(self)@.password_hash matches Some(h) && encode_utf8(h).len() == 60
                && bcrypt_verdict(old(self)@.password->0, h) == Some(true)),
            r is Err ==> r == Err::<(), UserError>(UserError::HashFailed) && final(self)@ == old(
                self,
            )@,
    {
        let hashed = match &self.password {
            Some(p) => bcrypt_hash(p.as_str()),
            None => {
                return Err(UserError::HashFailed);
            },
        };
        match hashed {
            Ok(h) => {
                self.password_hash = Some(h);
                Ok(())
            },
            Err(_) => Err(UserError::HashFailed),
        }
    }

    /// Whether the password matches the stored hash.
    pub fn verify(&self) -> (r: Result<bool, UserError>)
        requires
            self@.password is Some,
            self@.password_hash is Some,
        ensures
            r == match bcrypt_verdict(self@.password->0, self@.password_hash->0) {
                Some(b) => Ok::<bool, UserError>(b),
                None => Err(UserError::MalformedHash),
            },
    {
        match (&self.password, &self.password_hash) {
            (Some(p), Some(h)) => match bcrypt_check(p.as_str(), h.as_str()) {
                Ok(b) => Ok(b),
                Err(_) => Err(UserError::MalformedHash),
            },
            _ => Err(UserError::MalformedHash),
        }
    }
}

} // verus!
