//! User accounts, registration codes and session tokens, as plain data.

use vstd::prelude::*;
use crate::strutil::{eq_str, spec_hex_lower};
use vstd::string::StringExecFns;

verus! {

/// The role a user account carries.
#[derive(Debug)]
pub enum UserCharacter {
    Admin,
    User,
    Unknown,
}

/// The role a stored role string denotes: `admin` and `user` name the two
/// roles, anything else denotes no role.
pub open spec fn spec_character_of(value: Seq<char>) -> UserCharacter {
    if value == "admin"@ {
        UserCharacter::Admin
    } else if value == "user"@ {
        UserCharacter::User
    } else {
        UserCharacter::Unknown
    }
}

impl UserCharacter {
    /// Reads a role out of its stored string form.
    pub fn from_value(value: &str) -> (r: UserCharacter)
        ensures
            r == spec_character_of(value@),
    {
        if eq_str(value, "admin") {
            UserCharacter::Admin
        } else if eq_str(value, "user") {
            UserCharacter::User
        } else {
            UserCharacter::Unknown
        }
    }

    /// The stored string form of a role.
    pub fn as_value(&self) -> (r: &'static str)
        ensures
            match self {
                UserCharacter::Admin => r@ == "admin"@,
                UserCharacter::User => r@ == "user"@,
                UserCharacter::Unknown => r@ == ""@,
            },
    {
        match self {
            UserCharacter::Admin => "admin",
            UserCharacter::User => "user",
            UserCharacter::Unknown => "",
        }
    }
}

/// A login request.
#[derive(Debug)]
pub struct LoginReq {
    pub username: String,
    pub password: String,
}

/// A password change request.
#[derive(Debug)]
pub struct SetUserPassword {
    pub old_password: String,
    pub new_password: String,
}

/// The token answer of a successful login.
#[derive(Debug)]
pub struct AuthBody {
    pub access_token: String,
    pub token_type: String,
    pub expired: usize,
}

impl AuthBody {
    /// Wraps a token as a bearer token with its expiry.
    pub fn new(access_token: String, expired: usize) -> (r: AuthBody)
        ensures
            r.access_token@ == access_token@,
            r.token_type@ == "Bearer"@,
            r.expired == expired,
    {
        AuthBody { access_token, token_type: String::from_str("Bearer"), expired }
    }
}

/// A stored user account.
#[derive(Debug)]
pub struct UserEntity {
    pub id: i64,
    pub username: String,
    pub password: String,
    pub chatacter: UserCharacter,
}

/// What the SHA-256 digest of a byte string is.
pub uninterp spec fn sha256_of(bytes: Seq<u8>) -> Seq<u8>;

/// Relies on `Sha256::digest` of the sha2 crate: the 32-byte SHA-256
/// digest of the input, a function of the bytes alone.
#[verifier::external_body]
fn sha256_digest(bytes: &[u8]) -> (r: Vec<u8>)
    ensures
        r@ == sha256_of(bytes@),
        r@.len() == 32,
{
    <sha2::Sha256 as sha2::Digest>::digest(bytes).to_vec()
}

impl UserEntity {
    /// The stored form of a password: the lowercase hex SHA-256 digest of
    /// the salted password.
    pub fn into_sha256_pwd(password: String) -> (r: String)
        ensures
            r@ == spec_hex_lower(sha256_of(vstd::utf8::encode_utf8("yanami66"@ + password@))),
    {
        let salted = crate::strutil::concat_str("yanami66", password.as_str());
        let digest = sha256_digest(salted.as_str().as_bytes());
        crate::strutil::hex_lower(digest.as_slice())
    }
}

/// A registration request.
#[derive(Debug)]
pub struct RegisterReq {
    pub code: String,
    pub username: String,
    pub password: String,
}

/// A request to mint a registration code.
#[derive(Debug)]
pub struct RegisterCodeReq {
    pub timers: usize,
    pub expire: i64,
}

/// The answer carrying a freshly minted registration code.
#[derive(Debug)]
pub struct RegisterCodeRsp {
    pub code: String,
}

/// A stored registration code with its remaining uses and expiry.
#[derive(Debug)]
pub struct RegisterCode {
    pub timers: usize,
    pub expire: i64,
    pub now: i64,
    pub code: String,
}

/// The claims carried by a session token.
#[derive(Debug)]
pub struct Claims {
    pub user_id: i64,
    pub exp: usize,
    pub character: String,
}

} // verus!
