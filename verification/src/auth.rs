//! Passwords, the answers of the authentication service, and the rows that
//! store users and issued tokens.
use vstd::prelude::*;

use crate::claims::TokenClaim;
use crate::proto::{AuthRequest, Token, TokenType};
use vstd::utf8::encode_utf8;

verus! {

/// Names the client that sent a request: its address and port.
pub trait GetAuthor {
    fn get_author(&self) -> String;
}

/// Whether argon2 (default parameters) accepts `password` against the stored
/// PHC string `hash`.
pub uninterp spec fn argon2_accepts(password: Seq<u8>, hash: Seq<char>) -> bool;

/// Calls `argon2::PasswordHash::new` on `hash` and, where it parses,
/// `PasswordVerifier::verify_password` of `Argon2::default()`; a hash that
/// does not parse accepts nothing. What the verification computes is left to
/// the name `argon2_accepts`.
#[verifier::external_body]
fn argon2_verify(password: &[u8], hash: &str) -> (r: bool)
    ensures
        r == argon2_accepts(password@, hash@),
{
    match argon2::PasswordHash::new(hash) {
        Ok(h) => argon2::PasswordVerifier::verify_password(&argon2::Argon2::default(), password, &h).is_ok(),
        Err(_) => false,
    }
}

/// Calls `Argon2::default().hash_password` with a salt from
/// `SaltString::generate(&mut OsRng)` and writes the PHC string. The salt
/// rests on chance, so the string is not named; the contract states what
/// password hashing is for: verifying the same password against the string
/// succeeds. Passwords longer than argon2's limit (`MAX_PWD_LEN`) are left
/// out: hashing them fails.
#[verifier::external_body]
fn argon2_hash(password: &[u8]) -> (r: String)
    requires
        password@.len() <= 0xFFFF_FFFF,
    ensures
        argon2_accepts(password@, r@),
{
    let salt = argon2::password_hash::SaltString::generate(&mut rand_core::OsRng);
    argon2::PasswordHasher::hash_password(&argon2::Argon2::default(), password, &salt).unwrap().to_string()
}

/// Whether `password` matches the hash stored for a user.
pub fn password_accepted(password: &str, hash: &str) -> (r: bool)
    ensures
        r == argon2_accepts(encode_utf8(password@), hash@),
{
    argon2_verify(password.as_bytes(), hash)
}

/// A user as stored: login, the name shown, and the password hash.
#[derive(Clone, Debug, PartialEq)]
pub struct UserModel {
    pub selfname: String,
    pub login: String,
    pub hash: String,
}

/// The stored users for the accounts `accounts`: each named by its login,
/// with a fresh hash of its password.
pub fn user_rows(accounts: &Vec<AuthRequest>) -> (r: Vec<UserModel>)
    requires
        forall|i: int| 0 <= i < accounts@.len() ==> encode_utf8((#[trigger] accounts@[i]).password@).len() <= 0xFFFF_FFFF,
    ensures
        r@.len() == accounts@.len(),
        forall|i: int|
            0 <= i < r@.len() ==> (#[trigger] r@[i]).login@ == accounts@[i].login@ && r@[i].selfname@
                == accounts@[i].login@ && argon2_accepts(encode_utf8(accounts@[i].password@), r@[i].hash@),
{
    let mut out: Vec<UserModel> = Vec::new();
    let mut i: usize = 0;
    while i < accounts.len()
        invariant
            i <= accounts@.len(),
            out@.len() == i,
            forall|k: int| 0 <= k < accounts@.len() ==> encode_utf8((#[trigger] accounts@[k]).password@).len() <= 0xFFFF_FFFF,
            forall|k: int|
                0 <= k < i ==> (#[trigger] out@[k]).login@ == accounts@[k].login@ && out@[k].selfname@
                    == accounts@[k].login@ && argon2_accepts(encode_utf8(accounts@[k].password@), out@[k].hash@),
        decreases accounts@.len() - i,
    {
        let a = &accounts[i];
        let bytes = a.password.as_str().as_bytes();
        let hash = argon2_hash(bytes);
        out.push(UserModel { selfname: a.login.clone(), login: a.login.clone(), hash });
        i = i + 1;
    }
    out
}

/// Why authentication was refused.
#[derive(Clone, Copy, Debug, PartialEq, Eq, Structural)]
pub enum AuthFailError {
    InvalidData,
}

impl AuthFailError {
    /// The wire number of the refusal.
    pub fn code(&self) -> (r: i32)
        ensures
            r == 0,
    {
        0
    }
}

/// A token, or the number of the reason why none was given.
#[derive(Clone, Debug, PartialEq)]
pub enum AuthOutcome {
    Token(Token),
    Error(i32),
}

/// The answer of the authentication service.
#[derive(Clone, Debug, PartialEq, Default)]
pub struct AuthResult {
    pub result: Option<AuthOutcome>,
}

/// The token value handed to browsers, which receive the access token in a
/// cookie instead.
pub open spec fn web_placeholder() -> Seq<char> {
    "grpc-web-uses-cookies"@
}

/// The value and type of a token that could not be made.
pub open spec fn generation_error() -> Seq<char> {
    "generation_error"@
}

/// The answer to a sign-in with a login and password: where the password
/// was accepted, the access token made (`generated`; where making it failed,
/// the value `generation_error` of type 0) is handed out, to a browser
/// (`is_web`) as a placeholder beside the cookie that carries it; where it
/// was refused, an `InvalidData` refusal. Also returns the token value that
/// goes into the cookie, where one is set.
pub fn authorize_reply(accepted: bool, generated: Result<(String, i32), ()>, is_web: bool) -> (r: (AuthResult, Option<String>))
    ensures
        !accepted ==> r.0.result == Some(AuthOutcome::Error(0)) && r.1 is None,
        accepted ==> {
            let (value, ttype) = match generated {
                Ok((v, t)) => (v@, t),
                Err(_) => (generation_error(), 0i32),
            };
            &&& r.0.result matches Some(AuthOutcome::Token(t)) && t.token_type == Some(ttype)
                && t.value@ == (if is_web {
                web_placeholder()
            } else {
                value
            })
            &&& is_web ==> (r.1 matches Some(c) && c@ == value)
            &&& !is_web ==> r.1 is None
        },
{
    if !accepted {
        return (AuthResult { result: Some(AuthOutcome::Error(AuthFailError::InvalidData.code())) }, None);
    }
    let (value, ttype) = match generated {
        Ok((v, t)) => (v, t),
        Err(_) => ("generation_error".to_owned(), 0i32),
    };
    if is_web {
        (
            AuthResult {
                result: Some(
                    AuthOutcome::Token(
                        Token { value: "grpc-web-uses-cookies".to_owned(), token_type: Some(ttype) },
                    ),
                ),
            },
            Some(value),
        )
    } else {
        (AuthResult { result: Some(AuthOutcome::Token(Token { value, token_type: Some(ttype) })) }, None)
    }
}

/// The answer to a request for an authentication token: with a valid access
/// token (`access_valid`), the authentication token made, or no result where
/// making it failed; without one, an `InvalidData` refusal.
pub fn get_auth_reply(access_valid: bool, generated: Result<(String, i32), ()>) -> (r: AuthResult)
    ensures
        !access_valid ==> r.result == Some(AuthOutcome::Error(0)),
        access_valid ==> match generated {
            Ok((v, t)) => r.result matches Some(AuthOutcome::Token(tok)) && tok.value@ == v@ && tok.token_type
                == Some(t),
            Err(_) => r.result is None,
        },
{
    if !access_valid {
        return AuthResult { result: Some(AuthOutcome::Error(AuthFailError::InvalidData.code())) };
    }
    match generated {
        Ok((v, t)) => AuthResult { result: Some(AuthOutcome::Token(Token { value: v, token_type: Some(t) })) },
        Err(_) => AuthResult { result: None },
    }
}

/// Whether dropping `to_drop` clears the access cookie: for a browser, where
/// the token to drop is an access token.
pub fn drop_clears_cookie(is_web: bool, to_drop: &Option<Token>) -> (r: bool)
    ensures
        r == (is_web && (to_drop matches Some(t) && t.token_type == Some(
            TokenType::Access.spec_code(),
        ))),
{
    let access = TokenType::Access.code();
    is_web && match to_drop {
        Some(t) => match t.token_type {
            Some(tt) => tt == access,
            None => false,
        },
        None => false,
    }
}

/// What a client does with an answer of the authentication service: keep
/// the token, or fail with the refusal's number, or with none where the
/// answer is empty.
pub fn auth_result_token(result: AuthResult) -> (r: Result<Token, Option<i32>>)
    ensures
        match result.result {
            Some(AuthOutcome::Token(t)) => r == Ok::<Token, Option<i32>>(t),
            Some(AuthOutcome::Error(e)) => r == Err::<Token, Option<i32>>(Some(e)),
            None => r == Err::<Token, Option<i32>>(None),
        },
{
    match result.result {
        Some(AuthOutcome::Token(t)) => Ok(t),
        Some(AuthOutcome::Error(e)) => Err(Some(e)),
        None => Err(None),
    }
}

/// What `fastmurmur3::hash` gives for `data` in this build: the hash reads
/// its two 64-bit halves back with `u128::from_ne_bytes`, so the value is
/// that of the byte order of the target the crate is built for.
pub uninterp spec fn murmur3_hash(data: Seq<u8>) -> u128;

/// Calls `fastmurmur3::hash`, MurmurHash3 x64 128 with seed 0; the hash is
/// left to the name `murmur3_hash`.
#[verifier::external_body]
fn murmur3(data: &[u8]) -> (r: u128)
    ensures
        r == murmur3_hash(data@),
{
    fastmurmur3::hash(data)
}

/// Upper-case hexadecimal digit of `d`.
pub open spec fn hex_char(d: int) -> char {
    if d < 10 {
        ((d + 48) as u32) as char
    } else {
        ((d + 55) as u32) as char
    }
}

/// Upper-case hexadecimal representation of `n`, without leading zeros.
pub open spec fn hex_digits(n: nat) -> Seq<char>
    decreases n,
{
    if n < 16 {
        seq![hex_char(n as int)]
    } else {
        hex_digits(n / 16).push(hex_char((n % 16) as int))
    }
}

fn hex_digit(d: u128) -> (r: char)
    requires
        d < 16,
    ensures
        r == hex_char(d as int),
{
    let b: u8 = if d < 10 { (d + 48) as u8 } else { (d + 55) as u8 };
    b as char
}

/// `n` in upper-case hexadecimal, as `format!("{:X}", n)` writes it.
pub fn hex_upper(n: u128) -> (r: String)
    ensures
        r@ == hex_digits(n as nat),
    decreases n,
{
    if n < 16 {
        let mut s = String::new();
        crate::text::append_char(&mut s, hex_digit(n));
        assert(s@ =~= seq![hex_char(n as int)]);
        s
    } else {
        let mut s = hex_upper(n / 16);
        crate::text::append_char(&mut s, hex_digit(n % 16));
        s
    }
}

/// A token as stored: a hash of its value, type, owner, subject, and the
/// seconds of its creation and expiry.
#[derive(Clone, Debug, PartialEq)]
pub struct TokenPrototype {
    pub hash: String,
    pub ttype: i32,
    pub owner: i32,
    pub sub: String,
    pub created_at: i64,
    pub expire_at: i64,
}

impl TokenPrototype {
    /// The stored form of the token with claims `claim`: its value hashed
    /// with MurmurHash3 and written in upper-case hexadecimal.
    pub fn from(claim: &TokenClaim) -> (r: Self)
        ensures
            r.hash@ == hex_digits(murmur3_hash(encode_utf8(claim.value@)) as nat),
            r.ttype == claim.token_type,
            r.owner == claim.user_id,
            r.sub@ == claim.sub@,
            r.created_at == claim.iat,
            r.expire_at == claim.exp,
    {
        let h = murmur3(claim.value.as_str().as_bytes());
        TokenPrototype {
            hash: hex_upper(h),
            ttype: claim.token_type,
            owner: claim.user_id,
            sub: claim.sub.clone(),
            created_at: claim.iat,
            expire_at: claim.exp,
        }
    }
}

/// A staff member can sign in with the password handed out: the hash stored
/// for the account accepts its password.
pub proof fn law_stored_hash_accepts_password(accounts: Seq<AuthRequest>, rows: Seq<UserModel>, i: int)
    requires
        0 <= i < accounts.len(),
        rows.len() == accounts.len(),
        forall|k: int|
            0 <= k < rows.len() ==> (#[trigger] rows[k]).login@ == accounts[k].login@ && argon2_accepts(
                encode_utf8(accounts[k].password@),
                rows[k].hash@,
            ),
    ensures
        argon2_accepts(encode_utf8(accounts[i].password@), rows[i].hash@),
        rows[i].login@ == accounts[i].login@,
{
    assert(rows[i].login@ == accounts[i].login@);
}

} // verus!
