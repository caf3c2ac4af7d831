//! The claims that an access or authentication token carries, and the
//! lifetimes given to new tokens.
use vstd::prelude::*;

use crate::external::{is_alphanumeric, now_timestamp, random_alphanumeric, random_bytes};
use crate::proto::TokenType;
use crate::tokens::{Permissions, SECRETSIZE, TOKENSIZE};

verus! {

/// The claims of a token.
#[derive(Clone, Debug)]
pub struct TokenClaim {
    /// expiry time
    pub exp: i64,
    /// creation time
    pub iat: i64,
    /// token type, by its wire number
    pub token_type: i32,
    /// subject: the user's address or client
    pub sub: String,
    /// random value identifying the token
    pub value: String,
    pub user_id: i32,
    /// permissions, by organisation id
    pub perms: Vec<(i32, Vec<Permissions>)>,
}

impl TokenClaim {
    /// Claims as they were decoded.
    pub fn new(
        exp: i64,
        iat: i64,
        token_type: i32,
        sub: String,
        value: String,
        user_id: i32,
        perms: Vec<(i32, Vec<Permissions>)>,
    ) -> (r: Self)
        ensures
            r.exp == exp,
            r.iat == iat,
            r.token_type == token_type,
            r.sub == sub,
            r.value == value,
            r.user_id == user_id,
            r.perms == perms,
    {
        TokenClaim { exp, iat, token_type, sub, value, user_id, perms }
    }

    /// Claims of a new token, not yet timed: `exp` and `iat` are zero.
    pub fn with_data(
        token_type: i32,
        sub: String,
        value: String,
        user_id: i32,
        perms: Vec<(i32, Vec<Permissions>)>,
    ) -> (r: Self)
        ensures
            r.exp == 0,
            r.iat == 0,
            r.token_type == token_type,
            r.sub == sub,
            r.value == value,
            r.user_id == user_id,
            r.perms == perms,
    {
        TokenClaim { exp: 0, iat: 0, token_type, sub, value, user_id, perms }
    }

    /// Claims of a new token with a random value of `TOKENSIZE` letters and
    /// digits, not yet timed.
    pub fn random(
        token_type: i32,
        sub: String,
        user_id: i32,
        perms: Vec<(i32, Vec<Permissions>)>,
    ) -> (r: Self)
        ensures
            r.exp == 0,
            r.iat == 0,
            r.token_type == token_type,
            r.sub == sub,
            r.value@.len() == TOKENSIZE,
            forall|i: int| 0 <= i < r.value@.len() ==> is_alphanumeric(#[trigger] r.value@[i]),
            r.user_id == user_id,
            r.perms == perms,
    {
        let value = random_alphanumeric(TOKENSIZE);
        TokenClaim::with_data(token_type, sub, value, user_id, perms)
    }

    /// Sets the creation time and the expiry time, `ttl` seconds later.
    pub fn setup_time(&mut self, ttl: i64, iat: i64)
        requires
            i64::MIN <= iat + ttl <= i64::MAX,
        ensures
            final(self).exp == iat + ttl,
            final(self).iat == iat,
            final(self).token_type == old(self).token_type,
            final(self).sub == old(self).sub,
            final(self).value == old(self).value,
            final(self).user_id == old(self).user_id,
            final(self).perms == old(self).perms,
    {
        self.exp = iat + ttl;
        self.iat = iat;
    }

    /// Expiry, creation time, type, subject and value.
    pub fn view_tuple(&self) -> (r: (i64, i64, i32, String, String))
        ensures
            r.0 == self.exp,
            r.1 == self.iat,
            r.2 == self.token_type,
            r.3@ == self.sub@,
            r.4@ == self.value@,
    {
        (self.exp, self.iat, self.token_type, self.sub.clone(), self.value.clone())
    }
}

/// Lifetime of an access token: 31 days.
pub const ACCESS_TOKEN_TTL: i64 = 2_678_400;

/// Lifetime of an authentication token: 4 hours.
pub const AUTH_TOKEN_TTL: i64 = 14_400;

/// The lifetime that a token of the given type receives, if the type is one
/// that tokens are made of.
pub open spec fn ttl_for(token_type: i32) -> Option<i64> {
    if token_type == TokenType::Auth.spec_code() {
        Some(AUTH_TOKEN_TTL)
    } else if token_type == TokenType::Access.spec_code() {
        Some(ACCESS_TOKEN_TTL)
    } else {
        None
    }
}

/// Makes tokens: holds the signing secret and the token lifetimes.
pub struct TokenGenerator {
    secret: Vec<u8>,
    access_token_ttl: i64,
    auth_token_ttl: i64,
}

impl TokenGenerator {
    #[verifier::type_invariant]
    spec fn lifetimes(self) -> bool {
        self.access_token_ttl == ACCESS_TOKEN_TTL && self.auth_token_ttl == AUTH_TOKEN_TTL
    }

    pub closed spec fn secret_bytes(&self) -> Seq<u8> {
        self.secret@
    }

    /// A generator with a random secret of `SECRETSIZE` bytes.
    pub fn new() -> (r: Self)
        ensures
            r.secret_bytes().len() == SECRETSIZE,
    {
        TokenGenerator {
            secret: random_bytes(SECRETSIZE),
            access_token_ttl: ACCESS_TOKEN_TTL,
            auth_token_ttl: AUTH_TOKEN_TTL,
        }
    }

    /// A generator with the given secret.
    pub fn with_secet(s: &[u8]) -> (r: Self)
        ensures
            r.secret_bytes() == s@,
    {
        let mut secret: Vec<u8> = Vec::new();
        let mut i: usize = 0;
        while i < s.len()
            invariant
                i <= s@.len(),
                secret@ == s@.subrange(0, i as int),
            decreases s@.len() - i,
        {
            secret.push(s[i]);
            assert(secret@ =~= s@.subrange(0, i + 1));
            i = i + 1;
        }
        assert(secret@ =~= s@);
        TokenGenerator { secret, access_token_ttl: ACCESS_TOKEN_TTL, auth_token_ttl: AUTH_TOKEN_TTL }
    }

    /// The signing secret.
    pub fn secret(&self) -> (r: &Vec<u8>)
        ensures
            r@ == self.secret_bytes(),
    {
        &self.secret
    }

    /// Lifetime of access tokens, in seconds.
    pub fn get_acc_ttl(&self) -> (r: i64)
        ensures
            r == ACCESS_TOKEN_TTL,
    {
        proof {
            use_type_invariant(self);
        }
        self.access_token_ttl
    }

    /// Lifetime of authentication tokens, in seconds.
    pub fn get_auth_ttl(&self) -> (r: i64)
        ensures
            r == AUTH_TOKEN_TTL,
    {
        proof {
            use_type_invariant(self);
        }
        self.auth_token_ttl
    }

    /// Times the claims of a new token made at `now`, by the lifetime of its
    /// type, and returns the type; claims of an unknown type are refused and
    /// left as they are.
    pub fn stamp(&self, meta: &mut TokenClaim, now: i64) -> (r: Result<i32, ()>)
        requires
            0 <= now <= i64::MAX - ACCESS_TOKEN_TTL,
        ensures
            match ttl_for(old(meta).token_type) {
                Some(ttl) => r == Ok::<i32, ()>(old(meta).token_type) && final(meta).exp == now
                    + ttl && final(meta).iat == now && final(meta).token_type
                    == old(meta).token_type && final(meta).sub == old(meta).sub && final(meta).value
                    == old(meta).value && final(meta).user_id == old(meta).user_id
                    && final(meta).perms == old(meta).perms,
                None => r is Err && *final(meta) == *old(meta),
            },
    {
        let auth = TokenType::Auth.code();
        let access = TokenType::Access.code();
        let x = meta.token_type;
        if x == auth {
            meta.setup_time(self.get_auth_ttl(), now);
            Ok(x)
        } else if x == access {
            meta.setup_time(self.get_acc_ttl(), now);
            Ok(x)
        } else {
            Err(())
        }
    }

    /// Times the claims of a new token by the clock, as `stamp` does: claims
    /// of a token type with a lifetime are always timed, others are refused
    /// and left as they are.
    pub fn stamp_now(&self, meta: &mut TokenClaim) -> (r: Result<i32, ()>)
        ensures
            ttl_for(old(meta).token_type) is Some ==> r == Ok::<i32, ()>(old(meta).token_type),
            r is Ok ==> final(meta).iat <= 8210266876799 && final(meta).token_type == old(meta).token_type,
            r matches Ok(t) ==> (t == old(meta).token_type && (ttl_for(t) matches Some(ttl)
                && final(meta).exp == final(meta).iat + ttl) && final(meta).iat >= 0
                && final(meta).sub == old(meta).sub && final(meta).value == old(meta).value
                && final(meta).user_id == old(meta).user_id && final(meta).perms
                == old(meta).perms),
            ttl_for(old(meta).token_type) is None ==> r is Err && *final(meta) == *old(meta),
            r is Err ==> *final(meta) == *old(meta),
    {
        let now = now_timestamp();
        if now > i64::MAX - ACCESS_TOKEN_TTL {
            return Err(());
        }
        self.stamp(meta, now)
    }

    /// The type of claims that are encoded as they are, if it is a type that
    /// tokens are made of.
    pub fn preset_type(&self, meta: &TokenClaim) -> (r: Result<i32, ()>)
        ensures
            match ttl_for(meta.token_type) {
                Some(_) => r == Ok::<i32, ()>(meta.token_type),
                None => r is Err,
            },
    {
        let x = meta.token_type;
        if x == TokenType::Auth.code() || x == TokenType::Access.code() {
            Ok(x)
        } else {
            Err(())
        }
    }
}

} // verus!
