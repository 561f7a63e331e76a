//! The login exchange's composed payloads: the credential body, the
//! optional session parameters, and the claims of a certificate-signed
//! JWT. Signing itself and the HTTP round trip are collaborators.

use vstd::prelude::*;

use crate::errors::{ErrorKind, SnowflakeError};
use crate::pool::{AuthStrategy, SnowflakeConnectionOpts};

verus! {

/// The composed login request body, as plain fields.
#[derive(Clone, Debug)]
pub struct LoginPayload {
    /// The server varies response shapes by client: this must read as
    /// the Go client.
    pub client_app_id: String,
    pub client_app_version: String,
    pub account_name: String,
    pub login_name: String,
    pub password: Option<String>,
    /// "SNOWFLAKE_JWT" under certificate authentication.
    pub authenticator: Option<String>,
    /// The signed JWT under certificate authentication.
    pub token: Option<String>,
}

/// Composes the login body for the configured strategy: a password is
/// embedded directly; a certificate strategy embeds the signed JWT the
/// caller obtained and announces the JWT authenticator.
pub fn build_login_payload(opts: &SnowflakeConnectionOpts, cert_jwt: Option<String>) -> (r: Result<
    LoginPayload,
    SnowflakeError,
>)
    ensures
        match r {
            Ok(p) => {
                &&& p.client_app_id@ == "Go"@
                &&& p.client_app_version@ == "1.18.1"@
                &&& p.account_name@ == opts.account_id@
                &&& p.login_name@ == opts.username@
                &&& match opts.strategy {
                    AuthStrategy::Password(pw) => p.password matches Some(x) && x@ == pw@
                        && p.authenticator is None && p.token is None,
                    AuthStrategy::Certificate(_) => p.password is None && (
                    p.authenticator matches Some(a) && a@ == "SNOWFLAKE_JWT"@) && p.token
                        == cert_jwt,
                }
            },
            Err(e) => opts.strategy matches AuthStrategy::Certificate(_) && cert_jwt is None
                && e.kind == ErrorKind::AuthenticationFailure,
        },
{
    let (password, authenticator, token) = match &opts.strategy {
        AuthStrategy::Password(pw) => (Some(pw.clone()), None, None),
        AuthStrategy::Certificate(_) => {
            if cert_jwt.is_none() {
                return Err(
                    SnowflakeError::new(
                        ErrorKind::AuthenticationFailure,
                        String::from_str("certificate authentication needs a signed JWT"),
                    ),
                );
            }
            (None, Some(String::from_str("SNOWFLAKE_JWT")), cert_jwt)
        },
    };
    Ok(
        LoginPayload {
            client_app_id: String::from_str("Go"),
            client_app_version: String::from_str("1.18.1"),
            account_name: opts.account_id.clone(),
            login_name: opts.username.clone(),
            password,
            authenticator,
            token,
        },
    )
}

/// The optional scope parameters of a login request, in their fixed
/// order, absent options skipped.
pub open spec fn spec_login_params(opts: SnowflakeConnectionOpts) -> Seq<(Seq<char>, Seq<char>)> {
    let db: Seq<(Seq<char>, Seq<char>)> = match opts.database {
        Some(d) => seq![("databaseName"@, d@)],
        None => Seq::empty(),
    };
    let wh: Seq<(Seq<char>, Seq<char>)> = match opts.warehouse {
        Some(w) => seq![("warehouse"@, w@)],
        None => Seq::empty(),
    };
    let sc: Seq<(Seq<char>, Seq<char>)> = match opts.schema {
        Some(s) => seq![("schemaName"@, s@)],
        None => Seq::empty(),
    };
    let ro: Seq<(Seq<char>, Seq<char>)> = match opts.role {
        Some(r) => seq![("roleName"@, r@)],
        None => Seq::empty(),
    };
    db + wh + sc + ro
}

pub fn login_params(opts: &SnowflakeConnectionOpts) -> (r: Vec<(String, String)>)
    ensures
        r@.len() == spec_login_params(*opts).len(),
        forall|i: int|
            0 <= i < r@.len() ==> ((#[trigger] r@[i]).0@, r@[i].1@) == spec_login_params(*opts)[i],
{
    let mut out: Vec<(String, String)> = Vec::new();
    if let Some(d) = &opts.database {
        out.push((String::from_str("databaseName"), d.clone()));
    }
    if let Some(w) = &opts.warehouse {
        out.push((String::from_str("warehouse"), w.clone()));
    }
    if let Some(s) = &opts.schema {
        out.push((String::from_str("schemaName"), s.clone()));
    }
    if let Some(r) = &opts.role {
        out.push((String::from_str("roleName"), r.clone()));
    }
    out
}

/// The claims of a certificate-signed login JWT.
#[derive(Clone, Debug)]
pub struct JwtClaims {
    pub iss: String,
    pub sub: String,
    pub iat: u64,
    pub nbf: u64,
    pub exp: u64,
}

/// The fixed not-before instant the warehouse's reference clients use.
pub const JWT_NOT_BEFORE: u64 = 1_444_478_400_000;

/// Composes the claims of the login JWT: the issuer names the account,
/// the user, and the public key's SHA-256 fingerprint; the token is
/// valid for one minute.
pub fn build_jwt_claims(account_id: &str, username: &str, key_fingerprint: &str, now: u64) -> (r:
    JwtClaims)
    requires
        now + 60 <= u64::MAX,
    ensures
        r.iss@ == account_id@ + "."@ + username@ + ".SHA256:"@ + key_fingerprint@,
        r.sub@ == account_id@ + "."@ + username@,
        r.iat == now,
        r.nbf == JWT_NOT_BEFORE,
        r.exp == now + 60,
{
    let mut iss = String::new();
    iss.append(account_id);
    iss.append(".");
    iss.append(username);
    iss.append(".SHA256:");
    iss.append(key_fingerprint);
    let mut sub = String::new();
    sub.append(account_id);
    sub.append(".");
    sub.append(username);
    JwtClaims { iss, sub, iat: now, nbf: JWT_NOT_BEFORE, exp: now + 60 }
}

} // verus!
