//! The session manager: tokens, two-tier refresh, and request
//! sequencing.
//!
//! Time and the network are injected: every decision takes the current
//! time in seconds as an argument, and the renew/login round trips are
//! performed by the caller, which hands the response data back in.

use vstd::prelude::*;

use crate::errors::{ErrorKind, SnowflakeError};

verus! {

/// A bearer token with its validity window.
#[derive(Clone, Debug)]
pub struct Token {
    pub value: String,
    pub validity_secs: u64,
    pub issued_at: u64,
}

impl Token {
    /// A negative validity from the server means the token never
    /// expires.
    pub fn new(token_string: String, validity_in_seconds: i64, now: u64) -> (r: Token)
        ensures
            r.value@ == token_string@,
            r.issued_at == now,
            r.validity_secs == if 0 <= validity_in_seconds {
                validity_in_seconds as u64
            } else {
                u64::MAX
            },
    {
        let validity_secs: u64 = if validity_in_seconds >= 0 {
            validity_in_seconds as u64
        } else {
            u64::MAX
        };
        Token { value: token_string, validity_secs, issued_at: now }
    }

    /// The token has expired: at least its validity has elapsed since
    /// it was issued.
    pub open spec fn spec_expired(&self, now: u64) -> bool {
        now as int >= self.issued_at as int + self.validity_secs as int
    }

    pub fn is_expired(&self, now: u64) -> (r: bool)
        ensures
            r == self.spec_expired(now),
    {
        if now < self.issued_at {
            false
        } else {
            now - self.issued_at >= self.validity_secs
        }
    }
}

/// What the login response handed back, reduced to the fields the
/// session lifecycle reads. A missing field is kept missing so that the
/// session constructor can report it.
#[derive(Clone, Debug)]
pub struct AuthData {
    pub token: Option<String>,
    pub master_token: Option<String>,
    pub validity: Option<i64>,
    pub master_validity: i64,
}

/// What the token-renew response handed back.
#[derive(Clone, Debug)]
pub struct RenewData {
    pub session_token: String,
    pub session_validity: i64,
    pub master_token: String,
    pub master_validity: i64,
}

/// What a caller that wants a valid bearer token must do next.
#[derive(Clone, Copy, Debug, PartialEq, Eq, Structural)]
pub enum TokenNeed {
    /// The request token is still valid: use it, no round trip.
    Ready,
    /// The request token expired but the master token is valid: one
    /// renew round trip swaps both tokens.
    NeedsRenew,
    /// Both tokens expired: only a full login helps.
    NeedsLogin,
}

/// An authenticated session: its two tokens, its request sequence
/// counter, and whether a statement may have left a transaction open.
#[derive(Debug)]
pub struct Session {
    pub token: Token,
    pub master_token: Token,
    pub sequence_counter: u64,
    pub is_dirty: bool,
}

/// The two-tier refresh decision.
pub open spec fn spec_token_need(s: &Session, now: u64) -> TokenNeed {
    if !s.token.spec_expired(now) {
        TokenNeed::Ready
    } else if !s.master_token.spec_expired(now) {
        TokenNeed::NeedsRenew
    } else {
        TokenNeed::NeedsLogin
    }
}

impl Session {
    /// Builds a session from a login response, failing when a required
    /// field is absent and naming that field.
    pub fn new(data: AuthData, now: u64) -> (r: Result<Session, SnowflakeError>)
        ensures
            match r {
                Ok(s) => {
                    &&& data.token is Some
                    &&& data.master_token is Some
                    &&& data.validity is Some
                    &&& s.token.value@ == data.token->0@
                    &&& s.token.issued_at == now
                    &&& s.token.validity_secs == if 0 <= data.validity->0 {
                        data.validity->0 as u64
                    } else {
                        u64::MAX
                    }
                    &&& s.master_token.value@ == data.master_token->0@
                    &&& s.master_token.issued_at == now
                    &&& s.master_token.validity_secs == if 0 <= data.master_validity {
                        data.master_validity as u64
                    } else {
                        u64::MAX
                    }
                    &&& s.sequence_counter == 0
                    &&& !s.is_dirty
                },
                Err(e) => {
                    &&& e.kind == ErrorKind::AuthenticationFailure
                    &&& (data.token is None || data.master_token is None || data.validity is None)
                    &&& (data.token is None ==> e.message@
                        == "missing token in login response"@)
                    &&& (data.token is Some && data.master_token is None ==> e.message@
                        == "missing master_token in login response"@)
                    &&& (data.token is Some && data.master_token is Some && data.validity is None
                        ==> e.message@ == "missing validity in login response"@)
                },
            },
    {
        let token_string = match data.token {
            Some(t) => t,
            None => {
                return Err(
                    SnowflakeError::new(
                        ErrorKind::AuthenticationFailure,
                        String::from_str("missing token in login response"),
                    ),
                );
            },
        };
        let master_string = match data.master_token {
            Some(t) => t,
            None => {
                return Err(
                    SnowflakeError::new(
                        ErrorKind::AuthenticationFailure,
                        String::from_str("missing master_token in login response"),
                    ),
                );
            },
        };
        let validity = match data.validity {
            Some(v) => v,
            None => {
                return Err(
                    SnowflakeError::new(
                        ErrorKind::AuthenticationFailure,
                        String::from_str("missing validity in login response"),
                    ),
                );
            },
        };
        Ok(
            Session {
                token: Token::new(token_string, validity, now),
                master_token: Token::new(master_string, data.master_validity, now),
                sequence_counter: 0,
                is_dirty: false,
            },
        )
    }

    /// Hands out the current sequence id and advances the counter:
    /// every request of a session carries a unique, increasing id.
    pub fn get_sequence_count(&mut self) -> (r: u64)
        requires
            old(self).sequence_counter < u64::MAX,
        ensures
            r == old(self).sequence_counter,
            final(self).sequence_counter == old(self).sequence_counter + 1,
            final(self).token == old(self).token,
            final(self).master_token == old(self).master_token,
            final(self).is_dirty == old(self).is_dirty,
    {
        let count = self.sequence_counter;
        self.sequence_counter = self.sequence_counter + 1;
        count
    }

    /// Decides which round trip, if any, a valid bearer token needs.
    pub fn token_need(&self, now: u64) -> (r: TokenNeed)
        ensures
            r == spec_token_need(self, now),
    {
        if !self.token.is_expired(now) {
            TokenNeed::Ready
        } else if !self.master_token.is_expired(now) {
            TokenNeed::NeedsRenew
        } else {
            TokenNeed::NeedsLogin
        }
    }

    /// The current request token, valid whenever `token_need` said
    /// `Ready`.
    pub fn current_token(&self) -> (r: &str)
        ensures
            r@ == self.token.value@,
    {
        self.token.value.as_str()
    }

    /// Applies a renew response: both tokens are swapped atomically;
    /// the counter and the dirty flag stay.
    pub fn apply_renew(&mut self, data: RenewData, now: u64)
        ensures
            final(self).token.value@ == data.session_token@,
            final(self).token.issued_at == now,
            final(self).token.validity_secs == if 0 <= data.session_validity {
                data.session_validity as u64
            } else {
                u64::MAX
            },
            final(self).master_token.value@ == data.master_token@,
            final(self).master_token.issued_at == now,
            final(self).master_token.validity_secs == if 0 <= data.master_validity {
                data.master_validity as u64
            } else {
                u64::MAX
            },
            final(self).sequence_counter == old(self).sequence_counter,
            final(self).is_dirty == old(self).is_dirty,
    {
        self.token = Token::new(data.session_token, data.session_validity, now);
        self.master_token = Token::new(data.master_token, data.master_validity, now);
    }

    /// Applies a full re-login: both tokens are replaced wholesale; the
    /// counter and the dirty flag stay. Fails like `Session::new` when
    /// a field is missing, leaving the session untouched.
    pub fn apply_login(&mut self, data: AuthData, now: u64) -> (r: Result<(), SnowflakeError>)
        ensures
            match r {
                Ok(()) => {
                    &&& data.token is Some
                    &&& data.master_token is Some
                    &&& data.validity is Some
                    &&& final(self).token.value@ == data.token->0@
                    &&& final(self).token.issued_at == now
                    &&& final(self).master_token.value@ == data.master_token->0@
                    &&& final(self).master_token.issued_at == now
                    &&& final(self).sequence_counter == old(self).sequence_counter
                    &&& final(self).is_dirty == old(self).is_dirty
                },
                Err(e) => {
                    &&& e.kind == ErrorKind::AuthenticationFailure
                    &&& (data.token is None || data.master_token is None || data.validity is None)
                    &&& *final(self) == *old(self)
                },
            },
    {
        let fresh = Session::new(data, now)?;
        self.token = fresh.token;
        self.master_token = fresh.master_token;
        Ok(())
    }
}

/// The body of a token-renew round trip: the expiring request token and
/// the fixed request type.
#[derive(Clone, Debug)]
pub struct RenewRequest {
    pub old_session_token: String,
    pub request_type: String,
}

impl Session {
    /// Composes the renew request for this session's expiring token;
    /// the caller posts it under the master token.
    pub fn build_renew_request(&self) -> (r: RenewRequest)
        ensures
            r.old_session_token@ == self.token.value@,
            r.request_type@ == "RENEW"@,
    {
        RenewRequest {
            old_session_token: self.token.value.clone(),
            request_type: String::from_str("RENEW"),
        }
    }
}

/// Retrieving a token twice with no elapsed time, from a session whose
/// request token is valid, needs no round trip either time, and both
/// retrievals read the same unchanged token: neither `token_need` nor
/// `current_token` mutates the session.
pub proof fn lemma_token_retrieval_stable(s: Session, now: u64)
    requires
        !s.token.spec_expired(now),
    ensures
        spec_token_need(&s, now) == TokenNeed::Ready,
{
}

} // verus!
