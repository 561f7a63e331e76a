//! The query executor's composed request and the session-liveness gate
//! shared by connections and transactions.

use vstd::prelude::*;

use crate::bindings::{Binding, Bindings};
use crate::errors::{ErrorKind, SnowflakeError};
use crate::session::Session;

verus! {

/// One composed query-submit request body, as plain fields: the SQL
/// text, the session's unique sequence id, the describe-only flag, the
/// serialised bindings, and the fixed flags.
pub struct QueryRequest {
    pub sql_text: String,
    pub sequence_id: u64,
    pub describe_only: bool,
    pub bindings: Vec<(String, Binding)>,
    pub async_exec: bool,
    pub is_internal: bool,
}

/// Composes a query request on a session: the request takes the
/// session's current sequence id and advances the counter, so every
/// request of a session carries a unique, increasing id.
pub fn build_query_request(
    session: &mut Session,
    sql_text: String,
    describe_only: bool,
    bindings: &Bindings,
) -> (r: QueryRequest)
    requires
        old(session).sequence_counter < u64::MAX,
        bindings.wf(),
    ensures
        r.sql_text@ == sql_text@,
        r.sequence_id == old(session).sequence_counter,
        r.describe_only == describe_only,
        !r.async_exec,
        !r.is_internal,
        r.bindings@.len() == bindings.entries@.len(),
        forall|i: int|
            0 <= i < r.bindings@.len() ==> crate::bindings::binding_matches(
                bindings.entries@[i],
                #[trigger] r.bindings@[i],
            ),
        final(session).sequence_counter == old(session).sequence_counter + 1,
        final(session).token == old(session).token,
        final(session).master_token == old(session).master_token,
        final(session).is_dirty == old(session).is_dirty,
{
    let sequence_id = session.get_sequence_count();
    QueryRequest {
        sql_text,
        sequence_id,
        describe_only,
        bindings: bindings.get_final_bindings(),
        async_exec: false,
        is_internal: false,
    }
}

/// A connection borrowed from the pool; its session is absent once the
/// handle died.
pub struct SnowflakeConnection {
    pub session: Option<Session>,
}

impl SnowflakeConnection {
    pub fn new(session: Session) -> (r: SnowflakeConnection)
        ensures
            r.session == Some(session),
    {
        SnowflakeConnection { session: Some(session) }
    }

    /// Checks that the session behind this handle is still alive; a
    /// handle whose session was already reclaimed observes DeadSession.
    pub fn check_live(&self) -> (r: Result<(), SnowflakeError>)
        ensures
            match r {
                Ok(()) => self.session is Some,
                Err(e) => self.session is None && e.kind == ErrorKind::DeadSession && e.message@
                    == "the underlying session for this connection is dead"@,
            },
    {
        match &self.session {
            Some(_) => Ok(()),
            None => Err(
                SnowflakeError::new(
                    ErrorKind::DeadSession,
                    String::from_str("the underlying session for this connection is dead"),
                ),
            ),
        }
    }
}

} // verus!
