//! The connection pool: idle sessions lent out one borrower at a time,
//! with transaction-safe reuse.
//!
//! A session is either idle in the pool or held by exactly one lease,
//! never both. A lease records whether any statement ran on it; on
//! release the session is stored with that mark, and the next acquire
//! reports whether a cleanup ROLLBACK is owed before the new borrower's
//! first statement.

use vstd::prelude::*;

use crate::errors::{ErrorKind, SnowflakeError};
use crate::session::Session;

verus! {

/// How a session authenticates.
#[derive(Clone, Debug)]
pub enum AuthStrategy {
    /// A login-name password.
    Password(String),
    /// A PEM-encoded private key whose signed JWT proves the identity.
    Certificate(String),
}

/// The options a pool is built with.
#[derive(Clone, Debug)]
pub struct SnowflakeConnectionOpts {
    pub pool_size: usize,
    pub strategy: AuthStrategy,
    pub account_id: String,
    pub username: String,
    pub database: Option<String>,
    pub schema: Option<String>,
    pub role: Option<String>,
    pub warehouse: Option<String>,
    /// Overrides `https://{account_id}.snowflakecomputing.com`.
    pub host: Option<String>,
    /// How many chunk fetches may be in flight at once.
    pub download_chunks_in_parallel: usize,
    /// Hand chunks to the consumer in their listed order.
    pub download_chunks_in_order: bool,
}

/// Collects connection options field by field; `build` checks that the
/// required ones were set.
#[derive(Clone, Debug)]
pub struct SnowflakeConnectionOptsBuilder {
    pub pool_size: Option<usize>,
    pub strategy: Option<AuthStrategy>,
    pub account_id: Option<String>,
    pub username: Option<String>,
    pub database: Option<String>,
    pub schema: Option<String>,
    pub role: Option<String>,
    pub warehouse: Option<String>,
    pub host: Option<String>,
    pub download_chunks_in_parallel: usize,
    pub download_chunks_in_order: bool,
}

impl SnowflakeConnectionOptsBuilder {
    /// An empty builder: one sequential, ordered chunk fetch by
    /// default.
    pub fn new() -> (r: SnowflakeConnectionOptsBuilder)
        ensures
            r.pool_size is None,
            r.strategy is None,
            r.account_id is None,
            r.username is None,
            r.database is None,
            r.schema is None,
            r.role is None,
            r.warehouse is None,
            r.host is None,
            r.download_chunks_in_parallel == 1,
            r.download_chunks_in_order,
    {
        SnowflakeConnectionOptsBuilder {
            pool_size: None,
            strategy: None,
            account_id: None,
            username: None,
            database: None,
            schema: None,
            role: None,
            warehouse: None,
            host: None,
            download_chunks_in_parallel: 1,
            download_chunks_in_order: true,
        }
    }

    pub fn pool_size(self, v: usize) -> (r: Self)
        ensures
            r == (Self { pool_size: Some(v), ..self }),
    {
        Self { pool_size: Some(v), ..self }
    }

    pub fn strategy(self, v: AuthStrategy) -> (r: Self)
        ensures
            r == (Self { strategy: Some(v), ..self }),
    {
        Self { strategy: Some(v), ..self }
    }

    pub fn account_id(self, v: String) -> (r: Self)
        ensures
            r == (Self { account_id: Some(v), ..self }),
    {
        Self { account_id: Some(v), ..self }
    }

    pub fn username(self, v: String) -> (r: Self)
        ensures
            r == (Self { username: Some(v), ..self }),
    {
        Self { username: Some(v), ..self }
    }

    pub fn database(self, v: String) -> (r: Self)
        ensures
            r == (Self { database: Some(v), ..self }),
    {
        Self { database: Some(v), ..self }
    }

    pub fn schema(self, v: String) -> (r: Self)
        ensures
            r == (Self { schema: Some(v), ..self }),
    {
        Self { schema: Some(v), ..self }
    }

    pub fn role(self, v: String) -> (r: Self)
        ensures
            r == (Self { role: Some(v), ..self }),
    {
        Self { role: Some(v), ..self }
    }

    pub fn warehouse(self, v: String) -> (r: Self)
        ensures
            r == (Self { warehouse: Some(v), ..self }),
    {
        Self { warehouse: Some(v), ..self }
    }

    pub fn host(self, v: String) -> (r: Self)
        ensures
            r == (Self { host: Some(v), ..self }),
    {
        Self { host: Some(v), ..self }
    }

    pub fn download_chunks_in_parallel(self, v: usize) -> (r: Self)
        ensures
            r == (Self { download_chunks_in_parallel: v, ..self }),
    {
        Self { download_chunks_in_parallel: v, ..self }
    }

    pub fn download_chunks_in_order(self, v: bool) -> (r: Self)
        ensures
            r == (Self { download_chunks_in_order: v, ..self }),
    {
        Self { download_chunks_in_order: v, ..self }
    }

    /// The finished options; fails while a required field is missing.
    pub fn build(self) -> (r: Result<SnowflakeConnectionOpts, SnowflakeError>)
        ensures
            match r {
                Ok(o) => {
                    &&& self.pool_size == Some(o.pool_size)
                    &&& self.strategy == Some(o.strategy)
                    &&& self.account_id == Some(o.account_id)
                    &&& self.username == Some(o.username)
                    &&& o.database == self.database
                    &&& o.schema == self.schema
                    &&& o.role == self.role
                    &&& o.warehouse == self.warehouse
                    &&& o.host == self.host
                    &&& o.download_chunks_in_parallel == self.download_chunks_in_parallel
                    &&& o.download_chunks_in_order == self.download_chunks_in_order
                },
                Err(e) => {
                    &&& (self.pool_size is None || self.strategy is None || self.account_id is None
                        || self.username is None)
                    &&& e.kind == ErrorKind::ProtocolError
                },
            },
    {
        let pool_size = match self.pool_size {
            Some(v) => v,
            None => {
                return Err(builder_error("pool_size"));
            },
        };
        let strategy = match self.strategy {
            Some(v) => v,
            None => {
                return Err(builder_error("strategy"));
            },
        };
        let account_id = match self.account_id {
            Some(v) => v,
            None => {
                return Err(builder_error("account_id"));
            },
        };
        let username = match self.username {
            Some(v) => v,
            None => {
                return Err(builder_error("username"));
            },
        };
        Ok(
            SnowflakeConnectionOpts {
                pool_size,
                strategy,
                account_id,
                username,
                database: self.database,
                schema: self.schema,
                role: self.role,
                warehouse: self.warehouse,
                host: self.host,
                download_chunks_in_parallel: self.download_chunks_in_parallel,
                download_chunks_in_order: self.download_chunks_in_order,
            },
        )
    }
}

fn builder_error(field: &str) -> (r: SnowflakeError)
    ensures
        r.kind == ErrorKind::ProtocolError,
{
    let mut msg = String::from_str("connection options are missing ");
    msg.append(field);
    SnowflakeError::new(ErrorKind::ProtocolError, msg)
}

/// A borrowed session: the pool's record of one exclusive lease.
#[derive(Debug)]
pub struct PooledLease {
    pub session: Session,
    /// A cleanup ROLLBACK is owed before the first statement.
    pub needs_rollback: bool,
    /// Whether any statement has run on this lease.
    pub ran_statement: bool,
}

impl PooledLease {
    /// Records that a statement ran on this lease.
    pub fn mark_statement_ran(&mut self)
        ensures
            final(self).ran_statement,
            final(self).session == old(self).session,
            final(self).needs_rollback == old(self).needs_rollback,
    {
        self.ran_statement = true;
    }
}

/// The session as it is stored back into the idle set: dirty exactly
/// when the lease ran a statement.
pub open spec fn spec_release(idle: Seq<Session>, s: Session, ran: bool) -> Seq<Session> {
    idle.push(
        Session {
            token: s.token,
            master_token: s.master_token,
            sequence_counter: s.sequence_counter,
            is_dirty: ran,
        },
    )
}

/// Whether the next acquire succeeds, and whether it owes a rollback.
pub open spec fn spec_acquire_rollback(idle: Seq<Session>) -> Option<bool> {
    if idle.len() > 0 {
        Some(idle[0].is_dirty)
    } else {
        None
    }
}

/// The idle set left after `k` acquisitions.
pub open spec fn idle_after_acquires(idle: Seq<Session>, k: nat) -> Seq<Session>
    decreases k,
{
    if k == 0 {
        idle
    } else {
        let prev = idle_after_acquires(idle, (k - 1) as nat);
        if prev.len() > 0 {
            prev.skip(1)
        } else {
            prev
        }
    }
}

/// A pool of idle sessions and the options they were built with.
pub struct SnowflakePool {
    pub idle: Vec<Session>,
    pub opts: SnowflakeConnectionOpts,
}

impl SnowflakePool {
    pub fn new(sessions: Vec<Session>, opts: SnowflakeConnectionOpts) -> (r: SnowflakePool)
        ensures
            r.idle == sessions,
            r.opts == opts,
    {
        SnowflakePool { idle: sessions, opts }
    }

    /// Lends out the oldest idle session, exclusively; with none idle,
    /// the caller observes PoolExhausted. The lease says whether a
    /// cleanup ROLLBACK is owed before its first statement.
    pub fn acquire(&mut self) -> (r: Result<PooledLease, SnowflakeError>)
        ensures
            match r {
                Ok(l) => {
                    &&& old(self).idle@.len() > 0
                    &&& l.session == old(self).idle@[0]
                    &&& Some(l.needs_rollback) == spec_acquire_rollback(old(self).idle@)
                    &&& !l.ran_statement
                    &&& final(self).idle@ == old(self).idle@.skip(1)
                },
                Err(e) => {
                    &&& old(self).idle@.len() == 0
                    &&& spec_acquire_rollback(old(self).idle@) is None
                    &&& e.kind == ErrorKind::PoolExhausted
                    &&& e.message@ == "no available sessions"@
                    &&& final(self).idle@ == old(self).idle@
                },
            },
            final(self).opts == old(self).opts,
    {
        if self.idle.len() == 0 {
            return Err(
                SnowflakeError::new(
                    ErrorKind::PoolExhausted,
                    String::from_str("no available sessions"),
                ),
            );
        }
        let session = self.idle.remove(0);
        let needs_rollback = session.is_dirty;
        proof {
            assert(self.idle@ =~= old(self).idle@.skip(1));
        }
        Ok(PooledLease { session, needs_rollback, ran_statement: false })
    }

    /// Takes a lease back: the session returns to the idle set, marked
    /// dirty exactly when the lease ran a statement, so cleanup is
    /// deferred to the next acquire.
    pub fn release(&mut self, lease: PooledLease)
        ensures
            final(self).idle@ == spec_release(old(self).idle@, lease.session, lease.ran_statement),
            final(self).opts == old(self).opts,
    {
        let PooledLease { mut session, needs_rollback: _, ran_statement } = lease;
        session.is_dirty = ran_statement;
        self.idle.push(session);
        proof {
            assert(self.idle@ =~= spec_release(
                old(self).idle@,
                lease.session,
                lease.ran_statement,
            ));
        }
    }
}

/// With `n` idle sessions, the first `n` acquisitions all succeed, the
/// pool is then empty, and every further acquisition observes
/// PoolExhausted until a release refills the idle set.
pub proof fn lemma_pool_exclusivity(idle: Seq<Session>, k: nat)
    ensures
        idle_after_acquires(idle, k).len() == if k <= idle.len() {
            idle.len() - k
        } else {
            0
        },
        k < idle.len() ==> spec_acquire_rollback(idle_after_acquires(idle, k)) is Some,
        k >= idle.len() ==> spec_acquire_rollback(idle_after_acquires(idle, k)) is None,
    decreases k,
{
    if k > 0 {
        lemma_pool_exclusivity(idle, (k - 1) as nat);
    }
}

/// After `k` acquisitions, the sessions left are the idle set's `k`th
/// suffix: the pool lends in arrival order.
pub proof fn lemma_idle_after_acquires_skip(idle: Seq<Session>, k: nat)
    requires
        k <= idle.len(),
    ensures
        idle_after_acquires(idle, k) == idle.skip(k as int),
    decreases k,
{
    if k == 0 {
        assert(idle.skip(0) =~= idle);
    } else {
        lemma_idle_after_acquires_skip(idle, (k - 1) as nat);
        assert(idle.skip((k - 1) as int).skip(1) =~= idle.skip(k as int));
    }
}

/// Exclusivity: after any number of successful acquisitions, the lent
/// sessions (the idle set's prefix, one per borrower) and the sessions
/// still idle partition the original idle set, so a session is idle in
/// the pool or held by exactly one borrower, never both.
pub proof fn lemma_pool_partition(idle: Seq<Session>, k: nat)
    requires
        k <= idle.len(),
    ensures
        idle_after_acquires(idle, k) == idle.skip(k as int),
        idle.take(k as int) + idle_after_acquires(idle, k) == idle,
{
    lemma_idle_after_acquires_skip(idle, k);
    assert(idle.take(k as int) + idle.skip(k as int) =~= idle);
}

/// Deferred cleanup: release a session into a pool of `n` idle
/// sessions, drain those `n`, and the next acquire hands out exactly
/// that session, owing a ROLLBACK precisely when a statement had run on
/// its lease.
pub proof fn lemma_deferred_rollback(idle: Seq<Session>, s: Session, ran: bool)
    ensures
        spec_acquire_rollback(idle_after_acquires(spec_release(idle, s, ran), idle.len()))
            == Some(ran),
{
    let released = spec_release(idle, s, ran);
    lemma_idle_after_acquires_skip(released, idle.len());
    assert(released.skip(idle.len() as int) =~= seq![
        Session {
            token: s.token,
            master_token: s.master_token,
            sequence_counter: s.sequence_counter,
            is_dirty: ran,
        },
    ]);
}

/// A transaction owns one session outside the pool, exclusively, until
/// it is committed or rolled back.
#[derive(Debug)]
pub struct SnowflakeTransaction {
    pub session: Option<Session>,
}

impl SnowflakeTransaction {
    pub fn new(session: Session) -> (r: SnowflakeTransaction)
        ensures
            r.session == Some(session),
    {
        SnowflakeTransaction { session: Some(session) }
    }

    /// Consumes the transaction, handing its session back for the
    /// closing COMMIT or ROLLBACK statement; DeadSession once the
    /// session is gone.
    pub fn take_session(self) -> (r: Result<Session, SnowflakeError>)
        ensures
            match r {
                Ok(s) => self.session == Some(s),
                Err(e) => self.session is None && e.kind == ErrorKind::DeadSession && e.message@
                    == "the underlying session for this transaction is dead"@,
            },
    {
        match self.session {
            Some(s) => Ok(s),
            None => Err(
                SnowflakeError::new(
                    ErrorKind::DeadSession,
                    String::from_str("the underlying session for this transaction is dead"),
                ),
            ),
        }
    }
}

} // verus!
