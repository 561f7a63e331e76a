use snowflake_driver::errors::ErrorKind;
use snowflake_driver::pool::{
    AuthStrategy, SnowflakeConnectionOpts, SnowflakeConnectionOptsBuilder, SnowflakePool,
    SnowflakeTransaction,
};
use snowflake_driver::session::{AuthData, RenewData, Session, Token, TokenNeed};

fn auth_data() -> AuthData {
    AuthData {
        token: Some(String::from("tok-1")),
        master_token: Some(String::from("master-1")),
        validity: Some(3600),
        master_validity: 14400,
    }
}

fn opts() -> SnowflakeConnectionOpts {
    SnowflakeConnectionOpts {
        pool_size: 2,
        strategy: AuthStrategy::Password(String::from("SECRET-REDACTED")),
        account_id: String::from("acct"),
        username: String::from("user"),
        database: Some(String::from("db")),
        schema: None,
        role: None,
        warehouse: Some(String::from("wh")),
        host: None,
        download_chunks_in_parallel: 1,
        download_chunks_in_order: true,
    }
}

fn fresh_session(now: u64) -> Session {
    Session::new(auth_data(), now).expect("complete login data should build a session")
}

#[test]
fn token_expiry_follows_validity() {
    let t = Token::new(String::from("x"), 10, 100);
    assert!(!t.is_expired(100));
    assert!(!t.is_expired(109));
    assert!(t.is_expired(110));
    assert!(!t.is_expired(50));
    // a negative validity never expires
    let forever = Token::new(String::from("y"), -1, 100);
    assert!(!forever.is_expired(u64::MAX));
}

#[test]
fn token_retrieval_twice_is_stable_without_elapsed_time() {
    let s = fresh_session(1000);
    let now = 1000;
    // first retrieval: no round trip is needed, the current token is used
    assert_eq!(s.token_need(now), TokenNeed::Ready);
    let first = s.current_token().to_string();
    // second retrieval at the same instant: same answer, same token
    assert_eq!(s.token_need(now), TokenNeed::Ready);
    let second = s.current_token().to_string();
    assert_eq!(first, second);
    assert_eq!(first, "tok-1");
}

#[test]
fn two_tier_refresh_decides_renew_then_login() {
    let mut s = fresh_session(1000);
    // request token expires after 3600s, master after 14400s
    assert_eq!(s.token_need(1000 + 3600), TokenNeed::NeedsRenew);
    assert_eq!(s.token_need(1000 + 14400), TokenNeed::NeedsLogin);
    let renew = RenewData {
        session_token: String::from("tok-2"),
        session_validity: 3600,
        master_token: String::from("master-2"),
        master_validity: 14400,
    };
    s.apply_renew(renew, 1000 + 3600);
    assert_eq!(s.token_need(1000 + 3600), TokenNeed::Ready);
    assert_eq!(s.current_token(), "tok-2");
}

#[test]
fn missing_token_names_the_field() {
    let mut data = auth_data();
    data.token = None;
    let e = Session::new(data, 0).unwrap_err();
    assert_eq!(e.kind(), ErrorKind::AuthenticationFailure);
    assert_eq!(e.message(), "missing token in login response");
}

#[test]
fn missing_master_token_names_the_field() {
    let mut data = auth_data();
    data.master_token = None;
    let e = Session::new(data, 0).unwrap_err();
    assert_eq!(e.kind(), ErrorKind::AuthenticationFailure);
    assert_eq!(e.message(), "missing master_token in login response");
}

#[test]
fn missing_validity_names_the_field() {
    let mut data = auth_data();
    data.validity = None;
    let e = Session::new(data, 0).unwrap_err();
    assert_eq!(e.kind(), ErrorKind::AuthenticationFailure);
    assert_eq!(e.message(), "missing validity in login response");
}

#[test]
fn sequence_counter_is_unique_and_increasing() {
    let mut s = fresh_session(0);
    assert_eq!(s.get_sequence_count(), 0);
    assert_eq!(s.get_sequence_count(), 1);
    assert_eq!(s.get_sequence_count(), 2);
}

#[test]
fn pool_lends_each_session_once() {
    let sessions = vec![fresh_session(0), fresh_session(0)];
    let mut pool = SnowflakePool::new(sessions, opts());
    let a = pool.acquire().expect("two idle: first acquire succeeds");
    let b = pool.acquire().expect("two idle: second acquire succeeds");
    let e = pool.acquire().unwrap_err();
    assert_eq!(e.kind(), ErrorKind::PoolExhausted);
    assert_eq!(e.message(), "no available sessions");
    // releasing one reopens the pool
    pool.release(a);
    assert!(pool.acquire().is_ok());
    drop(b);
}

#[test]
fn rollback_owed_exactly_after_a_statement_ran() {
    let mut pool = SnowflakePool::new(vec![fresh_session(0)], opts());
    // a lease that ran a statement comes back dirty: the next borrower
    // owes exactly one cleanup rollback
    let mut lease = pool.acquire().unwrap();
    assert!(!lease.needs_rollback);
    lease.mark_statement_ran();
    pool.release(lease);
    let lease2 = pool.acquire().unwrap();
    assert!(lease2.needs_rollback);
    // a lease that never ran a statement causes none
    pool.release(lease2);
    let lease3 = pool.acquire().unwrap();
    assert!(!lease3.needs_rollback);
}

#[test]
fn transaction_owns_its_session_exclusively() {
    let tx = SnowflakeTransaction::new(fresh_session(0));
    let s = tx.take_session().expect("a live transaction hands its session back");
    assert_eq!(s.sequence_counter, 0);
    let dead = SnowflakeTransaction { session: None };
    let e = dead.take_session().unwrap_err();
    assert_eq!(e.kind(), ErrorKind::DeadSession);
    assert_eq!(e.message(), "the underlying session for this transaction is dead");
}

#[test]
fn renew_requests_carry_the_expiring_token() {
    let s = fresh_session(0);
    let r = s.build_renew_request();
    assert_eq!(r.old_session_token, "tok-1");
    assert_eq!(r.request_type, "RENEW");
}

#[test]
fn builder_collects_options_and_names_missing_fields() {
    let built = SnowflakeConnectionOptsBuilder::new()
        .pool_size(3)
        .strategy(AuthStrategy::Password(String::from("SECRET-REDACTED")))
        .account_id(String::from("acct"))
        .username(String::from("user"))
        .database(String::from("db"))
        .download_chunks_in_parallel(10)
        .download_chunks_in_order(false)
        .build()
        .expect("all required fields are set");
    assert_eq!(built.pool_size, 3);
    assert_eq!(built.download_chunks_in_parallel, 10);
    assert!(!built.download_chunks_in_order);
    assert_eq!(built.database, Some(String::from("db")));
    assert_eq!(built.schema, None);
    let missing = SnowflakeConnectionOptsBuilder::new().pool_size(1).build();
    assert!(missing.is_err());
}
