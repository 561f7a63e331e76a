use snowflake_driver::bindings::{BindValue, Bindings};
use snowflake_driver::cell::{Cell, CellValue, Column, ColumnType, ToCellValue};
use snowflake_driver::errors::ErrorKind;
use snowflake_driver::executor::{build_query_request, SnowflakeConnection};
use snowflake_driver::login::{build_jwt_claims, build_login_payload, login_params};
use snowflake_driver::pool::{AuthStrategy, SnowflakeConnectionOpts};
use snowflake_driver::protocol::{decode_text_chunk, rows_from_strings, DescribeResult, JsonDescribeResult, JsonQueryResult};
use snowflake_driver::response::{
    decode_inline_batch, dispatch_response, AsynchronousResponseData, ExecResponse,
    ExecResponseData, ExecResponseErrorData, FileTransferResponseData, QueryStats,
    RawQueryResponse,
};
use snowflake_driver::row::Row;
use snowflake_driver::session::{AuthData, Session};
use snowflake_driver::url::{build_base_url, construct_url, encode_into};

fn text_col(name: &str) -> Column {
    Column {
        col_type: ColumnType::Text,
        name: String::from(name),
        precision: None,
        scale: None,
        nullable: true,
    }
}

fn raw_response(statement_type_id: i64) -> RawQueryResponse {
    RawQueryResponse {
        rowtype: vec![text_col("a")],
        rowset: None,
        rowset_base64: None,
        total: 1,
        returned: 1,
        query_id: String::from("qid"),
        query_result_format: Some(String::from("json")),
        sql_state: None,
        number_of_binds: 0,
        meta_data_of_binds: None,
        statement_type_id,
        version: 1,
        stats: None,
        chunks: Vec::new(),
        chunk_headers: Vec::new(),
        qrmk: None,
    }
}

#[test]
fn dml_range_has_no_rows_to_retrieve() {
    for id in [0x3000i64, 0x3100, 0x3500] {
        let raw = raw_response(id);
        assert!(raw.is_dml());
        assert!(!raw.is_dql());
        let e = raw.ensure_rows_allowed().unwrap_err();
        assert_eq!(e.message(), "there are no rows to retrieve");
    }
    let select = raw_response(0x1000);
    assert!(select.is_dql());
    assert!(!select.is_dml());
    assert!(select.ensure_rows_allowed().is_ok());
    assert!(!raw_response(0x2fff).is_dml());
    assert!(!raw_response(0x3501).is_dml());
}

#[test]
fn dml_stats_sum_into_rows_affected() {
    let mut raw = raw_response(0x3000);
    raw.stats = Some(QueryStats {
        num_dml_duplicates: 1,
        num_rows_inserted: 2,
        num_rows_updated: 3,
        num_rows_deleted: 4,
    });
    assert_eq!(raw.rows_affected(), 10);
    assert_eq!(raw.rows_inserted(), 2);
    assert_eq!(raw.rows_updated(), 3);
    assert_eq!(raw.rows_deleted(), 4);
    assert_eq!(raw_response(0x3000).rows_affected(), 0);
}

#[test]
fn dispatch_follows_redirects_and_refuses_file_transfer() {
    let poll = dispatch_response(ExecResponse::Success(ExecResponseData::AsyncQuery(
        AsynchronousResponseData {
            get_result_url: String::from("/queries/abc/result"),
            query_aborts_after_secs: 300,
            query_id: String::from("qid"),
        },
    )))
    .unwrap();
    match poll {
        snowflake_driver::response::ResponseStep::Poll(u) => {
            assert_eq!(u, "/queries/abc/result")
        }
        _ => panic!("an async response must be re-polled"),
    }
    let put_get = dispatch_response(ExecResponse::Success(ExecResponseData::PutGet(
        FileTransferResponseData {
            parallel: 1,
            threshold: 1,
            presigned_urls: Vec::new(),
        },
    )))
    .unwrap_err();
    assert_eq!(put_get.kind(), ErrorKind::UnsupportedOperation);
    assert_eq!(put_get.message(), "file transfer is not implemented");
    let failure = dispatch_response(ExecResponse::Failure(
        ExecResponseErrorData {
            age: 0,
            error_code: String::from("002003"),
            query_id: String::from("qid"),
            sql_state: String::from("42S02"),
            line: None,
            pos: None,
            internal_error: false,
        },
        Some(String::from("SQL compilation error")),
    ))
    .unwrap_err();
    assert_eq!(failure.kind(), ErrorKind::ProtocolError);
    assert_eq!(failure.message(), "SQL compilation error");
}

#[test]
fn first_chunk_parses_as_is() {
    let rows = decode_text_chunk(true, b"[[\"x\", null]]".to_vec()).unwrap();
    assert_eq!(rows, vec![vec![Some(String::from("x")), None]]);
}

#[test]
fn later_chunks_get_their_array_delimiters_synthesized() {
    // a later chunk arrives as tuples without the enclosing array
    let rows = decode_text_chunk(false, b"[\"a\"],[\"b\"]".to_vec()).unwrap();
    assert_eq!(
        rows,
        vec![vec![Some(String::from("a"))], vec![Some(String::from("b"))]]
    );
    // unframed, the same bytes are not valid JSON
    assert!(decode_text_chunk(true, b"[\"a\"],[\"b\"]".to_vec()).is_err());
}

#[test]
fn rows_are_numbered_from_the_cursor() {
    let cols = vec![text_col("a")];
    let parsed = vec![vec![Some(String::from("x"))], vec![None]];
    let rows = rows_from_strings(&cols, parsed, 7);
    assert_eq!(rows.len(), 2);
    assert_eq!(rows[0].idx, 7);
    assert_eq!(rows[1].idx, 8);
    let cell: Cell = rows[0].get(0).unwrap();
    assert_eq!(cell.value, CellValue::Text(Some(String::from("x"))));
    let null_cell = rows[1].get(0).unwrap();
    assert_eq!(null_cell.value, CellValue::Null);
}

#[test]
fn row_cells_use_typed_nulls() {
    let row = Row::new(vec![text_col("a")], vec![None], 0);
    let cells = row.cells();
    assert_eq!(cells.len(), 1);
    assert_eq!(cells[0].as_ref().unwrap().value, CellValue::Text(None));
}

#[test]
fn inline_batches_decode_from_base64() {
    assert_eq!(decode_inline_batch("aGk=").unwrap(), b"hi");
    let e = decode_inline_batch("not base64!").unwrap_err();
    assert_eq!(e.kind(), ErrorKind::DecodeError);
}

#[test]
fn binding_one_value_serialises_as_a_scalar() {
    let mut b = Bindings::new();
    b.bind_row(vec!["x".to_cell_value()]);
    let out = b.get_final_bindings();
    assert_eq!(out.len(), 1);
    assert_eq!(out[0].0, "1");
    assert_eq!(out[0].1.binding_type, "TEXT");
    assert_eq!(out[0].1.format, None);
    assert_eq!(
        out[0].1.value,
        Some(BindValue::Scalar(String::from("x")))
    );
}

#[test]
fn binding_three_values_serialises_as_an_array() {
    let mut b = Bindings::new();
    b.bind_row(vec!["a".to_cell_value()]);
    b.bind_row(vec!["b".to_cell_value()]);
    b.bind_row(vec!["c".to_cell_value()]);
    let out = b.get_final_bindings();
    assert_eq!(out.len(), 1);
    assert_eq!(out[0].0, "1");
    assert_eq!(out[0].1.binding_type, "TEXT");
    assert_eq!(out[0].1.format, None);
    assert_eq!(
        out[0].1.value,
        Some(BindValue::Slice(vec![
            Some(String::from("a")),
            Some(String::from("b")),
            Some(String::from("c")),
        ]))
    );
}

#[test]
fn binary_bindings_carry_the_json_format_hint() {
    let mut b = Bindings::new();
    b.bind_value(String::from("1"), CellValue::Binary(Some(vec![0xab])));
    let out = b.get_final_bindings();
    assert_eq!(out[0].1.binding_type, "BINARY");
    assert_eq!(out[0].1.format, Some(String::from("json")));
    assert_eq!(out[0].1.value, Some(BindValue::Scalar(String::from("ab"))));
}

#[test]
fn named_bindings_group_by_key() {
    let mut b = Bindings::new();
    b.bind_row_named(vec![(String::from("name"), "carl".to_cell_value())]);
    b.bind_row_named(vec![(String::from("name"), "ada".to_cell_value())]);
    let out = b.get_final_bindings();
    assert_eq!(out.len(), 1);
    assert_eq!(out[0].0, "name");
    assert_eq!(
        out[0].1.value,
        Some(BindValue::Slice(vec![
            Some(String::from("carl")),
            Some(String::from("ada")),
        ]))
    );
}

fn opts() -> SnowflakeConnectionOpts {
    SnowflakeConnectionOpts {
        pool_size: 1,
        strategy: AuthStrategy::Password(String::from("SECRET-REDACTED")),
        account_id: String::from("acct"),
        username: String::from("user"),
        database: Some(String::from("db")),
        schema: None,
        role: Some(String::from("dev")),
        warehouse: None,
        host: None,
        download_chunks_in_parallel: 1,
        download_chunks_in_order: true,
    }
}

#[test]
fn query_requests_carry_increasing_sequence_ids() {
    let mut session = Session::new(
        AuthData {
            token: Some(String::from("t")),
            master_token: Some(String::from("m")),
            validity: Some(10),
            master_validity: 20,
        },
        0,
    )
    .unwrap();
    let b = Bindings::new();
    let r1 = build_query_request(&mut session, String::from("SELECT 1;"), false, &b);
    let r2 = build_query_request(&mut session, String::from("SELECT 2;"), true, &b);
    assert_eq!(r1.sequence_id, 0);
    assert_eq!(r2.sequence_id, 1);
    assert!(!r1.describe_only);
    assert!(r2.describe_only);
    assert!(!r1.async_exec);
    assert!(!r1.is_internal);
}

#[test]
fn dead_connections_observe_dead_session() {
    let conn = SnowflakeConnection { session: None };
    let e = conn.check_live().unwrap_err();
    assert_eq!(e.kind(), ErrorKind::DeadSession);
    assert_eq!(e.message(), "the underlying session for this connection is dead");
}

#[test]
fn typed_values_bind_under_their_own_type_names() {
    let mut b = Bindings::new();
    b.bind_row(vec![(-9i64).to_cell_value()]);
    b.bind_row_named(vec![(String::from("flag"), true.to_cell_value())]);
    let out = b.get_final_bindings();
    assert_eq!(out[0].1.binding_type, "FIXED");
    assert_eq!(out[0].1.value, Some(BindValue::Scalar(String::from("-9"))));
    assert_eq!(out[1].0, "flag");
    assert_eq!(out[1].1.binding_type, "BOOLEAN");
    assert_eq!(out[1].1.value, Some(BindValue::Scalar(String::from("true"))));
}

#[test]
fn login_payload_reads_as_the_go_client() {
    let p = build_login_payload(&opts(), None).unwrap();
    assert_eq!(p.client_app_id, "Go");
    assert_eq!(p.client_app_version, "1.18.1");
    assert_eq!(p.account_name, "acct");
    assert_eq!(p.login_name, "user");
    assert_eq!(p.password, Some(String::from("SECRET-REDACTED")));
    assert_eq!(p.authenticator, None);
    assert_eq!(p.token, None);
}

#[test]
fn certificate_login_announces_the_jwt_authenticator() {
    let mut o = opts();
    o.strategy = AuthStrategy::Certificate(String::from("SECRET-REDACTED"));
    assert!(build_login_payload(&o, None).is_err());
    let p = build_login_payload(&o, Some(String::from("signed.jwt"))).unwrap();
    assert_eq!(p.password, None);
    assert_eq!(p.authenticator, Some(String::from("SNOWFLAKE_JWT")));
    assert_eq!(p.token, Some(String::from("signed.jwt")));
}

#[test]
fn login_params_keep_their_order_and_skip_absent_options() {
    let params = login_params(&opts());
    assert_eq!(params.len(), 2);
    assert_eq!(params[0], (String::from("databaseName"), String::from("db")));
    assert_eq!(params[1], (String::from("roleName"), String::from("dev")));
}

#[test]
fn jwt_claims_name_account_user_and_fingerprint() {
    let c = build_jwt_claims("acct", "user", "abc123", 1_700_000_000);
    assert_eq!(c.iss, "acct.user.SHA256:abc123");
    assert_eq!(c.sub, "acct.user");
    assert_eq!(c.iat, 1_700_000_000);
    assert_eq!(c.exp, 1_700_000_060);
    assert_eq!(c.nbf, 1_444_478_400_000);
}

#[test]
fn urls_percent_encode_their_parameters() {
    let params = vec![
        (String::from("databaseName"), String::from("my db")),
        (String::from("role"), String::from("a&b=c")),
    ];
    let url = construct_url("https://acct.example.com/session", &params);
    assert_eq!(
        url,
        "https://acct.example.com/session?databaseName=my%20db&role=a%26b%3Dc"
    );
    let bare = construct_url("https://acct.example.com/session", &Vec::new());
    assert_eq!(bare, "https://acct.example.com/session");
    let mut buf = String::new();
    encode_into(&mut buf, "Aa0-._~/");
    assert_eq!(buf, "Aa0-._~%2F");
}

#[test]
fn base_urls_default_to_the_account_host() {
    assert_eq!(
        build_base_url(&None, "acct", "/session"),
        "https://acct.snowflakecomputing.com/session"
    );
    assert_eq!(
        build_base_url(&Some(String::from("https://private.example.com")), "acct", "/session"),
        "https://private.example.com/session"
    );
}

#[test]
fn describe_results_surface_bind_metadata() {
    let mut raw = raw_response(0x1000);
    raw.number_of_binds = 2;
    let d = JsonDescribeResult { raw };
    assert_eq!(d.bind_count(), 2);
    assert!(d.bind_metadata().is_none());
    assert_eq!(d.columns().len(), 1);
    let q = JsonQueryResult::new(raw_response(0x1000));
    assert_eq!(q.expected_result_length(), 1);
    assert!(q.is_dql());
}
