use timefusion::auth::{User, UserDB};
use timefusion::error::TimeFusionError;
use timefusion::schema::{DataType, Field, TimeUnit};
use timefusion::service::{
    run_pgwire_server, BackendMessage, ConnectionEvent, ConnectionState, DfSessionService,
    FrontendMessage, ListenerAction, ListenerEvent, PgQueryParser, QueryAction, TransactionStatus,
};
use timefusion::wire::{FieldFormat, Type};

const PASSWORD_HASH: &str = "$2a$04$UuTkLRZZ6QofpDOlMz32MuuxEHA43WOemOYHPz6.SjsVsyO1tDU96";

fn service() -> DfSessionService {
    DfSessionService::new(Some(UserDB::new(vec![User {
        username: "alice".to_string(),
        hashed_password: PASSWORD_HASH.to_string(),
        is_admin: false,
    }])))
}

fn startup(user: Option<&str>, password: Option<&str>) -> FrontendMessage {
    FrontendMessage::Startup {
        user: user.map(|s| s.to_string()),
        password: password.map(|s| s.to_string()),
    }
}

fn refused(r: Result<Vec<BackendMessage>, TimeFusionError>) -> String {
    match r {
        Err(TimeFusionError::AuthFailed(reason)) => reason,
        other => panic!("expected AuthFailed, got {:?}", other),
    }
}

fn welcome() -> Vec<BackendMessage> {
    vec![BackendMessage::AuthenticationOk, BackendMessage::ReadyForQuery(TransactionStatus::Idle)]
}

#[test]
fn a_service_without_a_database_has_no_users() {
    let s = DfSessionService::new(None);
    assert!(s.user_db.users.is_empty());
    assert_eq!(
        refused(s.on_startup(&startup(Some("alice"), Some("password")), None)),
        "Authentication failed"
    );
}

#[test]
fn the_right_password_gets_the_welcome() {
    let s = service();
    assert_eq!(s.on_startup(&startup(Some("alice"), Some("password")), None).unwrap(), welcome());
    assert_eq!(
        s.on_startup(&startup(Some("alice"), Some("password")), Some("ignored")).unwrap(),
        welcome()
    );
}

#[test]
fn a_wrong_password_is_an_authentication_failure() {
    let s = service();
    assert_eq!(
        refused(s.on_startup(&startup(Some("alice"), Some("wrong")), None)),
        "Authentication failed"
    );
    assert_eq!(
        refused(s.on_startup(&startup(Some("alice"), Some("wrong")), Some("password"))),
        "Authentication failed"
    );
    assert_eq!(
        refused(s.on_startup(&startup(Some("bob"), Some("password")), None)),
        "Authentication failed"
    );
    assert_eq!(
        refused(s.on_startup(&startup(None, Some("password")), None)),
        "Authentication failed"
    );
}

#[test]
fn without_a_password_the_fallback_decides() {
    let s = service();
    assert_eq!(s.on_startup(&startup(Some("alice"), None), Some("password")).unwrap(), welcome());
    assert_eq!(
        s.on_startup(&startup(Some("alice"), Some("")), Some("password")).unwrap(),
        welcome()
    );
    assert_eq!(
        refused(s.on_startup(&startup(Some("alice"), None), Some("wrong"))),
        "No password provided"
    );
    assert_eq!(refused(s.on_startup(&startup(Some("alice"), None), None)), "No password provided");
    assert_eq!(
        refused(s.on_startup(&startup(Some("bob"), None), Some("password"))),
        "No password provided"
    );
    assert_eq!(refused(s.on_startup(&startup(None, None), Some("password"))), "No password provided");
}

#[test]
fn anything_but_a_startup_message_is_refused() {
    let s = service();
    assert_eq!(
        refused(s.on_startup(&FrontendMessage::Other, Some("password"))),
        "Expected Startup message"
    );
    assert_eq!(refused(s.on_startup(&FrontendMessage::Other, None)), "Expected Startup message");
}

#[test]
fn write_verbs_go_to_the_database() {
    let s = service();
    let insert = "INSERT INTO otel_logs_and_spans (project_id, timestamp, id, name, status_code, \
                  duration, start_time) VALUES ('test_project', TIMESTAMP '2023-01-01T10:00:00Z', \
                  'sql_span1', 'sql_test_span', 'OK', 150000000, TIMESTAMP '2023-01-01T10:00:00Z')";
    match s.do_query(insert).unwrap() {
        QueryAction::Insert(sql) => assert_eq!(sql, insert),
        other => panic!("expected an insert, got {:?}", other),
    }
    match s.do_query("  update t set a = 1::regclass").unwrap() {
        QueryAction::Update(sql) => assert_eq!(sql, "  update t set a = 1::regclass"),
        other => panic!("expected an update, got {:?}", other),
    }
    match s.do_query("Delete from t").unwrap() {
        QueryAction::Delete(sql) => assert_eq!(sql, "Delete from t"),
        other => panic!("expected a delete, got {:?}", other),
    }
}

#[test]
fn other_statements_are_prepared_and_executed() {
    let s = service();
    match s.do_query("SELECT id FROM otel_logs_and_spans WHERE id='sql_span1'").unwrap() {
        QueryAction::Execute(sql) => {
            assert_eq!(sql, "SELECT id FROM otel_logs_and_spans WHERE id='sql_span1'")
        }
        other => panic!("expected an execute, got {:?}", other),
    }
    match s.do_query("SELECT 'pg_class'::regclass").unwrap() {
        QueryAction::Execute(sql) => assert_eq!(sql, "SELECT 'pg_class'"),
        other => panic!("expected an execute, got {:?}", other),
    }
}

#[test]
fn show_transaction_isolation_is_answered() {
    let s = service();
    match s.do_query("SHOW transaction_isolation").unwrap() {
        QueryAction::Execute(sql) => {
            assert_eq!(sql, "SELECT 'read committed' AS transaction_isolation")
        }
        other => panic!("expected an execute, got {:?}", other),
    }
}

#[test]
fn data_definition_is_not_implemented() {
    let s = service();
    assert!(matches!(
        s.do_query("CREATE TABLE t (a INT)"),
        Err(TimeFusionError::Unimplemented(_))
    ));
}

#[test]
fn the_parser_prepares_statements() {
    let parser = PgQueryParser {};
    assert_eq!(parser.parse_sql("SELECT a::regclass").unwrap(), "SELECT a");
    assert_eq!(
        parser.parse_sql("SHOW TRANSACTION ISOLATION LEVEL").unwrap(),
        "SELECT 'read committed' AS transaction_isolation"
    );
    assert_eq!(
        parser.parse_sql("INSERT INTO t VALUES ($1)").unwrap(),
        "INSERT INTO t VALUES ($1)"
    );
    assert!(matches!(parser.parse_sql("DROP TABLE t"), Err(TimeFusionError::Unimplemented(_))));
}

#[test]
fn a_statement_is_described_by_parameters_and_fields() {
    let s = service();
    let schema = vec![
        Field::new("id", DataType::Utf8, false),
        Field::new("timestamp", DataType::Timestamp(TimeUnit::Microsecond, None), false),
    ];
    let params = vec![
        ("$3".to_string(), Some(DataType::Int64)),
        ("$1".to_string(), None),
        ("$2".to_string(), Some(DataType::Int32)),
    ];
    let response = s.do_describe_statement(&schema, &params);
    assert_eq!(response.parameters, vec![Type::UNKNOWN, Type::INT4, Type::INT8]);
    assert!(s.do_describe_statement(&schema, &Vec::new()).parameters.is_empty());
    let got: Vec<(&str, Type, FieldFormat)> =
        response.fields.iter().map(|f| (f.name.as_str(), f.datatype, f.format)).collect();
    assert_eq!(
        got,
        vec![("id", Type::TEXT, FieldFormat::Text), ("timestamp", Type::TIMESTAMP, FieldFormat::Text)]
    );
}

#[test]
fn a_portal_is_described_by_its_fields() {
    let s = service();
    let schema = vec![Field::new("count", DataType::Int64, false)];
    let response = s.do_describe_portal(&schema);
    assert_eq!(response.fields.len(), 1);
    assert_eq!(response.fields[0].name, "count");
    assert_eq!(response.fields[0].datatype, Type::INT8);
    assert_eq!(response.fields[0].format, FieldFormat::Text);
}

#[test]
fn the_example_table_has_two_columns() {
    let fields = DfSessionService::table_events_schema();
    assert_eq!(fields.len(), 2);
    assert_eq!(fields[0].name, "id");
    assert!(matches!(fields[0].data_type, DataType::Int32));
    assert!(!fields[0].nullable);
    assert_eq!(fields[1].name, "event_name");
    assert!(matches!(fields[1].data_type, DataType::Utf8));
    assert!(fields[1].nullable);
}

#[test]
fn a_connection_goes_from_init_to_ready() {
    let mut state = ConnectionState::Init;
    state = state.on_event(ConnectionEvent::StartupReceived);
    assert_eq!(state, ConnectionState::Startup);
    state = state.on_event(ConnectionEvent::Authenticated);
    assert_eq!(state, ConnectionState::AuthOk);
    state = state.on_event(ConnectionEvent::ReadySent);
    assert_eq!(state, ConnectionState::ReadyForQuery);
    assert!(state.accepts_query());
}

#[test]
fn queries_go_back_to_ready() {
    let mut state = ConnectionState::ReadyForQuery;
    for _ in 0..3 {
        state = state.on_event(ConnectionEvent::QueryReceived);
        assert_eq!(state, ConnectionState::Query);
        assert!(!state.accepts_query());
        state = state.on_event(ConnectionEvent::QueryAnswered);
        assert_eq!(state, ConnectionState::ReadyForQuery);
    }
}

#[test]
fn a_failed_authentication_closes() {
    let state = ConnectionState::Startup.on_event(ConnectionEvent::AuthenticationFailed);
    assert_eq!(state, ConnectionState::Closed);
    assert!(!state.accepts_query());
}

#[test]
fn terminate_closes_from_every_state() {
    for state in [
        ConnectionState::Init,
        ConnectionState::Startup,
        ConnectionState::AuthOk,
        ConnectionState::ReadyForQuery,
        ConnectionState::Query,
        ConnectionState::Closed,
    ] {
        assert_eq!(state.on_event(ConnectionEvent::Terminate), ConnectionState::Closed);
    }
}

#[test]
fn a_closed_connection_stays_closed() {
    for event in [
        ConnectionEvent::StartupReceived,
        ConnectionEvent::Authenticated,
        ConnectionEvent::AuthenticationFailed,
        ConnectionEvent::ReadySent,
        ConnectionEvent::QueryReceived,
        ConnectionEvent::QueryAnswered,
        ConnectionEvent::Terminate,
    ] {
        assert_eq!(ConnectionState::Closed.on_event(event), ConnectionState::Closed);
    }
}

#[test]
fn an_event_out_of_turn_closes() {
    assert_eq!(
        ConnectionState::Init.on_event(ConnectionEvent::QueryReceived),
        ConnectionState::Closed
    );
    assert_eq!(
        ConnectionState::Startup.on_event(ConnectionEvent::QueryReceived),
        ConnectionState::Closed
    );
    assert_eq!(
        ConnectionState::AuthOk.on_event(ConnectionEvent::QueryReceived),
        ConnectionState::Closed
    );
    assert_eq!(
        ConnectionState::Query.on_event(ConnectionEvent::QueryReceived),
        ConnectionState::Closed
    );
    assert_eq!(
        ConnectionState::ReadyForQuery.on_event(ConnectionEvent::Authenticated),
        ConnectionState::Closed
    );
}

#[test]
fn the_listener_stops_only_on_cancellation() {
    assert_eq!(run_pgwire_server(ListenerEvent::Cancelled), ListenerAction::Stop);
    assert_eq!(run_pgwire_server(ListenerEvent::Accepted), ListenerAction::Serve);
    assert_eq!(run_pgwire_server(ListenerEvent::AcceptFailed), ListenerAction::Continue);
}
