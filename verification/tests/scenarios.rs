use timefusion::database::{Database, ProjectConfig, StorageOptions};
use timefusion::error::TimeFusionError;
use timefusion::routing::{
    Expr, Filter, InsertOp, Operator, ProjectRoutingTable, ScalarValue, ScanPlan,
    TableProviderFilterPushDown,
};
use timefusion::schema::{DataType, Field, OtelLogsAndSpans};
use timefusion::service::{DfSessionService, QueryAction};
use timefusion::wire::{encode_dataframe, RecordBatch, Type};

/// 2023-01-01T10:00:00Z in microseconds.
const TEN_O_CLOCK: i64 = 1_672_567_200_000_000;
/// 2023-01-01T10:05:00Z in microseconds.
const FIVE_PAST_TEN: i64 = TEN_O_CLOCK + 5 * 60 * 1_000_000;
/// 2023-01-01T10:10:00Z in microseconds.
const TEN_PAST_TEN: i64 = TEN_O_CLOCK + 10 * 60 * 1_000_000;

/// A table in memory: the rows that were committed to it.
type Table = Vec<OtelLogsAndSpans>;

fn test_records() -> Vec<OtelLogsAndSpans> {
    vec![
        OtelLogsAndSpans {
            project_id: "test_project".to_string(),
            timestamp: TEN_O_CLOCK,
            observed_timestamp: Some(TEN_O_CLOCK),
            id: "span1".to_string(),
            name: Some("test_span_1".to_string()),
            context___trace_id: Some("trace1".to_string()),
            context___span_id: Some("span1".to_string()),
            start_time: Some(TEN_O_CLOCK),
            duration: Some(100_000_000),
            status_code: Some("OK".to_string()),
            level: Some("INFO".to_string()),
            ..Default::default()
        },
        OtelLogsAndSpans {
            project_id: "test_project".to_string(),
            timestamp: TEN_PAST_TEN,
            observed_timestamp: Some(TEN_PAST_TEN),
            id: "span2".to_string(),
            name: Some("test_span_2".to_string()),
            context___trace_id: Some("trace2".to_string()),
            context___span_id: Some("span2".to_string()),
            start_time: Some(TEN_PAST_TEN),
            duration: Some(200_000_000),
            status_code: Some("ERROR".to_string()),
            level: Some("ERROR".to_string()),
            status_message: Some("Error occurred".to_string()),
            ..Default::default()
        },
    ]
}

fn database(projects: &[&str]) -> Database<Table> {
    let mut db = Database::empty();
    for id in projects {
        db.install(ProjectConfig {
            project_id: id.to_string(),
            storage_uri: format!("s3://bucket/{}", id),
            storage_options: StorageOptions::build(None, None, None),
            table: Vec::new(),
        });
    }
    db
}

fn routing_table() -> ProjectRoutingTable {
    ProjectRoutingTable::new("default".to_string(), OtelLogsAndSpans::schema_ref())
}

/// What the sink does with one batch of rows: it counts them, and the
/// coordinator commits them to the table of the sink's project.
fn insert(db: &mut Database<Table>, rows: Vec<OtelLogsAndSpans>) -> Result<u64, TimeFusionError> {
    let plan = routing_table().write_all(&vec![rows.len()]);
    let write = db.insert_records_batch(&plan.project_id)?;
    let mut committed = db.resolve_table(&write.project_id)?.clone();
    committed.extend(rows);
    db.complete_write(&write, Ok(committed))?;
    Ok(plan.row_count)
}

fn project_is(project: &str) -> Expr {
    Expr::BinaryExpr {
        left: Box::new(Expr::Column("project_id".to_string())),
        op: Operator::Eq,
        right: Box::new(Expr::Literal(ScalarValue::Utf8(Some(project.to_string())))),
    }
}

fn column_is(column: &str, value: &str) -> Expr {
    Expr::BinaryExpr {
        left: Box::new(Expr::Column(column.to_string())),
        op: Operator::Eq,
        right: Box::new(Expr::Literal(ScalarValue::Utf8(Some(value.to_string())))),
    }
}

fn carried(filters: &Vec<Expr>) -> Vec<Filter<usize>> {
    (0..filters.len()).map(|source| Filter { expr: copy_of(&filters[source]), source }).collect()
}

fn copy_of(expr: &Expr) -> Expr {
    match expr {
        Expr::Column(name) => Expr::Column(name.clone()),
        Expr::Literal(ScalarValue::Utf8(value)) => Expr::Literal(ScalarValue::Utf8(value.clone())),
        Expr::Literal(ScalarValue::Other) => Expr::Literal(ScalarValue::Other),
        Expr::BinaryExpr { left, op, right } => Expr::BinaryExpr {
            left: Box::new(copy_of(left)),
            op: *op,
            right: Box::new(copy_of(right)),
        },
        Expr::Not(inner) => Expr::Not(Box::new(copy_of(inner))),
        Expr::Other => Expr::Other,
    }
}

/// The rows of the table that a scan with these filters is bound to.
fn scan(db: &Database<Table>, filters: &Vec<Expr>, limit: Option<usize>) -> Vec<OtelLogsAndSpans> {
    let filters = carried(filters);
    match routing_table().scan(db, None, &filters, limit).unwrap() {
        ScanPlan::Empty => Vec::new(),
        ScanPlan::Table { table, filters: handed, limit, .. } => {
            assert_eq!(handed.len(), filters.len());
            table.iter().take(limit.unwrap_or(usize::MAX)).cloned().collect()
        }
    }
}

#[test]
fn two_inserted_records_are_counted() {
    let mut db = database(&["default"]);
    assert_eq!(insert(&mut db, test_records()).unwrap(), 2);
    assert_eq!(scan(&db, &Vec::new(), None).len(), 2);
}

#[test]
fn a_scan_after_an_insert_sees_the_rows_more() {
    let mut db = database(&["default", "test_project"]);
    let before = scan(&db, &vec![project_is("default")], None).len();
    assert_eq!(insert(&mut db, test_records()).unwrap(), 2);
    let after = scan(&db, &vec![project_is("default")], None).len();
    assert!(after >= before + 2);
    assert_eq!(scan(&db, &vec![project_is("test_project")], None).len(), 0);
}

#[test]
fn a_query_for_a_project_and_a_level_finds_the_error() {
    let mut db = database(&["default"]);
    insert(&mut db, test_records()).unwrap();
    let filters = vec![project_is("test_project"), column_is("level", "ERROR")];
    let pushed = routing_table().supports_filters_pushdown(&filters);
    assert!(pushed.iter().all(|answer| *answer == TableProviderFilterPushDown::Inexact));
    // The filters are inexact, so the engine checks them on every row.
    let names: Vec<Option<String>> = scan(&db, &filters, None)
        .into_iter()
        .filter(|row| row.project_id == "test_project" && row.level.as_deref() == Some("ERROR"))
        .map(|row| row.name)
        .collect();
    assert_eq!(names, vec![Some("test_span_2".to_string())]);
}

#[test]
fn a_timestamp_predicate_counts_the_later_record() {
    let mut db = database(&["default"]);
    insert(&mut db, test_records()).unwrap();
    let later = Expr::BinaryExpr {
        left: Box::new(Expr::Column("timestamp".to_string())),
        op: Operator::Gt,
        right: Box::new(Expr::Literal(ScalarValue::Utf8(Some("2023-01-01T10:05:00Z".to_string())))),
    };
    let rows = scan(&db, &vec![later], None);
    assert_eq!(rows.iter().filter(|row| row.timestamp > FIVE_PAST_TEN).count(), 1);
}

#[test]
fn an_insert_statement_goes_through_the_sink() {
    let service = DfSessionService::new(Some(timefusion::auth::UserDB::new(Vec::new())));
    let statement = "INSERT INTO otel_logs_and_spans (project_id, timestamp, id, name, status_code, \
                     duration, start_time) VALUES ('test_project', TIMESTAMP '2023-01-01T10:00:00Z', \
                     'sql_span1', 'sql_test_span', 'OK', 150000000, TIMESTAMP '2023-01-01T10:00:00Z')";
    assert!(matches!(service.do_query(statement), Ok(QueryAction::Insert(_))));
    let table = routing_table();
    assert!(table.insert_into(&OtelLogsAndSpans::columns().unwrap(), InsertOp::Append).is_ok());

    let mut db = database(&["default"]);
    let row = OtelLogsAndSpans {
        project_id: "test_project".to_string(),
        timestamp: TEN_O_CLOCK,
        id: "sql_span1".to_string(),
        name: Some("sql_test_span".to_string()),
        status_code: Some("OK".to_string()),
        duration: Some(150_000_000),
        start_time: Some(TEN_O_CLOCK),
        ..Default::default()
    };
    assert_eq!(insert(&mut db, vec![row]).unwrap(), 1);
    let ids: Vec<String> = scan(&db, &vec![column_is("id", "sql_span1")], None)
        .into_iter()
        .filter(|row| row.id == "sql_span1")
        .map(|row| row.id)
        .collect();
    assert_eq!(ids, vec!["sql_span1".to_string()]);
}

#[test]
fn a_missing_project_reads_the_default_table() {
    let mut db = database(&["default"]);
    insert(&mut db, test_records()).unwrap();
    let rows = scan(&db, &vec![project_is("missing")], None);
    assert_eq!(rows.len(), 2);
    assert_eq!(rows.iter().filter(|row| row.project_id == "missing").count(), 0);
}

#[test]
fn an_empty_insert_changes_nothing() {
    let mut db = database(&["default"]);
    insert(&mut db, test_records()).unwrap();
    assert_eq!(insert(&mut db, Vec::new()).unwrap(), 0);
    assert_eq!(scan(&db, &Vec::new(), None).len(), 2);
}

#[test]
fn a_scan_with_limit_zero_returns_nothing() {
    let mut db = database(&["default"]);
    insert(&mut db, test_records()).unwrap();
    assert!(scan(&db, &Vec::new(), Some(0)).is_empty());
    assert_eq!(scan(&db, &Vec::new(), Some(1)).len(), 1);
}

#[test]
fn show_transaction_isolation_answers_read_committed() {
    let service = DfSessionService::new(Some(timefusion::auth::UserDB::new(Vec::new())));
    let sql = match service.do_query("SHOW transaction_isolation").unwrap() {
        QueryAction::Execute(sql) => sql,
        other => panic!("expected an execute, got {:?}", other),
    };
    assert_eq!(sql, "SELECT 'read committed' AS transaction_isolation");
    // What the engine makes of the statement: one row with one text.
    let schema = vec![Field::new("transaction_isolation", DataType::Utf8, false)];
    let batch = RecordBatch::try_new(1, vec![vec![Some("read committed".to_string())]]).unwrap();
    let response = encode_dataframe(&schema, &vec![batch]);
    assert_eq!(response.fields.len(), 1);
    assert_eq!(response.fields[0].name, "transaction_isolation");
    assert_eq!(response.fields[0].datatype, Type::TEXT);
    assert_eq!(response.rows.len(), 1);
    let mut expected: Vec<u8> = vec![0, 1, 0, 0, 0, 14];
    expected.extend_from_slice(b"read committed");
    assert_eq!(&response.rows[0].data[..], &expected[..]);
}
