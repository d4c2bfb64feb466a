use timefusion::database::Database;
use timefusion::schema::DataType;
use timefusion::session::{set_config, ColumnarValue, Volatility};

fn db() -> Database<u8> {
    Database::empty()
}

#[test]
fn the_information_schema_is_switched_on() {
    assert_eq!(
        db().create_session_context(),
        vec![("datafusion.sql_parser.enable_information_schema".to_string(), "true".to_string())]
    );
}

#[test]
fn pg_settings_has_the_rows_that_clients_expect() {
    let table = db().register_pg_settings_table();
    assert_eq!(table.name, "pg_settings");
    let columns: Vec<(&str, bool)> =
        table.schema.iter().map(|f| (f.name.as_str(), f.nullable)).collect();
    assert_eq!(columns, vec![("name", false), ("setting", false)]);
    assert!(table.schema.iter().all(|f| matches!(f.data_type, DataType::Utf8)));
    assert_eq!(
        table.rows,
        vec![
            vec!["TimeZone".to_string(), "UTC".to_string()],
            vec!["client_encoding".to_string(), "UTF8".to_string()],
            vec!["datestyle".to_string(), "ISO, MDY".to_string()],
            vec!["client_min_messages".to_string(), "notice".to_string()],
        ]
    );
}

#[test]
fn set_config_takes_two_texts_and_a_bool() {
    let function = db().register_set_config_udf();
    assert_eq!(function.name, "set_config");
    assert_eq!(function.arguments.len(), 3);
    assert!(matches!(function.arguments[0], DataType::Utf8));
    assert!(matches!(function.arguments[1], DataType::Utf8));
    assert!(matches!(function.arguments[2], DataType::Boolean));
    assert!(matches!(function.returns, DataType::Utf8));
    assert_eq!(function.volatility, Volatility::Volatile);
}

fn scalar(text: &str) -> ColumnarValue {
    ColumnarValue::Scalar(Some(text.to_string()))
}

#[test]
fn set_config_returns_a_literal_value_unchanged() {
    // SELECT set_config('search_path', 'public', false)
    match set_config(&scalar("search_path"), &scalar("public"), &scalar("false")) {
        ColumnarValue::Scalar(value) => assert_eq!(value, Some("public".to_string())),
        other => panic!("expected a single value, got {:?}", other),
    }
    match set_config(&scalar("search_path"), &scalar(""), &scalar("true")) {
        ColumnarValue::Scalar(value) => assert_eq!(value, Some(String::new())),
        other => panic!("expected a single value, got {:?}", other),
    }
}

#[test]
fn set_config_returns_null_for_a_null_value() {
    match set_config(&scalar("search_path"), &ColumnarValue::Scalar(None), &scalar("false")) {
        ColumnarValue::Scalar(value) => assert_eq!(value, None),
        other => panic!("expected a single value, got {:?}", other),
    }
}

#[test]
fn set_config_returns_an_array_unchanged() {
    let values = vec![Some("public".to_string()), None, Some(String::new())];
    match set_config(&scalar("search_path"), &ColumnarValue::Array(values.clone()), &scalar("false")) {
        ColumnarValue::Array(returned) => assert_eq!(returned, values),
        other => panic!("expected an array, got {:?}", other),
    }
    match set_config(&ColumnarValue::Array(vec![None]), &ColumnarValue::Array(Vec::new()), &scalar("false")) {
        ColumnarValue::Array(returned) => assert!(returned.is_empty()),
        other => panic!("expected an array, got {:?}", other),
    }
}

#[test]
fn set_config_does_not_read_name_or_is_local() {
    for name in [ColumnarValue::Scalar(None), scalar("TimeZone"), ColumnarValue::Array(vec![None, None])] {
        for is_local in [ColumnarValue::Scalar(None), scalar("true")] {
            match set_config(&name, &scalar("UTC"), &is_local) {
                ColumnarValue::Scalar(value) => assert_eq!(value, Some("UTC".to_string())),
                other => panic!("expected a single value, got {:?}", other),
            }
        }
    }
}

#[test]
fn a_session_is_set_up_with_table_settings_and_function() {
    let setup = db().setup_session_context();
    assert_eq!(setup.table_name, "otel_logs_and_spans");
    assert_eq!(setup.settings.name, "pg_settings");
    assert_eq!(setup.settings.rows.len(), 4);
    assert_eq!(setup.set_config.name, "set_config");
    assert_eq!(setup.routing_table.schema().fields.len(), 80);
    assert_eq!(setup.routing_table.write_all(&vec![2]).project_id, "default");
}
