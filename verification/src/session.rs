//! What a SQL session is set up with: the routing table under its logical
//! name, and the two shims that PostgreSQL clients need for their
//! preamble, the `pg_settings` view and the `set_config` function.

use vstd::prelude::*;
use vstd::string::*;
use crate::database::{default_project, Database};
use crate::routing::ProjectRoutingTable;
use crate::schema::{canonical_columns, DataType, DataTypeView, Field, FieldView, OtelLogsAndSpans};
use crate::text::{opt_clone, opt_text};

verus! {

/// A static table that is registered with its rows.
#[derive(Debug)]
pub struct StaticTable {
    pub name: String,
    pub schema: Vec<Field>,
    /// The rows, each with one text per column.
    pub rows: Vec<Vec<String>>,
}

/// How a function behaves between calls.
#[derive(Debug, Clone, Copy, PartialEq, Eq, Structural)]
pub enum Volatility {
    Immutable,
    Stable,
    Volatile,
}

/// The signature under which a scalar function is registered.
#[derive(Debug)]
pub struct ScalarFunction {
    pub name: String,
    pub arguments: Vec<DataType>,
    pub returns: DataType,
    pub volatility: Volatility,
}

/// A text argument or result of a scalar function.
#[derive(Debug)]
pub enum ColumnarValue {
    /// One value per row; a null is `None`.
    Array(Vec<Option<String>>),
    /// One value for every row; a null is `None`.
    Scalar(Option<String>),
}

/// The mathematical value of a [`ColumnarValue`].
pub enum ColumnarValueView {
    Array(Seq<Option<Seq<char>>>),
    Scalar(Option<Seq<char>>),
}

impl View for ColumnarValue {
    type V = ColumnarValueView;

    open spec fn view(&self) -> ColumnarValueView {
        match *self {
            ColumnarValue::Array(values) => ColumnarValueView::Array(values.deep_view()),
            ColumnarValue::Scalar(value) => ColumnarValueView::Scalar(opt_text(value)),
        }
    }
}

/// Everything that a session is set up with.
#[derive(Debug)]
pub struct SessionSetup {
    /// The logical name of the routing table.
    pub table_name: String,
    /// The routing table.
    pub routing_table: ProjectRoutingTable,
    /// The `pg_settings` view.
    pub settings: StaticTable,
    /// The `set_config` function.
    pub set_config: ScalarFunction,
}

/// The option that switches the information schema on.
pub open spec fn session_options() -> Seq<(Seq<char>, Seq<char>)> {
    seq![("datafusion.sql_parser.enable_information_schema"@, "true"@)]
}

/// The columns of `pg_settings`: `name` and `setting`, both non-null texts.
pub open spec fn pg_settings_columns() -> Seq<FieldView> {
    seq![
        FieldView { name: "name"@, data_type: DataTypeView::Utf8, nullable: false },
        FieldView { name: "setting"@, data_type: DataTypeView::Utf8, nullable: false },
    ]
}

/// The rows of `pg_settings`: the settings that clients ask for.
pub open spec fn pg_settings_rows() -> Seq<Seq<Seq<char>>> {
    seq![
        seq!["TimeZone"@, "UTC"@],
        seq!["client_encoding"@, "UTF8"@],
        seq!["datestyle"@, "ISO, MDY"@],
        seq!["client_min_messages"@, "notice"@],
    ]
}

/// The argument types of `set_config`: the name, the value, and whether
/// the setting is local.
pub open spec fn set_config_arguments() -> Seq<DataTypeView> {
    seq![DataTypeView::Utf8, DataTypeView::Utf8, DataTypeView::Boolean]
}

fn setting(name: &str, value: &str) -> (row: Vec<String>)
    ensures
        row.deep_view() == seq![name@, value@],
{
    let mut row: Vec<String> = Vec::new();
    row.push(String::from_str(name));
    row.push(String::from_str(value));
    assert(row.deep_view() =~= seq![name@, value@]);
    row
}

/// What `set_config(name, value, is_local)` returns: `value`, unchanged,
/// whatever the name and whether or not the setting is local. An array
/// comes back as the same array, nulls included, and a single value as the
/// same single value, a null as a null. No setting changes.
pub fn set_config(name: &ColumnarValue, value: &ColumnarValue, is_local: &ColumnarValue) -> (returned:
    ColumnarValue)
    ensures
        returned@ == value@,
{
    match value {
        ColumnarValue::Array(given) => {
            let mut values: Vec<Option<String>> = Vec::new();
            let mut i: usize = 0;
            while i < given.len()
                invariant
                    i <= given.len(),
                    values.len() == i,
                    forall|j: int|
                        0 <= j < i ==> (#[trigger] values[j]).deep_view() == given[j].deep_view(),
                decreases given.len() - i,
            {
                values.push(opt_clone(&given[i]));
                i += 1;
            }
            assert(values.deep_view() =~= given.deep_view());
            ColumnarValue::Array(values)
        },
        ColumnarValue::Scalar(given) => ColumnarValue::Scalar(opt_clone(given)),
    }
}

impl<T> Database<T> {
    /// The options with which the session context is made: the
    /// information schema is switched on.
    pub fn create_session_context(&self) -> (options: Vec<(String, String)>)
        ensures
            options.deep_view() == session_options(),
    {
        let mut options: Vec<(String, String)> = Vec::new();
        options.push(
            (
                String::from_str("datafusion.sql_parser.enable_information_schema"),
                String::from_str("true"),
            ),
        );
        assert(options.deep_view() =~= session_options());
        options
    }

    /// The `pg_settings` view with the rows that clients expect.
    pub fn register_pg_settings_table(&self) -> (table: StaticTable)
        ensures
            table.name@ == "pg_settings"@,
            table.schema.deep_view() == pg_settings_columns(),
            table.rows.deep_view() == pg_settings_rows(),
    {
        let mut schema: Vec<Field> = Vec::new();
        schema.push(Field::new("name", DataType::Utf8, false));
        schema.push(Field::new("setting", DataType::Utf8, false));
        assert(schema.deep_view() =~= pg_settings_columns());
        let mut rows: Vec<Vec<String>> = Vec::new();
        rows.push(setting("TimeZone", "UTC"));
        rows.push(setting("client_encoding", "UTF8"));
        rows.push(setting("datestyle", "ISO, MDY"));
        rows.push(setting("client_min_messages", "notice"));
        assert(rows.deep_view() =~= pg_settings_rows());
        StaticTable { name: String::from_str("pg_settings"), schema, rows }
    }

    /// The signature of `set_config(name TEXT, value TEXT, is_local BOOL)`,
    /// which returns a text and is volatile.
    pub fn register_set_config_udf(&self) -> (function: ScalarFunction)
        ensures
            function.name@ == "set_config"@,
            function.arguments.deep_view() == set_config_arguments(),
            function.returns@ == DataTypeView::Utf8,
            function.volatility == Volatility::Volatile,
    {
        let mut arguments: Vec<DataType> = Vec::new();
        arguments.push(DataType::Utf8);
        arguments.push(DataType::Utf8);
        arguments.push(DataType::Boolean);
        assert(arguments.deep_view() =~= set_config_arguments());
        ScalarFunction {
            name: String::from_str("set_config"),
            arguments,
            returns: DataType::Utf8,
            volatility: Volatility::Volatile,
        }
    }

    /// Everything that a session is set up with: the routing table with
    /// the canonical schema and the default project `default`, under the
    /// name `otel_logs_and_spans`; the `pg_settings` view; and `set_config`.
    pub fn setup_session_context(&self) -> (setup: SessionSetup)
        ensures
            setup.table_name@ == "otel_logs_and_spans"@,
            setup.routing_table.default_project_name() == default_project(),
            setup.routing_table.columns() == canonical_columns(),
            setup.settings.name@ == "pg_settings"@,
            setup.settings.schema.deep_view() == pg_settings_columns(),
            setup.settings.rows.deep_view() == pg_settings_rows(),
            setup.set_config.name@ == "set_config"@,
            setup.set_config.arguments.deep_view() == set_config_arguments(),
            setup.set_config.returns@ == DataTypeView::Utf8,
            setup.set_config.volatility == Volatility::Volatile,
    {
        let schema = OtelLogsAndSpans::schema_ref();
        let routing_table = ProjectRoutingTable::new(String::from_str("default"), schema);
        SessionSetup {
            table_name: OtelLogsAndSpans::table_name(),
            routing_table,
            settings: self.register_pg_settings_table(),
            set_config: self.register_set_config_udf(),
        }
    }
}

} // verus!
