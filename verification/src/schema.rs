//! The schema registry: the one place that says which columns the
//! `otel_logs_and_spans` table has, in which order, and which of them
//! partition it.

use std::sync::Arc;
use vstd::prelude::*;
use vstd::string::*;
use crate::error::TimeFusionError;
use crate::text::{opt_clone, opt_str_eq, opt_text, str_eq};

verus! {

/// The resolution of a timestamp column.
#[derive(Debug, Clone, Copy, PartialEq, Eq, Structural)]
pub enum TimeUnit {
    Second,
    Millisecond,
    Microsecond,
    Nanosecond,
}

/// The type of a column, as far as this system tells types apart.
#[derive(Debug)]
pub enum DataType {
    Boolean,
    Int32,
    Int64,
    UInt32,
    UInt64,
    Utf8,
    /// An instant with a resolution and, optionally, a time zone.
    Timestamp(TimeUnit, Option<String>),
    /// Values of the given type, stored through a dictionary.
    Dictionary(Box<DataType>),
    /// Any other type, by its name.
    Other(String),
}

/// The mathematical value of a [`DataType`].
pub enum DataTypeView {
    Boolean,
    Int32,
    Int64,
    UInt32,
    UInt64,
    Utf8,
    Timestamp(TimeUnit, Option<Seq<char>>),
    Dictionary(Box<DataTypeView>),
    Other(Seq<char>),
}

/// The mathematical value of a type.
pub open spec fn data_type_view(data_type: DataType) -> DataTypeView
    decreases data_type,
{
    match data_type {
        DataType::Boolean => DataTypeView::Boolean,
        DataType::Int32 => DataTypeView::Int32,
        DataType::Int64 => DataTypeView::Int64,
        DataType::UInt32 => DataTypeView::UInt32,
        DataType::UInt64 => DataTypeView::UInt64,
        DataType::Utf8 => DataTypeView::Utf8,
        DataType::Timestamp(unit, zone) => DataTypeView::Timestamp(unit, opt_text(zone)),
        DataType::Dictionary(values) => DataTypeView::Dictionary(Box::new(data_type_view(*values))),
        DataType::Other(name) => DataTypeView::Other(name@),
    }
}

impl View for DataType {
    type V = DataTypeView;

    open spec fn view(&self) -> DataTypeView {
        data_type_view(*self)
    }
}

/// Whether two types are logically equal: a dictionary stands for the
/// type of its values, whatever its keys, so it is equal to another
/// dictionary of the same values and to the plain type of its values.
/// Every other type is equal to itself alone.
pub open spec fn logically_equal(a: DataTypeView, b: DataTypeView) -> bool {
    match (a, b) {
        (DataTypeView::Dictionary(x), DataTypeView::Dictionary(y)) => *x == *y,
        (DataTypeView::Dictionary(x), _) => *x == b,
        (_, DataTypeView::Dictionary(y)) => a == *y,
        _ => a == b,
    }
}

impl DeepView for DataType {
    type V = DataTypeView;

    open spec fn deep_view(&self) -> DataTypeView {
        self@
    }
}

impl DataType {
    /// Whether two types are the same type.
    pub fn same_as(&self, other: &DataType) -> (same: bool)
        ensures
            same == (self@ == other@),
        decreases self,
    {
        match (self, other) {
            (DataType::Boolean, DataType::Boolean) => true,
            (DataType::Int32, DataType::Int32) => true,
            (DataType::Int64, DataType::Int64) => true,
            (DataType::UInt32, DataType::UInt32) => true,
            (DataType::UInt64, DataType::UInt64) => true,
            (DataType::Utf8, DataType::Utf8) => true,
            (DataType::Timestamp(u1, z1), DataType::Timestamp(u2, z2)) => *u1 == *u2 && opt_str_eq(
                z1,
                z2,
            ),
            (DataType::Dictionary(x), DataType::Dictionary(y)) => x.same_as(y),
            (DataType::Other(a), DataType::Other(b)) => str_eq(a.as_str(), b.as_str()),
            _ => false,
        }
    }

    /// Whether two types are logically equal.
    pub fn logically_same_as(&self, other: &DataType) -> (same: bool)
        ensures
            same == logically_equal(self@, other@),
    {
        match (self, other) {
            (DataType::Dictionary(x), DataType::Dictionary(y)) => x.same_as(y),
            (DataType::Dictionary(x), _) => x.same_as(other),
            (_, DataType::Dictionary(y)) => self.same_as(y),
            _ => self.same_as(other),
        }
    }

    /// A copy of the type.
    pub fn duplicate(&self) -> (copy: DataType)
        ensures
            copy@ == self@,
        decreases self,
    {
        match self {
            DataType::Boolean => DataType::Boolean,
            DataType::Int32 => DataType::Int32,
            DataType::Int64 => DataType::Int64,
            DataType::UInt32 => DataType::UInt32,
            DataType::UInt64 => DataType::UInt64,
            DataType::Utf8 => DataType::Utf8,
            DataType::Timestamp(unit, zone) => DataType::Timestamp(*unit, opt_clone(zone)),
            DataType::Dictionary(values) => DataType::Dictionary(Box::new(values.duplicate())),
            DataType::Other(name) => DataType::Other(name.clone()),
        }
    }
}

/// One column: its name, its type and whether it may hold nulls.
#[derive(Debug)]
pub struct Field {
    pub name: String,
    pub data_type: DataType,
    pub nullable: bool,
}

/// The mathematical value of a [`Field`].
pub struct FieldView {
    pub name: Seq<char>,
    pub data_type: DataTypeView,
    pub nullable: bool,
}

impl View for Field {
    type V = FieldView;

    open spec fn view(&self) -> FieldView {
        FieldView { name: self.name@, data_type: self.data_type@, nullable: self.nullable }
    }
}

impl DeepView for Field {
    type V = FieldView;

    open spec fn deep_view(&self) -> FieldView {
        self@
    }
}

impl Field {
    /// A column with the given name, type and nullability.
    pub fn new(name: &str, data_type: DataType, nullable: bool) -> (field: Field)
        ensures
            field@ == (FieldView { name: name@, data_type: data_type@, nullable }),
    {
        Field { name: String::from_str(name), data_type, nullable }
    }

    /// A copy of the column.
    pub fn duplicate(&self) -> (copy: Field)
        ensures
            copy@ == self@,
    {
        Field {
            name: self.name.clone(),
            data_type: self.data_type.duplicate(),
            nullable: self.nullable,
        }
    }
}

/// An ordered list of columns.
#[derive(Debug)]
pub struct Schema {
    pub fields: Vec<Field>,
}

impl View for Schema {
    type V = Seq<FieldView>;

    open spec fn view(&self) -> Seq<FieldView> {
        self.fields.deep_view()
    }
}

/// A shareable handle to a schema.
pub type SchemaRef = Arc<Schema>;

/// How many columns a row has.
pub const COLUMN_COUNT: usize = 80;

/// The name of the column at position `i` of the row shape.
pub open spec fn column_name(i: int) -> Seq<char> {
    if i == 0 {
        "observed_timestamp"@
    } else if i == 1 {
        "id"@
    } else if i == 2 {
        "parent_id"@
    } else if i == 3 {
        "name"@
    } else if i == 4 {
        "kind"@
    } else if i == 5 {
        "status_code"@
    } else if i == 6 {
        "status_message"@
    } else if i == 7 {
        "level"@
    } else if i == 8 {
        "severity___severity_text"@
    } else if i == 9 {
        "severity___severity_number"@
    } else if i == 10 {
        "body"@
    } else if i == 11 {
        "duration"@
    } else if i == 12 {
        "start_time"@
    } else if i == 13 {
        "end_time"@
    } else if i == 14 {
        "context___trace_id"@
    } else if i == 15 {
        "context___span_id"@
    } else if i == 16 {
        "context___trace_state"@
    } else if i == 17 {
        "context___trace_flags"@
    } else if i == 18 {
        "context___is_remote"@
    } else if i == 19 {
        "events"@
    } else if i == 20 {
        "links"@
    } else if i == 21 {
        "attributes___client___address"@
    } else if i == 22 {
        "attributes___client___port"@
    } else if i == 23 {
        "attributes___server___address"@
    } else if i == 24 {
        "attributes___server___port"@
    } else if i == 25 {
        "attributes___network___local__address"@
    } else if i == 26 {
        "attributes___network___local__port"@
    } else if i == 27 {
        "attributes___network___peer___address"@
    } else if i == 28 {
        "attributes___network___peer__port"@
    } else if i == 29 {
        "attributes___network___protocol___name"@
    } else if i == 30 {
        "attributes___network___protocol___version"@
    } else if i == 31 {
        "attributes___network___transport"@
    } else if i == 32 {
        "attributes___network___type"@
    } else if i == 33 {
        "attributes___code___number"@
    } else if i == 34 {
        "attributes___code___file___path"@
    } else if i == 35 {
        "attributes___code___function___name"@
    } else if i == 36 {
        "attributes___code___line___number"@
    } else if i == 37 {
        "attributes___code___stacktrace"@
    } else if i == 38 {
        "attributes___log__record___original"@
    } else if i == 39 {
        "attributes___log__record___uid"@
    } else if i == 40 {
        "attributes___error___type"@
    } else if i == 41 {
        "attributes___exception___type"@
    } else if i == 42 {
        "attributes___exception___message"@
    } else if i == 43 {
        "attributes___exception___stacktrace"@
    } else if i == 44 {
        "attributes___url___fragment"@
    } else if i == 45 {
        "attributes___url___full"@
    } else if i == 46 {
        "attributes___url___path"@
    } else if i == 47 {
        "attributes___url___query"@
    } else if i == 48 {
        "attributes___url___scheme"@
    } else if i == 49 {
        "attributes___user_agent___original"@
    } else if i == 50 {
        "attributes___http___request___method"@
    } else if i == 51 {
        "attributes___http___request___method_original"@
    } else if i == 52 {
        "attributes___http___response___status_code"@
    } else if i == 53 {
        "attributes___http___request___resend_count"@
    } else if i == 54 {
        "attributes___http___request___body___size"@
    } else if i == 55 {
        "attributes___session___id"@
    } else if i == 56 {
        "attributes___session___previous___id"@
    } else if i == 57 {
        "attributes___db___system___name"@
    } else if i == 58 {
        "attributes___db___collection___name"@
    } else if i == 59 {
        "attributes___db___namespace"@
    } else if i == 60 {
        "attributes___db___operation___name"@
    } else if i == 61 {
        "attributes___db___response___status_code"@
    } else if i == 62 {
        "attributes___db___operation___batch___size"@
    } else if i == 63 {
        "attributes___db___query___summary"@
    } else if i == 64 {
        "attributes___db___query___text"@
    } else if i == 65 {
        "attributes___user___id"@
    } else if i == 66 {
        "attributes___user___email"@
    } else if i == 67 {
        "attributes___user___full_name"@
    } else if i == 68 {
        "attributes___user___name"@
    } else if i == 69 {
        "attributes___user___hash"@
    } else if i == 70 {
        "resource___attributes___service___name"@
    } else if i == 71 {
        "resource___attributes___service___version"@
    } else if i == 72 {
        "resource___attributes___service___instance___id"@
    } else if i == 73 {
        "resource___attributes___service___namespace"@
    } else if i == 74 {
        "resource___attributes___telemetry___sdk___language"@
    } else if i == 75 {
        "resource___attributes___telemetry___sdk___name"@
    } else if i == 76 {
        "resource___attributes___telemetry___sdk___version"@
    } else if i == 77 {
        "resource___attributes___user_agent___original"@
    } else if i == 78 {
        "project_id"@
    } else if i == 79 {
        "timestamp"@
    } else {
        Seq::empty()
    }
}

/// The type of the column at position `i`. Unsigned row fields are stored
/// in the signed column type of the same width; instants are stored with
/// microsecond resolution and no zone.
pub open spec fn column_type(i: int) -> DataTypeView {
    if i == 0 || i == 12 || i == 13 || i == 79 {
        DataTypeView::Timestamp(TimeUnit::Microsecond, None)
    } else if i == 11 {
        DataTypeView::Int64
    } else if i == 22 || i == 24 || i == 26 || i == 28 || i == 33 || i == 34 || i == 35 || i == 36 || i == 37 || i == 62 {
        DataTypeView::Int32
    } else {
        DataTypeView::Utf8
    }
}

/// Whether the column at position `i` may hold nulls: every one may, but
/// `id`, `project_id` and `timestamp`.
pub open spec fn column_nullable(i: int) -> bool {
    !(i == 1 || i == 78 || i == 79)
}

/// The column at position `i` of the canonical schema.
pub open spec fn canonical_column(i: int) -> FieldView {
    FieldView { name: column_name(i), data_type: column_type(i), nullable: column_nullable(i) }
}

/// The canonical schema: every column of the row shape, in order.
pub open spec fn canonical_columns() -> Seq<FieldView> {
    Seq::new(COLUMN_COUNT as nat, |i: int| canonical_column(i))
}

/// The partition columns, in order.
pub open spec fn partition_columns() -> Seq<Seq<char>> {
    seq!["project_id"@, "timestamp"@]
}

/// The last two columns are `project_id`, a non-null `Utf8`, and then
/// `timestamp`, a non-null microsecond instant without zone.
pub open spec fn ends_with_partition_columns(fields: Seq<FieldView>) -> bool {
    &&& fields.len() >= 2
    &&& fields[fields.len() - 2] == (FieldView {
        name: "project_id"@,
        data_type: DataTypeView::Utf8,
        nullable: false,
    })
    &&& fields[fields.len() - 1] == (FieldView {
        name: "timestamp"@,
        data_type: DataTypeView::Timestamp(TimeUnit::Microsecond, None),
        nullable: false,
    })
}

/// Two column lists are equivalent when they have the same length and, at
/// each position, the same name and logically equal types. Nullability is
/// not compared.
pub open spec fn equivalent_names_and_types(a: Seq<FieldView>, b: Seq<FieldView>) -> bool {
    &&& a.len() == b.len()
    &&& forall|i: int|
        0 <= i < a.len() ==> (#[trigger] a[i]).name == b[i].name && logically_equal(
            a[i].data_type,
            b[i].data_type,
        )
}

fn column_name_at(i: usize) -> (name: &'static str)
    requires
        i < COLUMN_COUNT,
    ensures
        name@ == column_name(i as int),
{
    match i {
        0 => "observed_timestamp",
        1 => "id",
        2 => "parent_id",
        3 => "name",
        4 => "kind",
        5 => "status_code",
        6 => "status_message",
        7 => "level",
        8 => "severity___severity_text",
        9 => "severity___severity_number",
        10 => "body",
        11 => "duration",
        12 => "start_time",
        13 => "end_time",
        14 => "context___trace_id",
        15 => "context___span_id",
        16 => "context___trace_state",
        17 => "context___trace_flags",
        18 => "context___is_remote",
        19 => "events",
        20 => "links",
        21 => "attributes___client___address",
        22 => "attributes___client___port",
        23 => "attributes___server___address",
        24 => "attributes___server___port",
        25 => "attributes___network___local__address",
        26 => "attributes___network___local__port",
        27 => "attributes___network___peer___address",
        28 => "attributes___network___peer__port",
        29 => "attributes___network___protocol___name",
        30 => "attributes___network___protocol___version",
        31 => "attributes___network___transport",
        32 => "attributes___network___type",
        33 => "attributes___code___number",
        34 => "attributes___code___file___path",
        35 => "attributes___code___function___name",
        36 => "attributes___code___line___number",
        37 => "attributes___code___stacktrace",
        38 => "attributes___log__record___original",
        39 => "attributes___log__record___uid",
        40 => "attributes___error___type",
        41 => "attributes___exception___type",
        42 => "attributes___exception___message",
        43 => "attributes___exception___stacktrace",
        44 => "attributes___url___fragment",
        45 => "attributes___url___full",
        46 => "attributes___url___path",
        47 => "attributes___url___query",
        48 => "attributes___url___scheme",
        49 => "attributes___user_agent___original",
        50 => "attributes___http___request___method",
        51 => "attributes___http___request___method_original",
        52 => "attributes___http___response___status_code",
        53 => "attributes___http___request___resend_count",
        54 => "attributes___http___request___body___size",
        55 => "attributes___session___id",
        56 => "attributes___session___previous___id",
        57 => "attributes___db___system___name",
        58 => "attributes___db___collection___name",
        59 => "attributes___db___namespace",
        60 => "attributes___db___operation___name",
        61 => "attributes___db___response___status_code",
        62 => "attributes___db___operation___batch___size",
        63 => "attributes___db___query___summary",
        64 => "attributes___db___query___text",
        65 => "attributes___user___id",
        66 => "attributes___user___email",
        67 => "attributes___user___full_name",
        68 => "attributes___user___name",
        69 => "attributes___user___hash",
        70 => "resource___attributes___service___name",
        71 => "resource___attributes___service___version",
        72 => "resource___attributes___service___instance___id",
        73 => "resource___attributes___service___namespace",
        74 => "resource___attributes___telemetry___sdk___language",
        75 => "resource___attributes___telemetry___sdk___name",
        76 => "resource___attributes___telemetry___sdk___version",
        77 => "resource___attributes___user_agent___original",
        78 => "project_id",
        79 => "timestamp",
        _ => "",
    }
}

fn column_type_at(i: usize) -> (data_type: DataType)
    requires
        i < COLUMN_COUNT,
    ensures
        data_type@ == column_type(i as int),
{
    if i == 0 || i == 12 || i == 13 || i == 79 {
        DataType::Timestamp(TimeUnit::Microsecond, None)
    } else if i == 11 {
        DataType::Int64
    } else if i == 22 || i == 24 || i == 26 || i == 28 || i == 33 || i == 34 || i == 35 || i == 36 || i == 37 || i == 62 {
        DataType::Int32
    } else {
        DataType::Utf8
    }
}

fn column_nullable_at(i: usize) -> (nullable: bool)
    requires
        i < COLUMN_COUNT,
    ensures
        nullable == column_nullable(i as int),
{
    !(i == 1 || i == 78 || i == 79)
}

/// Checks that a column list ends with the two partition columns.
///
/// Returns `SchemaInvariant` exactly when it does not.
pub fn check_partition_columns_last(fields: &Vec<Field>) -> (r: Result<(), TimeFusionError>)
    ensures
        r is Ok <==> ends_with_partition_columns(fields.deep_view()),
        r is Err ==> r->Err_0 is SchemaInvariant,
{
    let n = fields.len();
    if n < 2 {
        return Err(
            TimeFusionError::SchemaInvariant(String::from_str("fewer than two columns")),
        );
    }
    let project = &fields[n - 2];
    let instant = &fields[n - 1];
    assert(fields.deep_view()[n - 2] == project@);
    assert(fields.deep_view()[n - 1] == instant@);
    let project_ok = str_eq(project.name.as_str(), "project_id") && project.data_type.same_as(
        &DataType::Utf8,
    ) && !project.nullable;
    let instant_ok = str_eq(instant.name.as_str(), "timestamp") && instant.data_type.same_as(
        &DataType::Timestamp(TimeUnit::Microsecond, None),
    ) && !instant.nullable;
    if project_ok && instant_ok {
        Ok(())
    } else {
        Err(
            TimeFusionError::SchemaInvariant(
                String::from_str("expected project_id (Utf8) and timestamp (Timestamp) at end"),
            ),
        )
    }
}

/// Whether two column lists have the same names and logically equal
/// types, position by position.
pub fn same_names_and_types(a: &Vec<Field>, b: &Vec<Field>) -> (same: bool)
    ensures
        same == equivalent_names_and_types(a.deep_view(), b.deep_view()),
{
    if a.len() != b.len() {
        return false;
    }
    let mut i: usize = 0;
    while i < a.len()
        invariant
            i <= a.len(),
            a.len() == b.len(),
            forall|j: int|
                0 <= j < i ==> (#[trigger] a.deep_view()[j]).name == b.deep_view()[j].name
                    && logically_equal(a.deep_view()[j].data_type, b.deep_view()[j].data_type),
        decreases a.len() - i,
    {
        assert(a.deep_view()[i as int] == a[i as int]@);
        assert(b.deep_view()[i as int] == b[i as int]@);
        if !str_eq(a[i].name.as_str(), b[i].name.as_str()) || !a[i].data_type.logically_same_as(
            &b[i].data_type,
        ) {
            return false;
        }
        i += 1;
    }
    true
}

/// One log record or span: a fixed, wide row. `project_id` and `timestamp`
/// are mandatory and come last, because they partition the table. Instants
/// are microseconds since the Unix epoch; `duration` is in nanoseconds.
#[allow(non_snake_case)]
#[derive(Debug, Clone, Default)]
pub struct OtelLogsAndSpans {
    pub observed_timestamp: Option<i64>,
    pub id: String,
    pub parent_id: Option<String>,
    pub name: Option<String>,
    pub kind: Option<String>,
    pub status_code: Option<String>,
    pub status_message: Option<String>,
    pub level: Option<String>,
    pub severity___severity_text: Option<String>,
    pub severity___severity_number: Option<String>,
    pub body: Option<String>,
    pub duration: Option<u64>,
    pub start_time: Option<i64>,
    pub end_time: Option<i64>,
    pub context___trace_id: Option<String>,
    pub context___span_id: Option<String>,
    pub context___trace_state: Option<String>,
    pub context___trace_flags: Option<String>,
    pub context___is_remote: Option<String>,
    pub events: Option<String>,
    pub links: Option<String>,
    pub attributes___client___address: Option<String>,
    pub attributes___client___port: Option<u32>,
    pub attributes___server___address: Option<String>,
    pub attributes___server___port: Option<u32>,
    pub attributes___network___local__address: Option<String>,
    pub attributes___network___local__port: Option<u32>,
    pub attributes___network___peer___address: Option<String>,
    pub attributes___network___peer__port: Option<u32>,
    pub attributes___network___protocol___name: Option<String>,
    pub attributes___network___protocol___version: Option<String>,
    pub attributes___network___transport: Option<String>,
    pub attributes___network___type: Option<String>,
    pub attributes___code___number: Option<u32>,
    pub attributes___code___file___path: Option<u32>,
    pub attributes___code___function___name: Option<u32>,
    pub attributes___code___line___number: Option<u32>,
    pub attributes___code___stacktrace: Option<u32>,
    pub attributes___log__record___original: Option<String>,
    pub attributes___log__record___uid: Option<String>,
    pub attributes___error___type: Option<String>,
    pub attributes___exception___type: Option<String>,
    pub attributes___exception___message: Option<String>,
    pub attributes___exception___stacktrace: Option<String>,
    pub attributes___url___fragment: Option<String>,
    pub attributes___url___full: Option<String>,
    pub attributes___url___path: Option<String>,
    pub attributes___url___query: Option<String>,
    pub attributes___url___scheme: Option<String>,
    pub attributes___user_agent___original: Option<String>,
    pub attributes___http___request___method: Option<String>,
    pub attributes___http___request___method_original: Option<String>,
    pub attributes___http___response___status_code: Option<String>,
    pub attributes___http___request___resend_count: Option<String>,
    pub attributes___http___request___body___size: Option<String>,
    pub attributes___session___id: Option<String>,
    pub attributes___session___previous___id: Option<String>,
    pub attributes___db___system___name: Option<String>,
    pub attributes___db___collection___name: Option<String>,
    pub attributes___db___namespace: Option<String>,
    pub attributes___db___operation___name: Option<String>,
    pub attributes___db___response___status_code: Option<String>,
    pub attributes___db___operation___batch___size: Option<u32>,
    pub attributes___db___query___summary: Option<String>,
    pub attributes___db___query___text: Option<String>,
    pub attributes___user___id: Option<String>,
    pub attributes___user___email: Option<String>,
    pub attributes___user___full_name: Option<String>,
    pub attributes___user___name: Option<String>,
    pub attributes___user___hash: Option<String>,
    pub resource___attributes___service___name: Option<String>,
    pub resource___attributes___service___version: Option<String>,
    pub resource___attributes___service___instance___id: Option<String>,
    pub resource___attributes___service___namespace: Option<String>,
    pub resource___attributes___telemetry___sdk___language: Option<String>,
    pub resource___attributes___telemetry___sdk___name: Option<String>,
    pub resource___attributes___telemetry___sdk___version: Option<String>,
    pub resource___attributes___user_agent___original: Option<String>,
    pub project_id: String,
    pub timestamp: i64,
}

impl OtelLogsAndSpans {
    /// The logical name of the table that holds these rows.
    pub fn table_name() -> (name: String)
        ensures
            name@ == "otel_logs_and_spans"@,
    {
        String::from_str("otel_logs_and_spans")
    }

    /// The columns of the table, in order, with types and nullability.
    ///
    /// The canonical schema ends with the partition columns, so this always
    /// succeeds; the check that would report `SchemaInvariant` is
    /// [`check_partition_columns_last`].
    pub fn columns() -> (r: Result<Vec<Field>, TimeFusionError>)
        ensures
            r matches Ok(fields) && fields.deep_view() == canonical_columns()
                && ends_with_partition_columns(fields.deep_view()),
    {
        let mut fields: Vec<Field> = Vec::new();
        let mut i: usize = 0;
        while i < COLUMN_COUNT
            invariant
                i <= COLUMN_COUNT,
                fields.len() == i,
                forall|j: int| 0 <= j < i ==> (#[trigger] fields[j])@ == canonical_column(j),
            decreases COLUMN_COUNT - i,
        {
            let field = Field::new(column_name_at(i), column_type_at(i), column_nullable_at(i));
            fields.push(field);
            i += 1;
        }
        assert(fields.deep_view() =~= canonical_columns());
        match check_partition_columns_last(&fields) {
            Ok(()) => Ok(fields),
            Err(e) => Err(e),
        }
    }

    /// A shareable handle to the table's schema.
    pub fn schema_ref() -> (schema: SchemaRef)
        ensures
            schema@ == canonical_columns(),
    {
        match Self::columns() {
            Ok(fields) => Arc::new(Schema { fields }),
            Err(_) => Arc::new(Schema { fields: Vec::new() }),
        }
    }

    /// The partition columns, in order: `project_id`, then `timestamp`.
    pub fn partitions() -> (names: Vec<String>)
        ensures
            names.deep_view() == partition_columns(),
    {
        let mut names: Vec<String> = Vec::new();
        names.push(String::from_str("project_id"));
        names.push(String::from_str("timestamp"));
        assert(names.deep_view() =~= partition_columns());
        names
    }
}

} // verus!
