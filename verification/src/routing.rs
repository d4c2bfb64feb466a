//! The routing table: the one logical table `otel_logs_and_spans`, which
//! binds every scan to the table of one project and takes every insert.

use vstd::prelude::*;
use vstd::string::*;
use crate::database::{default_project, resolved, Database};
use crate::error::TimeFusionError;
use crate::schema::{
    canonical_columns,
    equivalent_names_and_types,
    same_names_and_types,
    Field,
    FieldView,
    OtelLogsAndSpans,
    SchemaRef,
};
use crate::text::str_eq;

verus! {

/// The operator of a binary expression, as far as binding tells them apart.
#[derive(Debug, Clone, Copy, PartialEq, Eq, Structural)]
pub enum Operator {
    Eq,
    NotEq,
    Lt,
    LtEq,
    Gt,
    GtEq,
    And,
    Or,
    Other,
}

/// A literal value, as far as binding tells them apart.
#[derive(Debug)]
pub enum ScalarValue {
    /// A string, or the null string.
    Utf8(Option<String>),
    /// Any other literal.
    Other,
}

/// A filter expression, as far as binding reads it.
#[derive(Debug)]
pub enum Expr {
    /// A reference to the column of that name.
    Column(String),
    /// A literal.
    Literal(ScalarValue),
    /// Two expressions joined by an operator.
    BinaryExpr { left: Box<Expr>, op: Operator, right: Box<Expr> },
    /// The negation of an expression.
    Not(Box<Expr>),
    /// Any other expression.
    Other,
}

/// The name of the column that routes.
pub open spec fn routing_column() -> Seq<char> {
    "project_id"@
}

/// Whether an expression is the routing column.
pub open spec fn is_routing_column(e: Expr) -> bool {
    e matches Expr::Column(name) && name@ == routing_column()
}

/// The string that an expression is a literal of, if it is one.
pub open spec fn utf8_literal(e: Expr) -> Option<Seq<char>> {
    match e {
        Expr::Literal(ScalarValue::Utf8(Some(value))) => Some(value@),
        _ => None,
    }
}

/// The project that one filter names: the literal that the routing column
/// is compared to for equality, on either side, also below negations.
/// Every other expression names none.
pub open spec fn project_of(e: Expr) -> Option<Seq<char>>
    decreases e,
{
    match e {
        Expr::BinaryExpr { left, op, right } => {
            if op != Operator::Eq {
                None
            } else if is_routing_column(*left) && utf8_literal(*right) is Some {
                utf8_literal(*right)
            } else if is_routing_column(*right) && utf8_literal(*left) is Some {
                utf8_literal(*left)
            } else {
                None
            }
        },
        Expr::Not(inner) => project_of(*inner),
        _ => None,
    }
}

/// The project that a filter list names: that of the first filter that
/// names one.
pub open spec fn first_project_of(filters: Seq<Expr>) -> Option<Seq<char>>
    decreases filters.len(),
{
    if filters.len() == 0 {
        None
    } else {
        match project_of(filters[0]) {
            Some(project) => Some(project),
            None => first_project_of(filters.skip(1)),
        }
    }
}

/// The project that a scan binds to: the one that its filters name, else
/// the default project of the routing table.
pub open spec fn bound_project(filters: Seq<Expr>, default_project: Seq<char>) -> Seq<char> {
    match first_project_of(filters) {
        Some(project) => project,
        None => default_project,
    }
}

/// The filters before the first that names a project name none.
proof fn lemma_first_project_of(filters: Seq<Expr>, k: int)
    requires
        0 <= k <= filters.len(),
        forall|j: int| 0 <= j < k ==> project_of(#[trigger] filters[j]) is None,
    ensures
        first_project_of(filters) == first_project_of(filters.skip(k)),
    decreases k,
{
    if k > 0 {
        let rest = filters.skip(1);
        assert forall|j: int| 0 <= j < k - 1 implies project_of(#[trigger] rest[j]) is None by {
            assert(rest[j] == filters[j + 1]);
        }
        lemma_first_project_of(rest, k - 1);
        assert(rest.skip(k - 1) =~= filters.skip(k));
    } else {
        assert(filters.skip(0) =~= filters);
    }
}

/// How a table answers for a filter that the engine would like to push down.
#[derive(Debug, Clone, Copy, PartialEq, Eq, Structural)]
pub enum TableProviderFilterPushDown {
    /// The table cannot use the filter.
    Unsupported,
    /// The table may use the filter to prune, and the engine checks the
    /// filter again on every row that comes back.
    Inexact,
    /// The table applies the filter exactly.
    Exact,
}

/// What an insert does to the rows that are there.
#[derive(Debug, Clone, Copy, PartialEq, Eq, Structural)]
pub enum InsertOp {
    Append,
    Overwrite,
    Replace,
}

/// One filter of a scan: what binding reads of it, and the engine's own
/// expression, which is carried along to be handed on to the table.
#[derive(Debug)]
pub struct Filter<X> {
    pub expr: Expr,
    pub source: X,
}

/// What binding reads of a filter list.
pub open spec fn exprs_of<X>(filters: Seq<Filter<X>>) -> Seq<Expr> {
    filters.map_values(|filter: Filter<X>| filter.expr)
}

/// What a scan is planned as.
#[derive(Debug)]
pub enum ScanPlan<'a, T, X> {
    /// No rows: the limit is zero, and no data file is opened.
    Empty,
    /// The scan of a project's table. The projection, the filters and the
    /// limit are what the table's scan is called with.
    Table {
        project_id: String,
        table: &'a T,
        projection: Option<&'a Vec<usize>>,
        filters: &'a Vec<Filter<X>>,
        limit: Option<usize>,
    },
}

/// What the sink does with the batches that it pulled.
#[derive(Debug)]
pub struct SinkPlan {
    /// The project that the batches are committed to.
    pub project_id: String,
    /// How many rows the batches hold together.
    pub row_count: u64,
}

/// The sum of the row counts of some batches.
pub open spec fn sum_rows(rows: Seq<usize>) -> nat
    decreases rows.len(),
{
    if rows.len() == 0 {
        0
    } else {
        sum_rows(rows.drop_last()) + rows.last() as nat
    }
}

/// The virtual table that the SQL engine sees.
#[derive(Debug)]
pub struct ProjectRoutingTable {
    default_project: String,
    schema: SchemaRef,
}

fn literal_of(e: &Expr) -> (value: Option<&String>)
    ensures
        match value {
            Some(v) => utf8_literal(*e) == Some(v@),
            None => utf8_literal(*e) is None,
        },
{
    match e {
        Expr::Literal(ScalarValue::Utf8(Some(value))) => Some(value),
        _ => None,
    }
}

fn names_routing_column(e: &Expr) -> (r: bool)
    ensures
        r == is_routing_column(*e),
{
    match e {
        Expr::Column(name) => str_eq(name.as_str(), "project_id"),
        _ => false,
    }
}

impl ProjectRoutingTable {
    /// The project that the table binds to when the filters name none.
    pub closed spec fn default_project_name(&self) -> Seq<char> {
        self.default_project@
    }

    /// The columns of the table.
    pub closed spec fn columns(&self) -> Seq<FieldView> {
        self.schema@
    }

    /// A routing table with the given default project and schema.
    pub fn new(default_project: String, schema: SchemaRef) -> (table: ProjectRoutingTable)
        ensures
            table.default_project_name() == default_project@,
            table.columns() == schema@,
    {
        ProjectRoutingTable { default_project, schema }
    }

    /// The schema that the table shows to the engine: the canonical one.
    pub fn schema(&self) -> (schema: SchemaRef)
        ensures
            schema@ == canonical_columns(),
    {
        OtelLogsAndSpans::schema_ref()
    }

    /// The project that one filter names.
    pub fn extract_project_id(&self, expr: &Expr) -> (project: Option<String>)
        ensures
            match project {
                Some(p) => project_of(*expr) == Some(p@),
                None => project_of(*expr) is None,
            },
        decreases *expr,
    {
        match expr {
            Expr::BinaryExpr { left, op, right } => {
                if *op == Operator::Eq {
                    if names_routing_column(left) {
                        if let Some(value) = literal_of(right) {
                            return Some(value.clone());
                        }
                    }
                    if names_routing_column(right) {
                        if let Some(value) = literal_of(left) {
                            return Some(value.clone());
                        }
                    }
                }
                None
            },
            Expr::Not(inner) => self.extract_project_id(inner),
            _ => None,
        }
    }

    /// The project that a filter list names: the first match wins.
    pub fn extract_project_id_from_filters(&self, filters: &Vec<Expr>) -> (project: Option<String>)
        ensures
            match project {
                Some(p) => first_project_of(filters@) == Some(p@),
                None => first_project_of(filters@) is None,
            },
    {
        let mut i: usize = 0;
        while i < filters.len()
            invariant
                i <= filters.len(),
                forall|j: int| 0 <= j < i ==> project_of(#[trigger] filters@[j]) is None,
            decreases filters.len() - i,
        {
            if let Some(project) = self.extract_project_id(&filters[i]) {
                proof {
                    lemma_first_project_of(filters@, i as int);
                    assert(filters@.skip(i as int)[0] == filters@[i as int]);
                }
                return Some(project);
            }
            i += 1;
        }
        proof {
            lemma_first_project_of(filters@, filters.len() as int);
        }
        None
    }

    /// Answers for each filter that the table may use it and that the
    /// engine has to check it again.
    pub fn supports_filters_pushdown(&self, filters: &Vec<Expr>) -> (answers: Vec<
        TableProviderFilterPushDown,
    >)
        ensures
            answers.len() == filters.len(),
            forall|i: int|
                0 <= i < answers.len() ==> #[trigger] answers[i]
                    == TableProviderFilterPushDown::Inexact,
    {
        let mut answers: Vec<TableProviderFilterPushDown> = Vec::new();
        let mut i: usize = 0;
        while i < filters.len()
            invariant
                i <= filters.len(),
                answers.len() == i,
                forall|j: int|
                    0 <= j < i ==> #[trigger] answers[j] == TableProviderFilterPushDown::Inexact,
            decreases filters.len() - i,
        {
            answers.push(TableProviderFilterPushDown::Inexact);
            i += 1;
        }
        answers
    }

    /// The project that the filters of a scan name: the first match wins.
    fn project_of_filters<X>(&self, filters: &Vec<Filter<X>>) -> (project: Option<String>)
        ensures
            match project {
                Some(p) => first_project_of(exprs_of(filters@)) == Some(p@),
                None => first_project_of(exprs_of(filters@)) is None,
            },
    {
        let ghost exprs = exprs_of(filters@);
        let mut i: usize = 0;
        while i < filters.len()
            invariant
                i <= filters.len(),
                exprs == exprs_of(filters@),
                forall|j: int| 0 <= j < i ==> project_of(#[trigger] exprs[j]) is None,
            decreases filters.len() - i,
        {
            assert(exprs[i as int] == filters@[i as int].expr);
            if let Some(project) = self.extract_project_id(&filters[i].expr) {
                proof {
                    lemma_first_project_of(exprs, i as int);
                    assert(exprs.skip(i as int)[0] == exprs[i as int]);
                }
                return Some(project);
            }
            i += 1;
        }
        proof {
            lemma_first_project_of(exprs, filters.len() as int);
        }
        None
    }

    /// Plans a scan: binds it to the project that the filters name, or to
    /// the default project, and resolves that project in the catalog.
    ///
    /// Fails with `UnknownProject`, which carries the project bound to,
    /// exactly when that project binds to no table. A scan with the limit
    /// zero is empty. Every other scan is the scan of the resolved table
    /// with the projection, the filters and the limit that were given: no
    /// filter is rewritten, moved or left out, the one that names the
    /// project included.
    pub fn scan<'a, T, X>(
        &self,
        database: &'a Database<T>,
        projection: Option<&'a Vec<usize>>,
        filters: &'a Vec<Filter<X>>,
        limit: Option<usize>,
    ) -> (r: Result<ScanPlan<'a, T, X>, TimeFusionError>)
        ensures
            match resolved(
                database@,
                bound_project(exprs_of(filters@), self.default_project_name()),
            ) {
                Some(i) => r matches Ok(plan) && (match plan {
                    ScanPlan::Empty => limit == Some(0usize),
                    ScanPlan::Table {
                        project_id,
                        table,
                        projection: handed_projection,
                        filters: handed_filters,
                        limit: handed_limit,
                    } => {
                        &&& limit != Some(0usize)
                        &&& project_id@ == bound_project(
                            exprs_of(filters@),
                            self.default_project_name(),
                        )
                        &&& *table == database@[i].table
                        &&& handed_projection == projection
                        &&& *handed_filters == *filters
                        &&& handed_limit == limit
                    },
                }),
                None => r matches Err(e) && e is UnknownProject && e.detail() == bound_project(
                    exprs_of(filters@),
                    self.default_project_name(),
                ),
            },
    {
        let project_id = match self.project_of_filters(filters) {
            Some(project) => project,
            None => self.default_project.clone(),
        };
        let table = match database.resolve_table(project_id.as_str()) {
            Ok(table) => table,
            Err(e) => {
                return Err(e);
            },
        };
        match limit {
            Some(0) => Ok(ScanPlan::Empty),
            _ => Ok(ScanPlan::Table { project_id, table, projection, filters, limit }),
        }
    }

    /// Checks an insert before it is planned.
    ///
    /// Fails with `SchemaMismatch` exactly when the input does not have the
    /// names and types of the table's columns, position by position; else
    /// with `Unimplemented` exactly when the insert is not an append.
    pub fn insert_into(&self, input: &Vec<Field>, insert_op: InsertOp) -> (r: Result<
        (),
        TimeFusionError,
    >)
        ensures
            !equivalent_names_and_types(canonical_columns(), input.deep_view()) ==> r is Err
                && r->Err_0 is SchemaMismatch,
            equivalent_names_and_types(canonical_columns(), input.deep_view()) && insert_op
                != InsertOp::Append ==> r is Err && r->Err_0 is Unimplemented,
            equivalent_names_and_types(canonical_columns(), input.deep_view()) && insert_op
                == InsertOp::Append ==> r is Ok,
    {
        let schema = self.schema();
        if !same_names_and_types(&schema.fields, input) {
            return Err(
                TimeFusionError::SchemaMismatch(
                    String::from_str("the input does not have the columns of the table"),
                ),
            );
        }
        match insert_op {
            InsertOp::Append => Ok(()),
            InsertOp::Overwrite => Err(
                TimeFusionError::Unimplemented(String::from_str("Overwrite is not implemented")),
            ),
            InsertOp::Replace => Err(
                TimeFusionError::Unimplemented(String::from_str("Replace is not implemented")),
            ),
        }
    }

    /// Sums up what the sink pulled: the batches go to the `default`
    /// project, and the engine is told how many rows they hold.
    pub fn write_all(&self, batch_rows: &Vec<usize>) -> (plan: SinkPlan)
        requires
            sum_rows(batch_rows@) <= u64::MAX,
        ensures
            plan.project_id@ == default_project(),
            plan.row_count == sum_rows(batch_rows@),
    {
        let mut row_count: u64 = 0;
        let mut i: usize = 0;
        assert(batch_rows@.take(0) =~= Seq::<usize>::empty());
        while i < batch_rows.len()
            invariant
                i <= batch_rows.len(),
                row_count == sum_rows(batch_rows@.take(i as int)),
                sum_rows(batch_rows@) <= u64::MAX,
            decreases batch_rows.len() - i,
        {
            proof {
                assert(batch_rows@.take(i as int + 1).drop_last() =~= batch_rows@.take(i as int));
                lemma_sum_rows_prefix(batch_rows@, i as int + 1);
            }
            row_count = row_count + batch_rows[i] as u64;
            i += 1;
        }
        assert(batch_rows@.take(batch_rows.len() as int) =~= batch_rows@);
        SinkPlan { project_id: String::from_str("default"), row_count }
    }
}

/// The rows of the first batches are no more than the rows of all.
pub proof fn lemma_sum_rows_prefix(rows: Seq<usize>, k: int)
    requires
        0 <= k <= rows.len(),
    ensures
        sum_rows(rows.take(k)) <= sum_rows(rows),
    decreases rows.len(),
{
    if k == rows.len() {
        assert(rows.take(k) =~= rows);
    } else {
        lemma_sum_rows_prefix(rows.drop_last(), k);
        assert(rows.drop_last().take(k) =~= rows.take(k));
    }
}

} // verus!
