//! The session service of the wire server: the startup handshake, the
//! dispatch of simple queries, the description of statements, and the life
//! of a connection.

use vstd::prelude::*;
use vstd::string::*;
use crate::auth::{accepts, User, UserDB, UserView};
use crate::error::TimeFusionError;
use crate::params::{highest_placeholder, ids_of, ordered_param_types, placeholder_type};
use crate::query::{
    classify_query,
    is_ddl,
    prepare_sql,
    query_kind,
    rewritten,
    QueryKind,
};
use crate::schema::{DataType, DataTypeView, Field, FieldView};
use crate::text::opt_text;
use crate::wire::{
    describe_parameters,
    field_info_of,
    parameter_type_of,
    pgwire_schema_from_arrow,
    FieldInfo,
    Type,
};

verus! {

/// The transaction status that `ReadyForQuery` reports.
#[derive(Debug, Clone, Copy, PartialEq, Eq, Structural)]
pub enum TransactionStatus {
    Idle,
    Transaction,
    Error,
}

/// A message that the server sends during the handshake.
#[derive(Debug, Clone, Copy, PartialEq, Eq, Structural)]
pub enum BackendMessage {
    AuthenticationOk,
    ReadyForQuery(TransactionStatus),
}

/// The first message of a client, as far as the handshake reads it.
#[derive(Debug)]
pub enum FrontendMessage {
    /// A startup message with its `user` and `password` parameters.
    Startup { user: Option<String>, password: Option<String> },
    /// Any other message.
    Other,
}

/// What the server sends once a client is authenticated.
pub open spec fn welcome() -> Seq<BackendMessage> {
    seq![BackendMessage::AuthenticationOk, BackendMessage::ReadyForQuery(TransactionStatus::Idle)]
}

/// The text of a parameter that may be missing: empty where it is.
pub open spec fn or_empty(text: Option<Seq<char>>) -> Seq<char> {
    match text {
        Some(t) => t,
        None => Seq::empty(),
    }
}

/// Why the handshake refuses a client, or nothing where it lets the client
/// in.
///
/// Anything but a startup message is refused. A client that sends a
/// password is let in exactly when the user database accepts it. A client
/// that sends none is let in exactly when there is a process-wide password
/// and the user database accepts that one.
pub open spec fn refusal(
    users: Seq<UserView>,
    user: Option<Seq<char>>,
    password: Option<Seq<char>>,
    is_startup: bool,
    fallback_password: Option<Seq<char>>,
) -> Option<Seq<char>> {
    if !is_startup {
        Some("Expected Startup message"@)
    } else if or_empty(password).len() > 0 {
        if accepts(users, or_empty(user), or_empty(password)) {
            None
        } else {
            Some("Authentication failed"@)
        }
    } else {
        match fallback_password {
            Some(fallback) => if accepts(users, or_empty(user), fallback) {
                None
            } else {
                Some("No password provided"@)
            },
            None => Some("No password provided"@),
        }
    }
}

/// The user and password parameters of a first message.
pub open spec fn startup_user(msg: FrontendMessage) -> Option<Seq<char>> {
    match msg {
        FrontendMessage::Startup { user, password } => opt_text(user),
        FrontendMessage::Other => None,
    }
}

/// The password parameter of a first message.
pub open spec fn startup_password(msg: FrontendMessage) -> Option<Seq<char>> {
    match msg {
        FrontendMessage::Startup { user, password } => opt_text(password),
        FrontendMessage::Other => None,
    }
}

/// What the server does with a simple query.
#[derive(Debug)]
pub enum QueryAction {
    /// Hand the statement, as it came, to the database's insert verb.
    Insert(String),
    /// Hand the statement, as it came, to the database's update verb.
    Update(String),
    /// Hand the statement, as it came, to the database's delete verb.
    Delete(String),
    /// Run this statement in the SQL engine and stream the result.
    Execute(String),
}

/// The description of a prepared statement: the wire types of its
/// parameters and its row description.
#[derive(Debug)]
pub struct DescribeStatementResponse {
    pub parameters: Vec<Type>,
    pub fields: Vec<FieldInfo>,
}

/// The description of a portal: its row description.
#[derive(Debug)]
pub struct DescribePortalResponse {
    pub fields: Vec<FieldInfo>,
}

/// The schema of the example table `table_events` that every session has.
pub open spec fn table_events_columns() -> Seq<FieldView> {
    seq![
        FieldView { name: "id"@, data_type: DataTypeView::Int32, nullable: false },
        FieldView { name: "event_name"@, data_type: DataTypeView::Utf8, nullable: true },
    ]
}

/// The parser of the extended query protocol.
#[derive(Debug)]
pub struct PgQueryParser {}

impl PgQueryParser {
    /// Prepares the text of a statement for planning: what `prepare_sql`
    /// makes of it.
    pub fn parse_sql(&self, sql: &str) -> (r: Result<String, TimeFusionError>)
        ensures
            is_ddl(sql@) ==> r is Err && r->Err_0 is Unimplemented,
            !is_ddl(sql@) ==> (r matches Ok(text) && text@ == rewritten(sql@)),
    {
        prepare_sql(sql)
    }
}

/// The service behind every connection.
#[derive(Debug)]
pub struct DfSessionService {
    pub parser: PgQueryParser,
    pub user_db: UserDB,
}

fn text_of(value: &Option<String>) -> (text: &str)
    ensures
        text@ == or_empty(opt_text(*value)),
{
    match value {
        Some(t) => t.as_str(),
        None => {
            let empty: &'static str = "";
            proof {
                reveal_strlit("");
                assert(empty@ =~= Seq::<char>::empty());
            }
            empty
        },
    }
}

impl DfSessionService {
    /// The service over a user database. Where no stored database could be
    /// loaded, the service starts with no users.
    pub fn new(loaded: Option<UserDB>) -> (service: DfSessionService)
        ensures
            service.user_db@ == (match loaded {
                Some(db) => db@,
                None => Seq::<UserView>::empty(),
            }),
    {
        let user_db = match loaded {
            Some(db) => db,
            None => {
                let users: Vec<User> = Vec::new();
                assert(users.deep_view() =~= Seq::<UserView>::empty());
                UserDB::new(users)
            },
        };
        DfSessionService { parser: PgQueryParser {  }, user_db }
    }

    /// The columns of the example table that the service registers.
    pub fn table_events_schema() -> (fields: Vec<Field>)
        ensures
            fields.deep_view() == table_events_columns(),
    {
        let mut fields: Vec<Field> = Vec::new();
        fields.push(Field::new("id", DataType::Int32, false));
        fields.push(Field::new("event_name", DataType::Utf8, true));
        assert(fields.deep_view() =~= table_events_columns());
        fields
    }

    /// Decides the startup handshake.
    ///
    /// Lets the client in, with `AuthenticationOk` and then
    /// `ReadyForQuery(Idle)` to send, or refuses it with `AuthFailed` and
    /// the reason; a refused connection is closed before it is ready for a
    /// query.
    pub fn on_startup(&self, msg: &FrontendMessage, fallback_password: Option<&str>) -> (r: Result<
        Vec<BackendMessage>,
        TimeFusionError,
    >)
        ensures
            match refusal(
                self.user_db@,
                startup_user(*msg),
                startup_password(*msg),
                *msg is Startup,
                crate::database::opt_str(fallback_password),
            ) {
                None => r matches Ok(messages) && messages@ == welcome(),
                Some(reason) => r matches Err(e) && e is AuthFailed && e.detail() == reason,
            },
    {
        match msg {
            FrontendMessage::Startup { user, password } => {
                let user = text_of(user);
                let provided = text_of(password);
                if provided.unicode_len() > 0 {
                    if self.user_db.verify_user(user, provided) {
                        Ok(Self::welcome_messages())
                    } else {
                        Err(TimeFusionError::AuthFailed(String::from_str("Authentication failed")))
                    }
                } else {
                    if let Some(fallback) = fallback_password {
                        if self.user_db.verify_user(user, fallback) {
                            return Ok(Self::welcome_messages());
                        }
                    }
                    Err(TimeFusionError::AuthFailed(String::from_str("No password provided")))
                }
            },
            FrontendMessage::Other => Err(
                TimeFusionError::AuthFailed(String::from_str("Expected Startup message")),
            ),
        }
    }

    fn welcome_messages() -> (messages: Vec<BackendMessage>)
        ensures
            messages@ == welcome(),
    {
        let mut messages: Vec<BackendMessage> = Vec::new();
        messages.push(BackendMessage::AuthenticationOk);
        messages.push(BackendMessage::ReadyForQuery(TransactionStatus::Idle));
        assert(messages@ =~= welcome());
        messages
    }

    /// Dispatches a simple query.
    ///
    /// A statement whose first keyword is a write verb goes, as it came, to
    /// the database verb of that name. Any other statement is prepared and
    /// goes to the SQL engine; one that defines data is refused with
    /// `Unimplemented`.
    pub fn do_query(&self, query: &str) -> (r: Result<QueryAction, TimeFusionError>)
        ensures
            match query_kind(query@) {
                QueryKind::Insert => r matches Ok(QueryAction::Insert(sql)) && sql@ == query@,
                QueryKind::Update => r matches Ok(QueryAction::Update(sql)) && sql@ == query@,
                QueryKind::Delete => r matches Ok(QueryAction::Delete(sql)) && sql@ == query@,
                QueryKind::Other => if is_ddl(query@) {
                    r is Err && r->Err_0 is Unimplemented
                } else {
                    r matches Ok(QueryAction::Execute(sql)) && sql@ == rewritten(query@)
                },
            },
    {
        match classify_query(query) {
            QueryKind::Insert => Ok(QueryAction::Insert(String::from_str(query))),
            QueryKind::Update => Ok(QueryAction::Update(String::from_str(query))),
            QueryKind::Delete => Ok(QueryAction::Delete(String::from_str(query))),
            QueryKind::Other => match prepare_sql(query) {
                Ok(sql) => Ok(QueryAction::Execute(sql)),
                Err(e) => Err(e),
            },
        }
    }

    /// Describes a prepared statement: the wire type of each parameter, in
    /// the order of the positions that the placeholders stand for, `UNKNOWN`
    /// where the planner inferred no type; and the row description of the
    /// statement's schema.
    pub fn do_describe_statement(
        &self,
        schema: &Vec<Field>,
        params: &Vec<(String, Option<DataType>)>,
    ) -> (response: DescribeStatementResponse)
        ensures
            response.parameters.len() == highest_placeholder(ids_of(params.deep_view())),
            forall|k: int|
                0 <= k < response.parameters.len() ==> #[trigger] response.parameters[k]
                    == parameter_type_of(placeholder_type(params.deep_view(), (k + 1) as nat)),
            response.fields.deep_view() == schema.deep_view().map_values(
                |f: FieldView| field_info_of(f),
            ),
    {
        let fields = pgwire_schema_from_arrow(schema);
        let ordered = ordered_param_types(params);
        let parameters = describe_parameters(&ordered);
        assert forall|k: int| 0 <= k < parameters.len() implies #[trigger] parameters[k]
            == parameter_type_of(placeholder_type(params.deep_view(), (k + 1) as nat)) by {
            assert(ordered.deep_view()[k] == ordered[k].deep_view());
        }
        DescribeStatementResponse { parameters, fields }
    }

    /// Describes a portal: the row description of its statement's schema.
    pub fn do_describe_portal(&self, schema: &Vec<Field>) -> (response: DescribePortalResponse)
        ensures
            response.fields.deep_view() == schema.deep_view().map_values(
                |f: FieldView| field_info_of(f),
            ),
    {
        DescribePortalResponse { fields: pgwire_schema_from_arrow(schema) }
    }
}

/// Where a connection stands.
#[derive(Debug, Clone, Copy, PartialEq, Eq, Structural)]
pub enum ConnectionState {
    /// Accepted; nothing was read yet.
    Init,
    /// The startup message is being handled.
    Startup,
    /// The client is authenticated.
    AuthOk,
    /// The server waits for a query.
    ReadyForQuery,
    /// A query is being answered.
    Query,
    /// The connection is closed.
    Closed,
}

/// What happens on a connection.
#[derive(Debug, Clone, Copy, PartialEq, Eq, Structural)]
pub enum ConnectionEvent {
    /// The client's startup message came.
    StartupReceived,
    /// The handshake let the client in.
    Authenticated,
    /// The handshake refused the client.
    AuthenticationFailed,
    /// `ReadyForQuery(Idle)` was sent.
    ReadySent,
    /// A query came.
    QueryReceived,
    /// The answer to the query was sent, be it rows or an error response,
    /// and after it `ReadyForQuery(Idle)`.
    QueryAnswered,
    /// The client terminated, or the connection broke.
    Terminate,
}

/// The state that follows an event.
///
/// `Terminate` closes the connection from every state, and a closed
/// connection stays closed. An event that the state does not expect is a
/// protocol violation and closes the connection too.
pub open spec fn next_state(state: ConnectionState, event: ConnectionEvent) -> ConnectionState {
    match (state, event) {
        (ConnectionState::Init, ConnectionEvent::StartupReceived) => ConnectionState::Startup,
        (ConnectionState::Startup, ConnectionEvent::Authenticated) => ConnectionState::AuthOk,
        (ConnectionState::AuthOk, ConnectionEvent::ReadySent) => ConnectionState::ReadyForQuery,
        (ConnectionState::ReadyForQuery, ConnectionEvent::QueryReceived) => ConnectionState::Query,
        (ConnectionState::Query, ConnectionEvent::QueryAnswered) => ConnectionState::ReadyForQuery,
        _ => ConnectionState::Closed,
    }
}

impl ConnectionState {
    /// The state of the connection after an event.
    pub fn on_event(self, event: ConnectionEvent) -> (next: ConnectionState)
        ensures
            next == next_state(self, event),
    {
        match (self, event) {
            (ConnectionState::Init, ConnectionEvent::StartupReceived) => ConnectionState::Startup,
            (ConnectionState::Startup, ConnectionEvent::Authenticated) => ConnectionState::AuthOk,
            (ConnectionState::AuthOk, ConnectionEvent::ReadySent) => ConnectionState::ReadyForQuery,
            (
                ConnectionState::ReadyForQuery,
                ConnectionEvent::QueryReceived,
            ) => ConnectionState::Query,
            (ConnectionState::Query, ConnectionEvent::QueryAnswered) => ConnectionState::ReadyForQuery,
            _ => ConnectionState::Closed,
        }
    }

    /// Whether the server may take a query in this state.
    pub fn accepts_query(self) -> (ready: bool)
        ensures
            ready == (self == ConnectionState::ReadyForQuery),
    {
        match self {
            ConnectionState::ReadyForQuery => true,
            _ => false,
        }
    }
}

/// The state after a sequence of events.
pub open spec fn state_after(state: ConnectionState, events: Seq<ConnectionEvent>) -> ConnectionState
    decreases events.len(),
{
    if events.len() == 0 {
        state
    } else {
        next_state(state_after(state, events.drop_last()), events.last())
    }
}

/// `Terminate` closes the connection from every state.
pub proof fn lemma_terminate_closes(state: ConnectionState)
    ensures
        next_state(state, ConnectionEvent::Terminate) == ConnectionState::Closed,
{
}

/// A closed connection stays closed, whatever happens.
pub proof fn lemma_closed_stays_closed(events: Seq<ConnectionEvent>)
    ensures
        state_after(ConnectionState::Closed, events) == ConnectionState::Closed,
    decreases events.len(),
{
    if events.len() > 0 {
        lemma_closed_stays_closed(events.drop_last());
    }
}

/// A connection is ready for a query only after it was authenticated: a
/// connection that was refused never is.
pub proof fn lemma_refused_is_never_ready(events: Seq<ConnectionEvent>)
    ensures
        state_after(
            next_state(ConnectionState::Startup, ConnectionEvent::AuthenticationFailed),
            events,
        ) != ConnectionState::ReadyForQuery,
{
    lemma_closed_stays_closed(events);
}

/// After each answer the server is ready for the next query: a query and
/// its answer lead from ready to ready.
pub proof fn lemma_query_cycle()
    ensures
        state_after(
            ConnectionState::ReadyForQuery,
            seq![ConnectionEvent::QueryReceived, ConnectionEvent::QueryAnswered],
        ) == ConnectionState::ReadyForQuery,
{
    let events = seq![ConnectionEvent::QueryReceived, ConnectionEvent::QueryAnswered];
    assert(events.drop_last() =~= seq![ConnectionEvent::QueryReceived]);
    assert(events.drop_last().drop_last() =~= Seq::<ConnectionEvent>::empty());
    reveal_with_fuel(state_after, 3);
}

/// What the listener sees.
#[derive(Debug, Clone, Copy, PartialEq, Eq, Structural)]
pub enum ListenerEvent {
    /// The cancellation token fired.
    Cancelled,
    /// A client connected.
    Accepted,
    /// Accepting a client failed.
    AcceptFailed,
}

/// What the listener does.
#[derive(Debug, Clone, Copy, PartialEq, Eq, Structural)]
pub enum ListenerAction {
    /// Stop accepting; connections that are open go on until they end.
    Stop,
    /// Serve the new connection in a task of its own, and go on accepting.
    Serve,
    /// Go on accepting.
    Continue,
}

/// What the listener does on an event: it stops on cancellation, serves
/// every client that connects, and goes on after a failed accept.
pub fn run_pgwire_server(event: ListenerEvent) -> (action: ListenerAction)
    ensures
        action == (match event {
            ListenerEvent::Cancelled => ListenerAction::Stop,
            ListenerEvent::Accepted => ListenerAction::Serve,
            ListenerEvent::AcceptFailed => ListenerAction::Continue,
        }),
{
    match event {
        ListenerEvent::Cancelled => ListenerAction::Stop,
        ListenerEvent::Accepted => ListenerAction::Serve,
        ListenerEvent::AcceptFailed => ListenerAction::Continue,
    }
}

} // verus!
