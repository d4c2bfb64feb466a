//! The project catalog and what is decided around it: which table a
//! project id binds to, how a project is registered, and what a commit or a
//! reopening does to the catalog.
//!
//! The catalog holds one table handle per project. Opening, creating and
//! committing are the table format's work: this module says what is asked
//! of it and what each of its answers leads to.

use vstd::prelude::*;
use vstd::string::*;
use crate::error::TimeFusionError;
use crate::schema::{canonical_columns, partition_columns, Field, OtelLogsAndSpans};
use crate::text::str_eq;

verus! {

/// `url::Url`, a parsed absolute URL.
#[verifier::external_type_specification]
#[verifier::external_body]
pub struct ExUrl(url::Url);

/// `url::ParseError`, why a text is no absolute URL.
#[verifier::external_type_specification]
#[verifier::external_body]
pub struct ExUrlParseError(url::ParseError);

/// Whether `url::Url::parse` accepts a text as an absolute URL.
pub uninterp spec fn url_parses(input: Seq<char>) -> bool;

/// Calls `url::Url::parse`, which parses an absolute URL and fails on
/// anything else. Whether it succeeds depends on the text alone.
#[verifier::external_body]
fn parse_url(input: &str) -> (r: Result<url::Url, url::ParseError>)
    ensures
        r is Ok <==> url_parses(input@),
{
    url::Url::parse(input)
}

/// The name of the project that every query falls back to.
pub open spec fn default_project() -> Seq<char> {
    "default"@
}

/// Where the tables live and how the wire server is reached.
#[derive(Debug, Clone)]
pub struct Config {
    pub s3_bucket: String,
    pub s3_endpoint: String,
    pub aws_access_key_id: String,
    pub aws_secret_access_key: String,
    pub table_prefix: String,
    pub pgwire_port: u16,
}

/// The storage URI of a bucket, a prefix and an endpoint.
pub open spec fn storage_uri_of(bucket: Seq<char>, prefix: Seq<char>, endpoint: Seq<char>) -> Seq<
    char,
> {
    "s3://"@ + bucket + "/"@ + prefix + "/?endpoint="@ + endpoint
}

impl Config {
    /// The configuration for the given values; an endpoint, a prefix or a
    /// port that is not given takes its default: `https://s3.amazonaws.com`,
    /// `timefusion` and 5432.
    pub fn new(
        s3_bucket: String,
        s3_endpoint: Option<String>,
        aws_access_key_id: String,
        aws_secret_access_key: String,
        table_prefix: Option<String>,
        pgwire_port: Option<u16>,
    ) -> (config: Config)
        ensures
            config.s3_bucket@ == s3_bucket@,
            config.aws_access_key_id@ == aws_access_key_id@,
            config.aws_secret_access_key@ == aws_secret_access_key@,
            config.s3_endpoint@ == (match s3_endpoint {
                Some(e) => e@,
                None => "https://s3.amazonaws.com"@,
            }),
            config.table_prefix@ == (match table_prefix {
                Some(p) => p@,
                None => "timefusion"@,
            }),
            config.pgwire_port == (match pgwire_port {
                Some(p) => p,
                None => 5432u16,
            }),
    {
        Config {
            s3_bucket,
            s3_endpoint: match s3_endpoint {
                Some(e) => e,
                None => String::from_str("https://s3.amazonaws.com"),
            },
            aws_access_key_id,
            aws_secret_access_key,
            table_prefix: match table_prefix {
                Some(p) => p,
                None => String::from_str("timefusion"),
            },
            pgwire_port: match pgwire_port {
                Some(p) => p,
                None => 5432,
            },
        }
    }

    /// The URI under which the tables of this configuration are stored.
    pub fn storage_uri(&self) -> (uri: String)
        ensures
            uri@ == storage_uri_of(self.s3_bucket@, self.table_prefix@, self.s3_endpoint@),
    {
        let mut uri = String::from_str("s3://");
        uri.append(self.s3_bucket.as_str());
        uri.append("/");
        uri.append(self.table_prefix.as_str());
        uri.append("/?endpoint=");
        uri.append(self.s3_endpoint.as_str());
        uri
    }
}

/// The credential bag handed to the object store: option names and values.
#[derive(Debug)]
pub struct StorageOptions(pub Vec<(String, String)>);

impl View for StorageOptions {
    type V = Seq<(Seq<char>, Seq<char>)>;

    open spec fn view(&self) -> Seq<(Seq<char>, Seq<char>)> {
        self.0.deep_view()
    }
}

/// The entry of the bag for one credential: none where the credential is
/// absent or empty.
pub open spec fn credential_entry(name: Seq<char>, value: Option<Seq<char>>) -> Seq<
    (Seq<char>, Seq<char>),
> {
    match value {
        Some(v) => if v.len() > 0 {
            seq![(name, v)]
        } else {
            Seq::empty()
        },
        None => Seq::empty(),
    }
}

/// The credential bag for an access key, a secret key and an endpoint:
/// each is left out where it is absent or empty, and plain HTTP is always
/// allowed.
pub open spec fn credential_bag(
    access_key: Option<Seq<char>>,
    secret_key: Option<Seq<char>>,
    endpoint: Option<Seq<char>>,
) -> Seq<(Seq<char>, Seq<char>)> {
    credential_entry("AWS_ACCESS_KEY_ID"@, access_key) + credential_entry(
        "AWS_SECRET_ACCESS_KEY"@,
        secret_key,
    ) + credential_entry("AWS_ENDPOINT"@, endpoint) + seq![("AWS_ALLOW_HTTP"@, "true"@)]
}

/// The text of an optional string slice.
pub open spec fn opt_str(s: Option<&str>) -> Option<Seq<char>> {
    match s {
        Some(t) => Some(t@),
        None => None,
    }
}

impl StorageOptions {
    fn put(&mut self, name: &str, value: Option<&str>)
        ensures
            final(self)@ == old(self)@ + credential_entry(name@, opt_str(value)),
    {
        match value {
            Some(v) => {
                if v.unicode_len() > 0 {
                    self.0.push((String::from_str(name), String::from_str(v)));
                    assert(self@ =~= old(self)@ + seq![(name@, v@)]);
                } else {
                    assert(self@ =~= old(self)@ + Seq::empty());
                }
            },
            None => {
                assert(self@ =~= old(self)@ + Seq::empty());
            },
        }
    }

    /// Builds the credential bag of a project.
    pub fn build(access_key: Option<&str>, secret_key: Option<&str>, endpoint: Option<&str>) -> (bag:
        StorageOptions)
        ensures
            bag@ == credential_bag(opt_str(access_key), opt_str(secret_key), opt_str(endpoint)),
    {
        let mut bag = StorageOptions(Vec::new());
        assert(bag@ =~= Seq::empty());
        bag.put("AWS_ACCESS_KEY_ID", access_key);
        bag.put("AWS_SECRET_ACCESS_KEY", secret_key);
        bag.put("AWS_ENDPOINT", endpoint);
        bag.0.push((String::from_str("AWS_ALLOW_HTTP"), String::from_str("true")));
        assert(bag@ =~= credential_bag(opt_str(access_key), opt_str(secret_key), opt_str(endpoint)));
        bag
    }

    /// A copy of the bag.
    pub fn duplicate(&self) -> (copy: StorageOptions)
        ensures
            copy@ == self@,
    {
        let mut entries: Vec<(String, String)> = Vec::new();
        let mut i: usize = 0;
        while i < self.0.len()
            invariant
                i <= self.0.len(),
                entries.len() == i,
                forall|j: int| 0 <= j < i ==> (#[trigger] entries[j]).deep_view() == self@[j],
            decreases self.0.len() - i,
        {
            assert(self@[i as int] == self.0[i as int].deep_view());
            entries.push((self.0[i].0.clone(), self.0[i].1.clone()));
            i += 1;
        }
        assert(entries.deep_view() =~= self@);
        StorageOptions(entries)
    }
}

/// What the catalog holds for one project.
#[derive(Debug)]
pub struct ProjectConfig<T> {
    pub project_id: String,
    pub storage_uri: String,
    pub storage_options: StorageOptions,
    pub table: T,
}

/// The mathematical value of a [`ProjectConfig`].
pub struct ProjectView<T> {
    pub project_id: Seq<char>,
    pub storage_uri: Seq<char>,
    pub storage_options: Seq<(Seq<char>, Seq<char>)>,
    pub table: T,
}

impl<T> View for ProjectConfig<T> {
    type V = ProjectView<T>;

    open spec fn view(&self) -> ProjectView<T> {
        ProjectView {
            project_id: self.project_id@,
            storage_uri: self.storage_uri@,
            storage_options: self.storage_options@,
            table: self.table,
        }
    }
}

/// The position of the project named `id`, if it is registered.
pub open spec fn position<T>(projects: Seq<ProjectView<T>>, id: Seq<char>) -> Option<int>
    decreases projects.len(),
{
    if projects.len() == 0 {
        None
    } else {
        match position(projects.drop_last(), id) {
            Some(i) => Some(i),
            None => if projects.last().project_id == id {
                Some(projects.len() - 1)
            } else {
                None
            },
        }
    }
}

/// No two projects of the catalog have the same id.
pub open spec fn distinct_ids<T>(projects: Seq<ProjectView<T>>) -> bool {
    forall|i: int, j: int|
        0 <= i < j < projects.len() ==> (#[trigger] projects[i]).project_id
            != (#[trigger] projects[j]).project_id
}

/// The position of the project that `id` binds to: its own where it is
/// registered, else that of `default`, else none.
pub open spec fn resolved<T>(projects: Seq<ProjectView<T>>, id: Seq<char>) -> Option<int> {
    match position(projects, id) {
        Some(i) => Some(i),
        None => position(projects, default_project()),
    }
}

/// The catalog after `project` is registered: it takes the place of the
/// project of the same id, or comes last where there is none.
pub open spec fn installed<T>(projects: Seq<ProjectView<T>>, project: ProjectView<T>) -> Seq<
    ProjectView<T>,
> {
    match position(projects, project.project_id) {
        Some(i) => projects.update(i, project),
        None => projects.push(project),
    }
}

/// The catalog after the table of the project named `id` is replaced; the
/// same catalog where no such project is registered.
pub open spec fn with_table<T>(projects: Seq<ProjectView<T>>, id: Seq<char>, table: T) -> Seq<
    ProjectView<T>,
> {
    match position(projects, id) {
        Some(i) => projects.update(i, ProjectView { table, ..projects[i] }),
        None => projects,
    }
}

/// What `position` finds is the first project of that id.
pub proof fn lemma_position<T>(projects: Seq<ProjectView<T>>, id: Seq<char>)
    ensures
        match position(projects, id) {
            Some(i) => 0 <= i < projects.len() && projects[i].project_id == id && forall|j: int|
                0 <= j < i ==> (#[trigger] projects[j]).project_id != id,
            None => forall|j: int|
                0 <= j < projects.len() ==> (#[trigger] projects[j]).project_id != id,
        },
    decreases projects.len(),
{
    if projects.len() > 0 {
        let front = projects.drop_last();
        lemma_position(front, id);
        match position(front, id) {
            Some(i) => {
                assert(front[i] == projects[i]);
                assert forall|j: int| 0 <= j < i implies (#[trigger] projects[j]).project_id
                    != id by {
                    assert(front[j] == projects[j]);
                }
            },
            None => {
                assert forall|j: int| 0 <= j < projects.len() - 1 implies (
                #[trigger] projects[j]).project_id != id by {
                    assert(front[j] == projects[j]);
                }
            },
        }
    }
}

/// In a catalog without duplicates, a project is found where it stands.
pub proof fn lemma_position_of_member<T>(projects: Seq<ProjectView<T>>, i: int)
    requires
        distinct_ids(projects),
        0 <= i < projects.len(),
    ensures
        position(projects, projects[i].project_id) == Some(i),
{
    lemma_position(projects, projects[i].project_id);
}

/// Replacing tables changes no id, so it changes no position.
pub proof fn lemma_with_table_keeps_positions<T>(
    projects: Seq<ProjectView<T>>,
    id: Seq<char>,
    table: T,
    other: Seq<char>,
)
    ensures
        with_table(projects, id, table).len() == projects.len(),
        position(with_table(projects, id, table), other) == position(projects, other),
        distinct_ids(projects) ==> distinct_ids(with_table(projects, id, table)),
{
    let after = with_table(projects, id, table);
    lemma_position(projects, id);
    lemma_position(projects, other);
    lemma_position(after, other);
    assert forall|j: int| 0 <= j < projects.len() implies (#[trigger] after[j]).project_id
        == projects[j].project_id by {}
    match position(projects, other) {
        Some(i) => {
            assert(after[i].project_id == other);
            match position(after, other) {
                Some(k) => {
                    assert(projects[k].project_id == after[k].project_id);
                    if k < i {
                        assert(projects[k].project_id != other);
                    }
                    if i < k {
                        assert(after[i].project_id != other);
                    }
                },
                None => {
                    assert(after[i].project_id != other);
                },
            }
        },
        None => {
            match position(after, other) {
                Some(k) => {
                    assert(projects[k].project_id != other);
                    assert(after[k].project_id == projects[k].project_id);
                },
                None => {},
            }
        },
    }
    if distinct_ids(projects) {
        assert forall|i: int, j: int| 0 <= i < j < after.len() implies (
        #[trigger] after[i]).project_id != (#[trigger] after[j]).project_id by {
            assert(after[i].project_id == projects[i].project_id);
            assert(after[j].project_id == projects[j].project_id);
        }
    }
}

/// Registering keeps the catalog free of duplicates, and the project that
/// was registered is then found, with what was registered.
pub proof fn lemma_installed<T>(projects: Seq<ProjectView<T>>, project: ProjectView<T>)
    requires
        distinct_ids(projects),
    ensures
        distinct_ids(installed(projects, project)),
        position(installed(projects, project), project.project_id) matches Some(i) && installed(
            projects,
            project,
        )[i] == project,
{
    let after = installed(projects, project);
    lemma_position(projects, project.project_id);
    match position(projects, project.project_id) {
        Some(i) => {
            assert forall|a: int, b: int| 0 <= a < b < after.len() implies (
            #[trigger] after[a]).project_id != (#[trigger] after[b]).project_id by {
                assert(after[a].project_id == projects[a].project_id);
                assert(after[b].project_id == projects[b].project_id);
            }
            lemma_position_of_member(after, i);
        },
        None => {
            assert forall|a: int, b: int| 0 <= a < b < after.len() implies (
            #[trigger] after[a]).project_id != (#[trigger] after[b]).project_id by {
                if b < projects.len() {
                    assert(after[a] == projects[a]);
                    assert(after[b] == projects[b]);
                } else {
                    assert(after[a] == projects[a]);
                }
            }
            lemma_position_of_member(after, projects.len() as int);
        },
    }
}

/// Registering a project a second time with the same values changes
/// nothing.
pub proof fn lemma_register_is_idempotent<T>(
    projects: Seq<ProjectView<T>>,
    project: ProjectView<T>,
)
    requires
        distinct_ids(projects),
    ensures
        installed(installed(projects, project), project) == installed(projects, project),
{
    lemma_installed(projects, project);
    let once = installed(projects, project);
    let i = position(once, project.project_id)->Some_0;
    lemma_position(once, project.project_id);
    assert(once.update(i, project) =~= once);
}

/// Registering one project leaves every project of another id where and
/// as it was, and registers none of another id.
pub proof fn lemma_register_keeps_others<T>(
    projects: Seq<ProjectView<T>>,
    project: ProjectView<T>,
    other: Seq<char>,
)
    requires
        distinct_ids(projects),
        other != project.project_id,
    ensures
        match position(projects, other) {
            Some(i) => position(installed(projects, project), other) == Some(i) && installed(
                projects,
                project,
            )[i] == projects[i],
            None => position(installed(projects, project), other) is None,
        },
{
    let after = installed(projects, project);
    lemma_position(projects, project.project_id);
    lemma_position(projects, other);
    lemma_position(after, other);
    match position(projects, project.project_id) {
        Some(k) => {
            assert forall|j: int| 0 <= j < projects.len() implies (#[trigger] after[j]).project_id
                == projects[j].project_id by {}
        },
        None => {
            assert forall|j: int| 0 <= j < projects.len() implies #[trigger] after[j]
                == projects[j] by {}
        },
    }
    match position(projects, other) {
        Some(i) => {
            assert(after[i].project_id == other);
            match position(after, other) {
                Some(k) => {
                    if k < i {
                        assert(after[k].project_id == projects[k].project_id);
                        assert(projects[k].project_id != other);
                    }
                    if i < k {
                        assert(after[i].project_id != other);
                    }
                },
                None => {
                    assert(after[i].project_id != other);
                },
            }
        },
        None => {
            match position(after, other) {
                Some(k) => {
                    if k < projects.len() {
                        assert(after[k].project_id == projects[k].project_id);
                        assert(projects[k].project_id != other);
                    } else {
                        assert(after[k] == project);
                    }
                },
                None => {},
            }
        },
    }
}

/// The catalog after a write to the project that `id` binds to commits and
/// leaves `table` behind; the same catalog where `id` binds to nothing.
pub open spec fn committed<T>(projects: Seq<ProjectView<T>>, id: Seq<char>, table: T) -> Seq<
    ProjectView<T>,
> {
    match resolved(projects, id) {
        Some(i) => projects.update(i, ProjectView { table, ..projects[i] }),
        None => projects,
    }
}

/// A commit changes no id, so it changes what no id binds to.
pub proof fn lemma_committed_keeps_bindings<T>(
    projects: Seq<ProjectView<T>>,
    id: Seq<char>,
    table: T,
    other: Seq<char>,
)
    ensures
        committed(projects, id, table).len() == projects.len(),
        resolved(committed(projects, id, table), other) == resolved(projects, other),
        distinct_ids(projects) ==> distinct_ids(committed(projects, id, table)),
{
    lemma_position(projects, id);
    lemma_position(projects, default_project());
    match resolved(projects, id) {
        Some(i) => {
            let bound = projects[i].project_id;
            lemma_position(projects, bound);
            let k = position(projects, bound)->Some_0;
            if k != i {
                assert(projects[k].project_id == bound);
                if position(projects, id) is Some {
                    assert(bound == id);
                } else {
                    assert(bound == default_project());
                }
            }
            assert(committed(projects, id, table) == with_table(projects, bound, table));
            lemma_with_table_keeps_positions(projects, bound, table, other);
            lemma_with_table_keeps_positions(projects, bound, table, default_project());
        },
        None => {},
    }
}

/// A read after a commit sees the commit: the project id binds to the same
/// project as before, and that project's table is the one that the commit
/// left behind.
pub proof fn lemma_read_sees_commit<T>(projects: Seq<ProjectView<T>>, id: Seq<char>, table: T)
    requires
        resolved(projects, id) is Some,
    ensures
        resolved(committed(projects, id, table), id) == resolved(projects, id),
        committed(projects, id, table)[resolved(projects, id)->Some_0].table == table,
{
    lemma_committed_keeps_bindings(projects, id, table, id);
    lemma_position(projects, id);
    lemma_position(projects, default_project());
}

/// Writes to different projects commute: whichever of two commits lands
/// first, the catalog ends the same. This holds wherever the two project
/// ids do not bind to one and the same table; where they do, as two ids
/// that both fall back to `default`, the later commit wins, and the order
/// shows unless both leave the same table.
pub proof fn lemma_writes_to_different_projects_commute<T>(
    projects: Seq<ProjectView<T>>,
    p: Seq<char>,
    a: T,
    q: Seq<char>,
    b: T,
)
    requires
        resolved(projects, p) != resolved(projects, q) || resolved(projects, p) is None || a == b,
    ensures
        committed(committed(projects, p, a), q, b) == committed(committed(projects, q, b), p, a),
{
    lemma_committed_keeps_bindings(projects, p, a, q);
    lemma_committed_keeps_bindings(projects, q, b, p);
    lemma_position(projects, p);
    lemma_position(projects, q);
    lemma_position(projects, default_project());
    assert(committed(committed(projects, p, a), q, b) =~= committed(
        committed(projects, q, b),
        p,
        a,
    ));
}

/// What a sequence of commit outcomes on the project that `id` binds to
/// leaves behind, taken one after the other: a commit that succeeded leaves
/// its table, one that failed leaves everything as it was.
pub open spec fn replayed<T>(projects: Seq<ProjectView<T>>, id: Seq<char>, outcomes: Seq<
    Option<T>,
>) -> Seq<ProjectView<T>>
    decreases outcomes.len(),
{
    if outcomes.len() == 0 {
        projects
    } else {
        let before = replayed(projects, id, outcomes.drop_last());
        match outcomes.last() {
            Some(table) => committed(before, id, table),
            None => before,
        }
    }
}

/// The last commit of a sequence that succeeded, if any did.
pub open spec fn last_success<T>(outcomes: Seq<Option<T>>) -> Option<T>
    decreases outcomes.len(),
{
    if outcomes.len() == 0 {
        None
    } else {
        match outcomes.last() {
            Some(table) => Some(table),
            None => last_success(outcomes.drop_last()),
        }
    }
}

/// Commits to one project take effect one after the other: after any
/// sequence of outcomes the catalog is what the last successful commit
/// alone would have left, and unchanged where none succeeded.
pub proof fn lemma_commits_to_one_project_are_serial<T>(
    projects: Seq<ProjectView<T>>,
    id: Seq<char>,
    outcomes: Seq<Option<T>>,
)
    ensures
        replayed(projects, id, outcomes) == (match last_success(outcomes) {
            Some(table) => committed(projects, id, table),
            None => projects,
        }),
    decreases outcomes.len(),
{
    if outcomes.len() > 0 {
        lemma_commits_to_one_project_are_serial(projects, id, outcomes.drop_last());
        match outcomes.last() {
            Some(table) => {
                match last_success(outcomes.drop_last()) {
                    Some(earlier) => {
                        lemma_committed_keeps_bindings(projects, id, earlier, id);
                        lemma_position(projects, id);
                        lemma_position(projects, default_project());
                        assert(committed(committed(projects, id, earlier), id, table) =~= committed(
                            projects,
                            id,
                            table,
                        ));
                    },
                    None => {},
                }
            },
            None => {},
        }
    }
}

/// Once `default` is registered, every project id binds to a table.
pub proof fn lemma_default_catches_all<T>(projects: Seq<ProjectView<T>>, id: Seq<char>)
    requires
        position(projects, default_project()) is Some,
    ensures
        resolved(projects, id) is Some,
{
}

/// Why the table format could not open or create a table.
#[derive(Debug, Clone, Copy, PartialEq, Eq, Structural)]
pub enum StorageFailure {
    /// There is no table at the URI.
    NotFound,
    /// There is a table at the URI already.
    AlreadyExists,
    /// The URI does not parse.
    InvalidUri,
    /// The object store refused the credentials.
    AccessDenied,
    /// Anything else.
    Other,
}

/// What the table format answers to a request: the handle of the table, or
/// why there is none, with the reason as text.
#[derive(Debug)]
pub enum StorageReply<T> {
    Ready(T),
    Failed(StorageFailure, String),
}

/// How far a registration has come.
#[derive(Debug, Clone, Copy, PartialEq, Eq, Structural)]
pub enum Stage {
    /// The table is being opened.
    Loading,
    /// There was no table, so one is being created.
    Creating,
    /// Someone else created the table meanwhile, so it is being opened.
    Reopening,
}

/// What is asked of the table format.
#[derive(Debug)]
pub enum StorageRequest {
    /// Open the table at the URI.
    Load { uri: String, options: StorageOptions, allow_http: bool },
    /// Create a table at the URI with these columns and partition columns.
    Create {
        uri: String,
        options: StorageOptions,
        columns: Vec<Field>,
        partition_columns: Vec<String>,
    },
}

/// The mathematical value of a [`StorageRequest`].
pub enum StorageRequestView {
    Load { uri: Seq<char>, options: Seq<(Seq<char>, Seq<char>)>, allow_http: bool },
    Create {
        uri: Seq<char>,
        options: Seq<(Seq<char>, Seq<char>)>,
        columns: Seq<crate::schema::FieldView>,
        partition_columns: Seq<Seq<char>>,
    },
}

impl View for StorageRequest {
    type V = StorageRequestView;

    open spec fn view(&self) -> StorageRequestView {
        match *self {
            StorageRequest::Load { uri, options, allow_http } => StorageRequestView::Load {
                uri: uri@,
                options: options@,
                allow_http,
            },
            StorageRequest::Create {
                uri,
                options,
                columns,
                partition_columns,
            } => StorageRequestView::Create {
                uri: uri@,
                options: options@,
                columns: columns.deep_view(),
                partition_columns: partition_columns.deep_view(),
            },
        }
    }
}

/// A registration that waits for an answer of the table format.
#[derive(Debug)]
pub struct PendingRegistration {
    pub project_id: String,
    pub storage_uri: String,
    pub storage_options: StorageOptions,
    pub stage: Stage,
}

/// The mathematical value of a [`PendingRegistration`].
pub struct PendingRegistrationView {
    pub project_id: Seq<char>,
    pub storage_uri: Seq<char>,
    pub storage_options: Seq<(Seq<char>, Seq<char>)>,
    pub stage: Stage,
}

impl View for PendingRegistration {
    type V = PendingRegistrationView;

    open spec fn view(&self) -> PendingRegistrationView {
        PendingRegistrationView {
            project_id: self.project_id@,
            storage_uri: self.storage_uri@,
            storage_options: self.storage_options@,
            stage: self.stage,
        }
    }
}

impl PendingRegistrationView {
    /// What the registration asks of the table format at its stage: to
    /// create the table with the canonical columns and partition columns
    /// while creating, to open it else; plain HTTP is allowed.
    pub open spec fn request(self) -> StorageRequestView {
        match self.stage {
            Stage::Creating => StorageRequestView::Create {
                uri: self.storage_uri,
                options: self.storage_options,
                columns: canonical_columns(),
                partition_columns: partition_columns(),
            },
            _ => StorageRequestView::Load {
                uri: self.storage_uri,
                options: self.storage_options,
                allow_http: true,
            },
        }
    }

    /// The project that the registration installs once it has the table.
    pub open spec fn project<T>(self, table: T) -> ProjectView<T> {
        ProjectView {
            project_id: self.project_id,
            storage_uri: self.storage_uri,
            storage_options: self.storage_options,
            table,
        }
    }
}

/// The stage that follows a failure, where the registration goes on: a
/// table that is not there is created, and a table that someone else
/// created meanwhile is opened. Every other failure ends the registration.
pub open spec fn next_stage(stage: Stage, failure: StorageFailure) -> Option<Stage> {
    match (stage, failure) {
        (Stage::Loading, StorageFailure::NotFound) => Some(Stage::Creating),
        (Stage::Creating, StorageFailure::AlreadyExists) => Some(Stage::Reopening),
        _ => None,
    }
}

/// Whether `error` is the error with which a registration ends on a
/// failure: `BadEndpoint` for a URI that does not parse, `CredentialError`
/// for refused credentials, `TableCreate` else; the reason is kept.
pub open spec fn is_registration_error(
    error: TimeFusionError,
    failure: StorageFailure,
    reason: Seq<char>,
) -> bool {
    &&& error.detail() == reason
    &&& match failure {
        StorageFailure::InvalidUri => error is BadEndpoint,
        StorageFailure::AccessDenied => error is CredentialError,
        _ => error is TableCreate,
    }
}

/// What a registration does next.
#[derive(Debug)]
pub enum RegistrationStep {
    /// The project is in the catalog.
    Registered,
    /// The table format is asked again.
    Ask(PendingRegistration, StorageRequest),
    /// The registration failed.
    Failed(TimeFusionError),
}

/// A write that waits for the table format to commit it.
#[derive(Debug)]
pub struct PendingWrite {
    /// The project whose table the batches are committed to.
    pub project_id: String,
    /// The partition columns of the write.
    pub partition_columns: Vec<String>,
}

/// A table that is to be opened again from its URI.
#[derive(Debug)]
pub struct ReopenRequest {
    pub project_id: String,
    pub storage_uri: String,
}

/// What a new database starts with: the empty catalog, the parsed endpoint
/// for the object store's handlers, and the registration of `default`.
#[derive(Debug)]
pub struct Startup<T> {
    pub database: Database<T>,
    pub endpoint: url::Url,
    pub registration: PendingRegistration,
    pub request: StorageRequest,
}

/// The project catalog: one table handle per project id. The projects are
/// kept in the order in which they were first registered.
#[derive(Debug)]
pub struct Database<T> {
    projects: Vec<ProjectConfig<T>>,
}

impl<T> View for Database<T> {
    type V = Seq<ProjectView<T>>;

    closed spec fn view(&self) -> Seq<ProjectView<T>> {
        self.projects@.map_values(|p: ProjectConfig<T>| p@)
    }
}

fn request_for(pending: &PendingRegistration) -> (request: StorageRequest)
    ensures
        request@ == pending@.request(),
{
    match pending.stage {
        Stage::Creating => {
            let columns = match OtelLogsAndSpans::columns() {
                Ok(columns) => columns,
                Err(_) => Vec::new(),
            };
            StorageRequest::Create {
                uri: pending.storage_uri.clone(),
                options: pending.storage_options.duplicate(),
                columns,
                partition_columns: OtelLogsAndSpans::partitions(),
            }
        },
        _ => StorageRequest::Load {
            uri: pending.storage_uri.clone(),
            options: pending.storage_options.duplicate(),
            allow_http: true,
        },
    }
}

fn registration_error(failure: StorageFailure, reason: String) -> (error: TimeFusionError)
    ensures
        is_registration_error(error, failure, reason@),
{
    match failure {
        StorageFailure::InvalidUri => TimeFusionError::BadEndpoint(reason),
        StorageFailure::AccessDenied => TimeFusionError::CredentialError(reason),
        _ => TimeFusionError::TableCreate(reason),
    }
}

impl<T> Database<T> {
    /// The catalog is well formed: no two projects have the same id. A new
    /// catalog is, and every operation keeps it so.
    pub open spec fn wf(&self) -> bool {
        distinct_ids(self@)
    }

    /// A catalog without projects.
    pub fn empty() -> (database: Database<T>)
        ensures
            database@ == Seq::<ProjectView<T>>::empty(),
            database.wf(),
    {
        let database = Database { projects: Vec::new() };
        assert(database@ =~= Seq::<ProjectView<T>>::empty());
        database
    }

    /// Starts a database for a configuration.
    ///
    /// Fails with `BadEndpoint`, which carries the endpoint, exactly when
    /// the configured endpoint is no absolute URL. Else the catalog is
    /// empty, and `default` is to be registered at the configured storage
    /// URI with the configured credentials.
    pub fn new(config: &Config) -> (r: Result<Startup<T>, TimeFusionError>)
        ensures
            r is Ok <==> url_parses(config.s3_endpoint@),
            r matches Ok(startup) ==> {
                &&& startup.database@ == Seq::<ProjectView<T>>::empty()
                &&& startup.database.wf()
                &&& startup.registration@ == (PendingRegistrationView {
                    project_id: default_project(),
                    storage_uri: storage_uri_of(
                        config.s3_bucket@,
                        config.table_prefix@,
                        config.s3_endpoint@,
                    ),
                    storage_options: credential_bag(
                        Some(config.aws_access_key_id@),
                        Some(config.aws_secret_access_key@),
                        Some(config.s3_endpoint@),
                    ),
                    stage: Stage::Loading,
                })
                &&& startup.request@ == startup.registration@.request()
            },
            r matches Err(e) ==> e is BadEndpoint && e.detail() == config.s3_endpoint@,
    {
        let endpoint = match parse_url(config.s3_endpoint.as_str()) {
            Ok(url) => url,
            Err(_) => {
                return Err(TimeFusionError::BadEndpoint(config.s3_endpoint.clone()));
            },
        };
        let storage_uri = config.storage_uri();
        let (registration, request) = Self::register_project(
            "default",
            storage_uri.as_str(),
            Some(config.aws_access_key_id.as_str()),
            Some(config.aws_secret_access_key.as_str()),
            Some(config.s3_endpoint.as_str()),
        );
        Ok(Startup { database: Self::empty(), endpoint, registration, request })
    }

    /// How many projects are registered.
    pub fn len(&self) -> (n: usize)
        ensures
            n == self@.len(),
    {
        self.projects.len()
    }

    fn find(&self, project_id: &str) -> (found: Option<usize>)
        ensures
            match found {
                Some(i) => i < self.projects.len() && position(self@, project_id@) == Some(i as int),
                None => position(self@, project_id@) is None,
            },
    {
        let mut i: usize = 0;
        while i < self.projects.len()
            invariant
                i <= self.projects.len(),
                forall|j: int| 0 <= j < i ==> (#[trigger] self@[j]).project_id != project_id@,
            decreases self.projects.len() - i,
        {
            assert(self@[i as int] == self.projects[i as int]@);
            if str_eq(self.projects[i].project_id.as_str(), project_id) {
                proof {
                    lemma_position(self@, project_id@);
                }
                return Some(i);
            }
            i += 1;
        }
        proof {
            lemma_position(self@, project_id@);
        }
        None
    }

    fn find_bound(&self, project_id: &str) -> (found: Option<usize>)
        ensures
            match found {
                Some(i) => i < self.projects.len() && resolved(self@, project_id@) == Some(i as int),
                None => resolved(self@, project_id@) is None,
            },
    {
        match self.find(project_id) {
            Some(i) => Some(i),
            None => self.find("default"),
        }
    }

    /// Whether a project of that id is registered.
    pub fn is_registered(&self, project_id: &str) -> (registered: bool)
        ensures
            registered == position(self@, project_id@) is Some,
    {
        self.find(project_id).is_some()
    }

    /// The project that a project id binds to: the project of that id
    /// where it is registered, else `default`.
    ///
    /// Fails with `UnknownProject`, which carries the id, exactly when
    /// neither is registered.
    pub fn resolve_project(&self, project_id: &str) -> (r: Result<
        &ProjectConfig<T>,
        TimeFusionError,
    >)
        ensures
            match resolved(self@, project_id@) {
                Some(i) => r matches Ok(project) && project@ == self@[i],
                None => r matches Err(e) && e is UnknownProject && e.detail() == project_id@,
            },
    {
        match self.find_bound(project_id) {
            Some(i) => {
                assert(self@[i as int] == self.projects[i as int]@);
                Ok(&self.projects[i])
            },
            None => Err(TimeFusionError::UnknownProject(String::from_str(project_id))),
        }
    }

    /// The table handle that a project id binds to: its own where the
    /// project is registered, else that of `default`.
    ///
    /// Fails with `UnknownProject`, which carries the id, exactly when
    /// neither is registered.
    pub fn resolve_table(&self, project_id: &str) -> (r: Result<&T, TimeFusionError>)
        ensures
            match resolved(self@, project_id@) {
                Some(i) => r matches Ok(table) && *table == self@[i].table,
                None => r matches Err(e) && e is UnknownProject && e.detail() == project_id@,
            },
    {
        match self.resolve_project(project_id) {
            Ok(project) => Ok(&project.table),
            Err(e) => Err(e),
        }
    }

    /// Begins the registration of a project: builds its credential bag and
    /// asks the table format to open the table at `conn_str`.
    pub fn register_project(
        project_id: &str,
        conn_str: &str,
        access_key: Option<&str>,
        secret_key: Option<&str>,
        endpoint: Option<&str>,
    ) -> (begun: (PendingRegistration, StorageRequest))
        ensures
            begun.0@ == (PendingRegistrationView {
                project_id: project_id@,
                storage_uri: conn_str@,
                storage_options: credential_bag(
                    opt_str(access_key),
                    opt_str(secret_key),
                    opt_str(endpoint),
                ),
                stage: Stage::Loading,
            }),
            begun.1@ == begun.0@.request(),
    {
        let pending = PendingRegistration {
            project_id: String::from_str(project_id),
            storage_uri: String::from_str(conn_str),
            storage_options: StorageOptions::build(access_key, secret_key, endpoint),
            stage: Stage::Loading,
        };
        let request = request_for(&pending);
        (pending, request)
    }

    /// Puts a project into the catalog, in the place of the project of the
    /// same id where there is one, and last where there is none.
    pub fn install(&mut self, project: ProjectConfig<T>)
        ensures
            final(self)@ == installed(old(self)@, project@),
            old(self).wf() ==> final(self).wf(),
    {
        proof {
            if self.wf() {
                lemma_installed(self@, project@);
            }
        }
        match self.find(project.project_id.as_str()) {
            Some(i) => {
                let ghost before = self@;
                self.projects.set(i, project);
                assert(self@ =~= before.update(i as int, project@));
            },
            None => {
                let ghost before = self@;
                self.projects.push(project);
                assert(self@ =~= before.push(project@));
            },
        }
    }

    /// Goes on with a registration when the table format has answered.
    ///
    /// With the table in hand the project is installed. Where there was no
    /// table to open, one is created; where someone else created it
    /// meanwhile, it is opened. Every other failure ends the registration
    /// with an error that keeps the reason, and leaves the catalog as it
    /// was.
    pub fn continue_registration(
        &mut self,
        pending: PendingRegistration,
        reply: StorageReply<T>,
    ) -> (step: RegistrationStep)
        ensures
            old(self).wf() ==> final(self).wf(),
            match reply {
                StorageReply::Ready(table) => step is Registered && final(self)@ == installed(
                    old(self)@,
                    pending@.project(table),
                ),
                StorageReply::Failed(failure, reason) => final(self)@ == old(self)@ && (match next_stage(
                    pending.stage,
                    failure,
                ) {
                    Some(stage) => step matches RegistrationStep::Ask(next, request) && next@ == (
                    PendingRegistrationView { stage, ..pending@ }) && request@ == next@.request(),
                    None => step matches RegistrationStep::Failed(error) && is_registration_error(
                        error,
                        failure,
                        reason@,
                    ),
                }),
            },
    {
        match reply {
            StorageReply::Ready(table) => {
                self.install(
                    ProjectConfig {
                        project_id: pending.project_id,
                        storage_uri: pending.storage_uri,
                        storage_options: pending.storage_options,
                        table,
                    },
                );
                RegistrationStep::Registered
            },
            StorageReply::Failed(failure, reason) => {
                let stage = match (pending.stage, failure) {
                    (Stage::Loading, StorageFailure::NotFound) => Some(Stage::Creating),
                    (Stage::Creating, StorageFailure::AlreadyExists) => Some(Stage::Reopening),
                    _ => None,
                };
                match stage {
                    Some(stage) => {
                        let next = PendingRegistration {
                            project_id: pending.project_id,
                            storage_uri: pending.storage_uri,
                            storage_options: pending.storage_options,
                            stage,
                        };
                        let request = request_for(&next);
                        RegistrationStep::Ask(next, request)
                    },
                    None => RegistrationStep::Failed(registration_error(failure, reason)),
                }
            },
        }
    }

    /// Puts `table` in the place of the table of the project named
    /// `project_id`. Returns whether there is such a project; where there
    /// is none, nothing changes.
    pub fn replace_table(&mut self, project_id: &str, table: T) -> (replaced: bool)
        ensures
            replaced == position(old(self)@, project_id@) is Some,
            final(self)@ == with_table(old(self)@, project_id@, table),
            old(self).wf() ==> final(self).wf(),
    {
        proof {
            lemma_with_table_keeps_positions(self@, project_id@, table, project_id@);
        }
        match self.find(project_id) {
            Some(i) => {
                let ghost before = self@;
                assert(before[i as int] == self.projects[i as int]@);
                self.projects[i].table = table;
                assert(self@ =~= with_table(before, project_id@, table));
                true
            },
            None => false,
        }
    }

    /// Begins a write to the project that `project_id` binds to: names the
    /// project whose table takes the batches, and the partition columns.
    ///
    /// Fails with `UnknownProject`, which carries the id, exactly when the
    /// id binds to no table.
    pub fn insert_records_batch(&self, project_id: &str) -> (r: Result<
        PendingWrite,
        TimeFusionError,
    >)
        ensures
            match resolved(self@, project_id@) {
                Some(i) => r matches Ok(write) && write.project_id@ == self@[i].project_id
                    && write.partition_columns.deep_view() == partition_columns(),
                None => r matches Err(e) && e is UnknownProject && e.detail() == project_id@,
            },
    {
        match self.resolve_project(project_id) {
            Ok(project) => Ok(
                PendingWrite {
                    project_id: project.project_id.clone(),
                    partition_columns: OtelLogsAndSpans::partitions(),
                },
            ),
            Err(e) => Err(e),
        }
    }

    /// Ends a write when the table format has answered.
    ///
    /// A commit that succeeded leaves its table in the catalog in the place
    /// of the one written to. One that failed gives `CommitFailed` with the
    /// reason, and the catalog stays as it was: a write is visible in full
    /// or not at all. `UnknownProject` comes where the project written to
    /// is not in this catalog.
    pub fn complete_write(&mut self, write: &PendingWrite, outcome: Result<T, String>) -> (r:
        Result<(), TimeFusionError>)
        ensures
            old(self).wf() ==> final(self).wf(),
            match outcome {
                Ok(table) => final(self)@ == with_table(old(self)@, write.project_id@, table) && (
                match position(old(self)@, write.project_id@) {
                    Some(_) => r is Ok,
                    None => r matches Err(e) && e is UnknownProject && e.detail()
                        == write.project_id@,
                }),
                Err(reason) => final(self)@ == old(self)@ && (r matches Err(e) && e is CommitFailed
                    && e.detail() == reason@),
            },
    {
        match outcome {
            Ok(table) => {
                if self.replace_table(write.project_id.as_str(), table) {
                    Ok(())
                } else {
                    Err(TimeFusionError::UnknownProject(write.project_id.clone()))
                }
            },
            Err(reason) => Err(TimeFusionError::CommitFailed(reason)),
        }
    }

    /// Lists every table of the catalog, in order, to be opened again from
    /// its URI.
    pub fn flush_pending_writes(&self) -> (requests: Vec<ReopenRequest>)
        ensures
            requests.len() == self@.len(),
            forall|i: int|
                0 <= i < requests.len() ==> (#[trigger] requests[i]).project_id@
                    == self@[i].project_id && requests[i].storage_uri@ == self@[i].storage_uri,
    {
        let mut requests: Vec<ReopenRequest> = Vec::new();
        let mut i: usize = 0;
        while i < self.projects.len()
            invariant
                i <= self.projects.len(),
                requests.len() == i,
                forall|j: int|
                    0 <= j < i ==> (#[trigger] requests[j]).project_id@ == self@[j].project_id
                        && requests[j].storage_uri@ == self@[j].storage_uri,
            decreases self.projects.len() - i,
        {
            assert(self@[i as int] == self.projects[i as int]@);
            requests.push(
                ReopenRequest {
                    project_id: self.projects[i].project_id.clone(),
                    storage_uri: self.projects[i].storage_uri.clone(),
                },
            );
            i += 1;
        }
        requests
    }

    /// Takes the answer to a reopening: the table that was opened comes in
    /// the place of the old one. A failure gives `TableCreate` with the
    /// reason and changes nothing; `UnknownProject` comes where no project
    /// of that id is registered.
    pub fn complete_reopen(&mut self, project_id: &str, reopened: Result<T, String>) -> (r: Result<
        (),
        TimeFusionError,
    >)
        ensures
            old(self).wf() ==> final(self).wf(),
            match reopened {
                Ok(table) => final(self)@ == with_table(old(self)@, project_id@, table) && (
                match position(old(self)@, project_id@) {
                    Some(_) => r is Ok,
                    None => r matches Err(e) && e is UnknownProject && e.detail() == project_id@,
                }),
                Err(reason) => final(self)@ == old(self)@ && (r matches Err(e) && e is TableCreate
                    && e.detail() == reason@),
            },
    {
        match reopened {
            Ok(table) => {
                if self.replace_table(project_id, table) {
                    Ok(())
                } else {
                    Err(TimeFusionError::UnknownProject(String::from_str(project_id)))
                }
            },
            Err(reason) => Err(TimeFusionError::TableCreate(reason)),
        }
    }
}

/// A commit lands on the table that the project id was bound to when the
/// write began.
pub proof fn lemma_commit_lands_on_bound_project<T>(
    projects: Seq<ProjectView<T>>,
    id: Seq<char>,
    table: T,
)
    requires
        distinct_ids(projects),
        resolved(projects, id) is Some,
    ensures
        with_table(projects, projects[resolved(projects, id)->Some_0].project_id, table)
            == committed(projects, id, table),
{
    lemma_position(projects, id);
    lemma_position(projects, default_project());
    let i = resolved(projects, id)->Some_0;
    lemma_position_of_member(projects, i);
}

} // verus!
