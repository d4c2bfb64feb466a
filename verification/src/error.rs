//! Error kinds shared by every subsystem.

use vstd::prelude::*;
use vstd::string::*;

verus! {

/// What went wrong, with the reason as text.
///
/// `SchemaInvariant` is an internal fault; `Io` and `AuthFailed` close the
/// connection; the others are reported to the client.
#[derive(Debug)]
pub enum TimeFusionError {
    /// The row shape does not project into the expected schema.
    SchemaInvariant(String),
    /// Neither the project nor the `default` project is registered.
    UnknownProject(String),
    /// The input of an `INSERT` does not have the routing table's schema.
    SchemaMismatch(String),
    /// An insert mode other than append, or unsupported SQL.
    Unimplemented(String),
    /// The table format refused a commit.
    CommitFailed(String),
    /// A connection-level fault.
    Io(String),
    /// The startup handshake did not authenticate the client.
    AuthFailed(String),
    /// A storage URI or endpoint that does not parse.
    BadEndpoint(String),
    /// The object store refused the credentials.
    CredentialError(String),
    /// The table could neither be opened nor created.
    TableCreate(String),
}

impl TimeFusionError {
    /// The reason carried by the error.
    pub open spec fn detail(self) -> Seq<char> {
        match self {
            TimeFusionError::SchemaInvariant(s) => s@,
            TimeFusionError::UnknownProject(s) => s@,
            TimeFusionError::SchemaMismatch(s) => s@,
            TimeFusionError::Unimplemented(s) => s@,
            TimeFusionError::CommitFailed(s) => s@,
            TimeFusionError::Io(s) => s@,
            TimeFusionError::AuthFailed(s) => s@,
            TimeFusionError::BadEndpoint(s) => s@,
            TimeFusionError::CredentialError(s) => s@,
            TimeFusionError::TableCreate(s) => s@,
        }
    }

    /// The name of the error kind.
    pub open spec fn kind_name(self) -> Seq<char> {
        match self {
            TimeFusionError::SchemaInvariant(_) => "SchemaInvariant"@,
            TimeFusionError::UnknownProject(_) => "UnknownProject"@,
            TimeFusionError::SchemaMismatch(_) => "SchemaMismatch"@,
            TimeFusionError::Unimplemented(_) => "Unimplemented"@,
            TimeFusionError::CommitFailed(_) => "CommitFailed"@,
            TimeFusionError::Io(_) => "Io"@,
            TimeFusionError::AuthFailed(_) => "AuthFailed"@,
            TimeFusionError::BadEndpoint(_) => "BadEndpoint"@,
            TimeFusionError::CredentialError(_) => "CredentialError"@,
            TimeFusionError::TableCreate(_) => "TableCreate"@,
        }
    }

    /// True when the error must close the connection rather than be sent as
    /// an error response.
    pub open spec fn closes_connection(self) -> bool {
        self is Io || self is AuthFailed
    }

    /// Whether the connection has to be closed on this error.
    pub fn is_fatal_to_connection(&self) -> (fatal: bool)
        ensures
            fatal == self.closes_connection(),
    {
        match self {
            TimeFusionError::Io(_) => true,
            TimeFusionError::AuthFailed(_) => true,
            _ => false,
        }
    }

    /// The text shown for the error: the kind, a colon and the reason.
    pub fn message(&self) -> (text: String)
        ensures
            text@ == self.kind_name() + ": "@ + self.detail(),
    {
        let (kind, detail) = match self {
            TimeFusionError::SchemaInvariant(s) => ("SchemaInvariant", s),
            TimeFusionError::UnknownProject(s) => ("UnknownProject", s),
            TimeFusionError::SchemaMismatch(s) => ("SchemaMismatch", s),
            TimeFusionError::Unimplemented(s) => ("Unimplemented", s),
            TimeFusionError::CommitFailed(s) => ("CommitFailed", s),
            TimeFusionError::Io(s) => ("Io", s),
            TimeFusionError::AuthFailed(s) => ("AuthFailed", s),
            TimeFusionError::BadEndpoint(s) => ("BadEndpoint", s),
            TimeFusionError::CredentialError(s) => ("CredentialError", s),
            TimeFusionError::TableCreate(s) => ("TableCreate", s),
        };
        let mut text = String::from_str(kind);
        text.append(": ");
        text.append(detail.as_str());
        text
    }
}

} // verus!
