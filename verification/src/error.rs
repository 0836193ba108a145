//! The closed set of failures that the storage core reports.

use vstd::prelude::*;
use vstd::std_specs::convert::FromSpecImpl;
use vstd::string::to_string_from_display_ensures;
use vstd::string::StringExecFns;

verus! {

/// `rusqlite::Error`, carried as a cause and never looked into.
#[verifier::external_type_specification]
#[verifier::external_body]
pub struct ExSqliteError(rusqlite::Error);

/// `serde_json::Error`, carried as a cause and never looked into.
#[verifier::external_type_specification]
#[verifier::external_body]
pub struct ExJsonError(serde_json::Error);

/// `std::io::Error`, carried as a cause and never looked into.
#[verifier::external_type_specification]
#[verifier::external_body]
pub struct ExIoError(std::io::Error);

/// The four kinds of failure a caller has to tell apart.
#[derive(Clone, Copy, Debug, PartialEq, Eq, Structural)]
pub enum ErrorKind {
    /// The storage engine failed: a query, a constraint or the connection.
    StorageFault,
    /// Stored or received data could not be decoded.
    SerializationFault,
    /// The filesystem failed.
    IoFault,
    /// The operation named a record that does not exist.
    NotFound,
}

/// A failure of the storage core, with its cause.
#[derive(Debug)]
pub enum NotaroError {
    /// SQLite reported a failure.
    Db(rusqlite::Error),
    /// A JSON payload could not be encoded or decoded.
    Serialization(serde_json::Error),
    /// The filesystem reported a failure.
    Io(std::io::Error),
    /// A stored timestamp is not RFC 3339 text.
    Timestamp(chrono::ParseError),
    /// No record has the given id.
    NotFound,
    /// A record with the given id is already stored.
    DuplicateId,
    /// The record's version counter cannot be raised any further.
    VersionOverflow,
}

impl NotaroError {
    /// The kind of failure this error belongs to.
    pub open spec fn spec_kind(&self) -> ErrorKind {
        match self {
            NotaroError::Db(_) => ErrorKind::StorageFault,
            NotaroError::DuplicateId => ErrorKind::StorageFault,
            NotaroError::VersionOverflow => ErrorKind::StorageFault,
            NotaroError::Serialization(_) => ErrorKind::SerializationFault,
            NotaroError::Timestamp(_) => ErrorKind::SerializationFault,
            NotaroError::Io(_) => ErrorKind::IoFault,
            NotaroError::NotFound => ErrorKind::NotFound,
        }
    }

    /// The kind of failure this error belongs to.
    #[verifier::when_used_as_spec(spec_kind)]
    pub fn kind(&self) -> (kind: ErrorKind)
        ensures
            kind == self.spec_kind(),
    {
        match self {
            NotaroError::Db(_) => ErrorKind::StorageFault,
            NotaroError::DuplicateId => ErrorKind::StorageFault,
            NotaroError::VersionOverflow => ErrorKind::StorageFault,
            NotaroError::Serialization(_) => ErrorKind::SerializationFault,
            NotaroError::Timestamp(_) => ErrorKind::SerializationFault,
            NotaroError::Io(_) => ErrorKind::IoFault,
            NotaroError::NotFound => ErrorKind::NotFound,
        }
    }

    /// Whether `text` is this error written out for a reader: the kind's
    /// heading followed by what the cause says of itself.
    pub open spec fn renders_as(&self, text: Seq<char>) -> bool {
        match self {
            NotaroError::Db(cause) => exists|said: String|
                #[trigger] to_string_from_display_ensures::<rusqlite::Error>(cause, said) && text
                    == "Database error: "@ + said@,
            NotaroError::Serialization(cause) => exists|said: String|
                #[trigger] to_string_from_display_ensures::<serde_json::Error>(cause, said)
                    && text == "Serialization error: "@ + said@,
            NotaroError::Io(cause) => exists|said: String|
                #[trigger] to_string_from_display_ensures::<std::io::Error>(cause, said) && text
                    == "IO error: "@ + said@,
            NotaroError::Timestamp(cause) => exists|said: String|
                #[trigger] to_string_from_display_ensures::<chrono::ParseError>(cause, said)
                    && text == "Serialization error: "@ + said@,
            NotaroError::NotFound => text == "Record not found"@,
            NotaroError::DuplicateId => text == "Database error: record id already exists"@,
            NotaroError::VersionOverflow => text == "Database error: record version exhausted"@,
        }
    }

    /// Writes the error out for a reader.
    pub fn message(&self) -> (text: String)
        ensures
            self.renders_as(text@),
    {
        match self {
            NotaroError::Db(cause) => {
                let said = cause.to_string();
                "Database error: ".to_owned().concat(said.as_str())
            },
            NotaroError::Serialization(cause) => {
                let said = cause.to_string();
                "Serialization error: ".to_owned().concat(said.as_str())
            },
            NotaroError::Io(cause) => {
                let said = cause.to_string();
                "IO error: ".to_owned().concat(said.as_str())
            },
            NotaroError::Timestamp(cause) => {
                let said = cause.to_string();
                "Serialization error: ".to_owned().concat(said.as_str())
            },
            NotaroError::NotFound => "Record not found".to_owned(),
            NotaroError::DuplicateId => "Database error: record id already exists".to_owned(),
            NotaroError::VersionOverflow => "Database error: record version exhausted".to_owned(),
        }
    }
}

impl From<rusqlite::Error> for NotaroError {
    fn from(cause: rusqlite::Error) -> (err: NotaroError) {
        NotaroError::Db(cause)
    }
}

impl FromSpecImpl<rusqlite::Error> for NotaroError {
    open spec fn obeys_from_spec() -> bool {
        true
    }

    open spec fn from_spec(cause: rusqlite::Error) -> NotaroError {
        NotaroError::Db(cause)
    }
}

impl From<serde_json::Error> for NotaroError {
    fn from(cause: serde_json::Error) -> (err: NotaroError) {
        NotaroError::Serialization(cause)
    }
}

impl FromSpecImpl<serde_json::Error> for NotaroError {
    open spec fn obeys_from_spec() -> bool {
        true
    }

    open spec fn from_spec(cause: serde_json::Error) -> NotaroError {
        NotaroError::Serialization(cause)
    }
}

impl From<std::io::Error> for NotaroError {
    fn from(cause: std::io::Error) -> (err: NotaroError) {
        NotaroError::Io(cause)
    }
}

impl FromSpecImpl<std::io::Error> for NotaroError {
    open spec fn obeys_from_spec() -> bool {
        true
    }

    open spec fn from_spec(cause: std::io::Error) -> NotaroError {
        NotaroError::Io(cause)
    }
}

impl From<chrono::ParseError> for NotaroError {
    fn from(cause: chrono::ParseError) -> (err: NotaroError) {
        NotaroError::Timestamp(cause)
    }
}

impl FromSpecImpl<chrono::ParseError> for NotaroError {
    open spec fn obeys_from_spec() -> bool {
        true
    }

    open spec fn from_spec(cause: chrono::ParseError) -> NotaroError {
        NotaroError::Timestamp(cause)
    }
}

} // verus!
