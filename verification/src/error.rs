//! What can go wrong between the database and a handler.
use vstd::prelude::*;

verus! {

/// An error of the database client; it is carried as it is.
#[verifier::external_type_specification]
#[verifier::external_body]
pub struct ExPostgresError(tokio_postgres::Error);

/// An error of the operating system's I/O; it is carried as it is.
#[verifier::external_type_specification]
#[verifier::external_body]
pub struct ExIoError(std::io::Error);

#[derive(Debug)]
pub enum WalError {
    /// The database connection failed.
    ConnectionError(tokio_postgres::Error),
    /// The replication slot could not be created.
    ReplicationSlotError(String),
    /// The publication could not be created.
    PublicationError(String),
    /// Bytes from the log do not hold what was asked of them.
    DecodingError(String),
    /// The connection parameters are unusable.
    ConfigError(String),
    /// Reading or writing failed.
    IoError(std::io::Error),
    /// A handler reported a failure.
    HandlerError(String),
    /// A message came that was not expected.
    UnexpectedMessage(String),
}

pub type WalResult<T> = Result<T, WalError>;

impl WalError {
    /// A decoding error that reads `text`.
    pub open spec fn is_decoding(self, text: Seq<char>) -> bool {
        self matches WalError::DecodingError(message) && message@ == text
    }

    /// A handler error that reads `text`.
    pub open spec fn is_handler(self, text: Seq<char>) -> bool {
        self matches WalError::HandlerError(message) && message@ == text
    }

    /// A publication error that reads `text`.
    pub open spec fn is_publication(self, text: Seq<char>) -> bool {
        self matches WalError::PublicationError(message) && message@ == text
    }

    /// A replication slot error that reads `text`.
    pub open spec fn is_replication_slot(self, text: Seq<char>) -> bool {
        self matches WalError::ReplicationSlotError(message) && message@ == text
    }

    /// A configuration error that reads `text`.
    pub open spec fn is_config(self, text: Seq<char>) -> bool {
        self matches WalError::ConfigError(message) && message@ == text
    }
}

impl From<tokio_postgres::Error> for WalError {
    fn from(error: tokio_postgres::Error) -> (converted: WalError) {
        WalError::ConnectionError(error)
    }
}

impl vstd::std_specs::convert::FromSpecImpl<tokio_postgres::Error> for WalError {
    open spec fn obeys_from_spec() -> bool {
        true
    }

    open spec fn from_spec(error: tokio_postgres::Error) -> WalError {
        WalError::ConnectionError(error)
    }
}

impl From<std::io::Error> for WalError {
    fn from(error: std::io::Error) -> (converted: WalError) {
        WalError::IoError(error)
    }
}

impl vstd::std_specs::convert::FromSpecImpl<std::io::Error> for WalError {
    open spec fn obeys_from_spec() -> bool {
        true
    }

    open spec fn from_spec(error: std::io::Error) -> WalError {
        WalError::IoError(error)
    }
}

} // verus!
