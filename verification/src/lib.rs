//! Follows the write-ahead log of a PostgreSQL database and hands each row change to the handler
//! of its table.
//!
//! A [`WalSubscriber`] takes in the frames of a logical replication stream. It decodes the
//! messages of the `pgoutput` plugin, keeps track of the tables that they describe, and turns
//! each insert, update and delete into a [`RawWalEvent`] for the [`WalEventHandler`] that is
//! registered for the table. [`TupleParser`] reads the values of a row from an event.
//!
//! Talking to the database and waiting for handlers is left to the caller: the subscriber says
//! which queries to send and what follows from the replies.
pub mod cut_messages;
pub mod encoding;
pub mod error;
pub mod frame;
pub mod laws;
pub mod laws_of_events;
pub mod laws_of_messages;
pub mod laws_of_rows;
pub mod laws_of_setup;
pub mod laws_of_text;
pub mod pgoutput;
pub mod text;
pub mod tuple_parser;
pub mod tuple_writer;
pub mod wal_event;
pub mod wal_subscriber;
pub mod wire;

pub use error::{WalError, WalResult};
pub use tuple_parser::TupleParser;
pub use wal_event::{
    ColumnInfo, RawWalEvent, TransactionEvent, TupleValue, WalEventHandler, WalOperation,
};
pub use wal_subscriber::{WalSubscriber, WalSubscriberConfig};
