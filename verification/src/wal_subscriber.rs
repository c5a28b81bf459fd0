//! The subscriber: how it connects, what it asks of the database, and what it does with the
//! stream that comes back.
use crate::error::{WalError, WalResult};
use crate::frame;
use crate::frame::{as_slice, take_log_bytes};
use crate::pgoutput;
use crate::pgoutput::{parse_message, Message, MessageModel, Relation, RelationModel};
use crate::text;
use crate::text::{contains, join};
use crate::tuple_writer;
use crate::tuple_writer::write_tuple;
use crate::wal_event;
use crate::wal_event::{copy_columns, EventModel, RawWalEvent, WalEventHandler, WalOperation};
use bytes::Bytes;
use std::collections::HashMap;
use std::sync::Arc;
use tokio_postgres::Config;
use vstd::hash_map::StringHashMap;
use vstd::prelude::*;
use vstd::string::StringExecFns;

verus! {

/// Where the database is and who connects to it.
#[derive(Debug, Clone)]
pub struct DatabaseCredentials {
    pub host: String,
    pub user: String,
    pub password: String,
    pub db_name: String,
}

impl DatabaseCredentials {
    /// The user `postgres` on this machine, with no password and no database.
    pub fn new() -> (credentials: Self)
        ensures
            credentials.host@ == "localhost"@,
            credentials.user@ == "postgres"@,
            credentials.password@ == ""@,
            credentials.db_name@ == ""@,
    {
        Self {
            host: "localhost".to_owned(),
            user: "postgres".to_owned(),
            password: "".to_owned(),
            db_name: "".to_owned(),
        }
    }

    /// The connection string for these credentials, in replication mode.
    pub open spec fn connection_string(self) -> Seq<char> {
        "host="@ + self.host@ + " user="@ + self.user@ + " password="@ + self.password@
            + " dbname="@ + self.db_name@ + " replication=database"@
    }

    /// Writes the connection string for these credentials, in replication mode.
    pub fn to_connection_string(&self) -> (connection_string: String)
        ensures
            connection_string@ == self.connection_string(),
    {
        let mut s = "host=".to_owned();
        s.append(self.host.as_str());
        s.append(" user=");
        s.append(self.user.as_str());
        s.append(" password=");
        s.append(self.password.as_str());
        s.append(" dbname=");
        s.append(self.db_name.as_str());
        s.append(" replication=database");
        s
    }
}

/// What a subscriber is told to subscribe to.
#[derive(Debug, Clone)]
pub struct WalSubscriberConfig {
    /// The connection string, if it is given; where this is empty, it is made from the credentials
    pub connection_string: String,
    pub database_creds: DatabaseCredentials,
    pub slot_name: String,
    pub publication_name: String,
    /// Protocol version (use "1" for pgoutput)
    pub protocol_version: String,
    pub create_publication: bool,
    pub publication_tables: Vec<String>,
}

impl WalSubscriberConfig {
    /// The connection string to connect with: the one that is given, as it stands, or else the
    /// one for the credentials.
    pub open spec fn connection_target(self) -> Seq<char> {
        if self.connection_string@.len() > 0 {
            self.connection_string@
        } else {
            self.database_creds.connection_string()
        }
    }

    /// Writes the connection string to connect with.
    pub fn to_connection_string(&self) -> (connection_string: String)
        ensures
            connection_string@ == self.connection_target(),
    {
        if self.connection_string.as_str().is_empty() {
            self.database_creds.to_connection_string()
        } else {
            self.connection_string.clone()
        }
    }
}

impl Default for WalSubscriberConfig {
    fn default() -> (config: Self)
        ensures
            config.connection_string@ == ""@,
            config.database_creds.host@ == "localhost"@,
            config.database_creds.user@ == "postgres"@,
            config.database_creds.password@ == ""@,
            config.database_creds.db_name@ == ""@,
            config.slot_name@ == "cruding_wal_slot"@,
            config.publication_name@ == "cruding_publication"@,
            config.protocol_version@ == "1"@,
            config.create_publication,
            config.publication_tables@ == Seq::<String>::empty(),
    {
        Self {
            connection_string: "".to_owned(),
            database_creds: DatabaseCredentials::new(),
            slot_name: "cruding_wal_slot".to_owned(),
            publication_name: "cruding_publication".to_owned(),
            protocol_version: "1".to_owned(),
            create_publication: true,
            publication_tables: Vec::new(),
        }
    }
}

/// Connection parameters of the database client; they are carried as they are.
#[verifier::external_type_specification]
#[verifier::external_body]
pub struct ExConfig(tokio_postgres::Config);

/// What the database client reads from a connection string: connection parameters, or the words
/// in which it refuses the string.
pub uninterp spec fn read_connection_string(s: Seq<char>) -> Result<
    tokio_postgres::Config,
    Seq<char>,
>;

/// `<tokio_postgres::Config as FromStr>::from_str`, by way of `str::parse`.
///
/// Trusted: what a build of the client gives depends on the string alone, and is called
/// [`read_connection_string`]. Which strings it accepts, and what it makes of them, is not stated.
#[verifier::external_body]
fn parse_connection_string(s: &str) -> (parsed: Result<Config, String>)
    ensures
        match parsed {
            Ok(config) => read_connection_string(s@) == Ok::<Config, Seq<char>>(config),
            Err(reason) => read_connection_string(s@) == Err::<Config, Seq<char>>(reason@),
        },
{
    s.parse::<Config>().map_err(|e| e.to_string())
}

/// What comes of reading a connection string: the parameters, or a configuration error.
pub fn connection_outcome(parsed: Result<Config, String>) -> (result: WalResult<Config>)
    ensures
        match parsed {
            Ok(config) => result == Ok::<Config, WalError>(config),
            Err(reason) => result matches Err(error) && error.is_config(
                "Invalid connection string: "@ + reason@,
            ),
        },
{
    match parsed {
        Ok(config) => Ok(config),
        Err(reason) => {
            let mut message = "Invalid connection string: ".to_owned();
            message.append(reason.as_str());
            Err(WalError::ConfigError(message))
        },
    }
}

/// Whether a reply to a request to create something leaves that something in place: it was
/// created, or it was there before.
pub open spec fn is_in_place(reply: Result<(), String>) -> bool {
    match reply {
        Ok(_) => true,
        Err(reason) => text::occurs_in("already exists"@, reason@),
    }
}

/// What comes of the reply to [`WalSubscriber::create_publication_query`].
pub fn publication_outcome(reply: Result<(), String>) -> (result: WalResult<()>)
    ensures
        result is Ok <==> is_in_place(reply),
        result matches Err(error) ==> error.is_publication(
            "Failed to create publication: "@ + reply->Err_0@,
        ),
{
    match reply {
        Ok(_) => Ok(()),
        Err(reason) => if contains(reason.as_str(), "already exists") {
            Ok(())
        } else {
            let mut message = "Failed to create publication: ".to_owned();
            message.append(reason.as_str());
            Err(WalError::PublicationError(message))
        },
    }
}

/// What comes of the reply to [`WalSubscriber::create_replication_slot_query`].
pub fn replication_slot_outcome(reply: Result<(), String>) -> (result: WalResult<()>)
    ensures
        result is Ok <==> is_in_place(reply),
        result matches Err(error) ==> error.is_replication_slot(
            "Failed to create replication slot: "@ + reply->Err_0@,
        ),
{
    match reply {
        Ok(_) => Ok(()),
        Err(reason) => if contains(reason.as_str(), "already exists") {
            Ok(())
        } else {
            let mut message = "Failed to create replication slot: ".to_owned();
            message.append(reason.as_str());
            Err(WalError::ReplicationSlotError(message))
        },
    }
}

/// What comes of the outcome that a handler reported.
pub fn dispatch_outcome(outcome: Result<(), String>) -> (result: WalResult<()>)
    ensures
        result is Ok <==> outcome is Ok,
        result matches Err(error) ==> error.is_handler("Handler failed: "@ + outcome->Err_0@),
{
    match outcome {
        Ok(_) => Ok(()),
        Err(reason) => {
            let mut message = "Handler failed: ".to_owned();
            message.append(reason.as_str());
            Err(WalError::HandlerError(message))
        },
    }
}

/// What comes of taking in a message or a frame: success where no handler was called, and else
/// what comes of the outcome that the handler reported.
pub fn processing_outcome(outcome: Option<Result<(), String>>) -> (result: WalResult<()>)
    ensures
        result is Ok <==> (outcome matches Some(reported) ==> reported is Ok),
        result matches Err(error) ==> error.is_handler(
            "Handler failed: "@ + outcome->0->Err_0@,
        ),
{
    match outcome {
        Some(reported) => dispatch_outcome(reported),
        None => Ok(()),
    }
}

/// What is to be done next before the stream can start.
#[derive(Debug, Clone, Copy, PartialEq, Eq, Structural)]
pub enum SetupStep {
    /// Send the query that creates the publication.
    CreatePublication,
    /// Send the query that creates the replication slot.
    CreateReplicationSlot,
    /// Nothing: the stream can start.
    Ready,
}

/// The first step of the setup.
pub open spec fn first_step(config: WalSubscriberConfig) -> SetupStep {
    if config.create_publication && config.publication_tables@.len() > 0 {
        SetupStep::CreatePublication
    } else {
        SetupStep::CreateReplicationSlot
    }
}

/// The step that follows `step` where its request was met.
pub open spec fn following(step: SetupStep) -> SetupStep {
    match step {
        SetupStep::CreatePublication => SetupStep::CreateReplicationSlot,
        SetupStep::CreateReplicationSlot => SetupStep::Ready,
        SetupStep::Ready => SetupStep::Ready,
    }
}

/// What comes of the reply to the request of a step: the next step, or the error that ends the
/// setup. Where nothing was left to request, the reply is not looked at.
pub fn continue_setup(step: SetupStep, reply: Result<(), String>) -> (result: WalResult<SetupStep>)
    ensures
        match result {
            Ok(next) => next == following(step) && (step == SetupStep::Ready || is_in_place(reply)),
            Err(error) => {
                &&& !is_in_place(reply)
                &&& match step {
                    SetupStep::CreatePublication => error.is_publication(
                        "Failed to create publication: "@ + reply->Err_0@,
                    ),
                    SetupStep::CreateReplicationSlot => error.is_replication_slot(
                        "Failed to create replication slot: "@ + reply->Err_0@,
                    ),
                    SetupStep::Ready => false,
                }
            },
        },
{
    match step {
        SetupStep::CreatePublication => match publication_outcome(reply) {
            Ok(_) => Ok(SetupStep::CreateReplicationSlot),
            Err(error) => Err(error),
        },
        SetupStep::CreateReplicationSlot => match replication_slot_outcome(reply) {
            Ok(_) => Ok(SetupStep::Ready),
            Err(error) => Err(error),
        },
        SetupStep::Ready => Ok(SetupStep::Ready),
    }
}

/// The tables that are known, by the ids that row messages name them with.
pub type Relations = Map<u32, RelationModel>;

/// The known tables after a message: a relation message describes its table anew.
pub open spec fn relations_after(relations: Relations, message: Option<MessageModel>) -> Relations {
    match message {
        Some(MessageModel::Relation { id, relation }) => relations.insert(id, relation),
        _ => relations,
    }
}

/// A change to a row of a table.
pub open spec fn row_change(
    relation: RelationModel,
    operation: WalOperation,
    old_tuple: Option<Seq<u8>>,
    new_tuple: Option<Seq<u8>>,
) -> EventModel {
    EventModel {
        table_name: relation.table_name,
        schema_name: relation.schema_name,
        operation,
        old_tuple,
        new_tuple,
        columns: relation.columns,
    }
}

/// The row change that a message reports; nothing where it reports none, or one in a table that
/// is not known.
pub open spec fn event_of(relations: Relations, message: Option<MessageModel>) -> Option<
    EventModel,
> {
    match message {
        Some(MessageModel::Insert { id, new }) if relations.contains_key(id) => Some(
            row_change(
                relations[id],
                WalOperation::Insert,
                None,
                Some(tuple_writer::written(new)),
            ),
        ),
        Some(MessageModel::Update { id, old, new }) if relations.contains_key(id) => Some(
            row_change(
                relations[id],
                WalOperation::Update,
                match old {
                    Some(fields) => Some(tuple_writer::written(fields)),
                    None => None,
                },
                Some(tuple_writer::written(new)),
            ),
        ),
        Some(MessageModel::Delete { id, old }) if relations.contains_key(id) => Some(
            row_change(
                relations[id],
                WalOperation::Delete,
                Some(tuple_writer::written(old)),
                None,
            ),
        ),
        _ => None,
    }
}

/// Whether `outcome` is what came of `event`: that of handing it to the handler of its table,
/// or none where there is no event or no such handler.
pub open spec fn is_outcome<H: WalEventHandler>(
    handlers: Map<Seq<char>, Arc<H>>,
    event: Option<EventModel>,
    outcome: Option<H::Outcome>,
) -> bool {
    match event {
        Some(e) if handlers.contains_key(e.table_name) => {
            &&& outcome is Some
            &&& exists|raw: RawWalEvent|
                raw@ == e && #[trigger] call_ensures(
                    H::handle,
                    (&*handlers[e.table_name], raw),
                    outcome->0,
                )
        },
        _ => outcome is None,
    }
}

/// The message in a frame, if there is one.
pub open spec fn frame_message(frame: Seq<u8>) -> Option<MessageModel> {
    match frame::log_bytes(frame) {
        Some(log) => pgoutput::message(log),
        None => None,
    }
}

/// An item of the stream: a frame, an error of the connection, or the end.
pub type StreamItem = Option<Result<Bytes, tokio_postgres::Error>>;

/// The message in an item of the stream, if there is one.
pub open spec fn item_message(item: StreamItem) -> Option<MessageModel> {
    match item {
        Some(Ok(data)) => frame_message(frame::content(data)),
        _ => None,
    }
}

/// The result with which an item ends the stream; nothing where the stream goes on.
pub open spec fn item_result(item: StreamItem) -> Option<WalResult<()>> {
    match item {
        Some(Ok(_)) => None,
        Some(Err(error)) => Some(Err(WalError::ConnectionError(error))),
        None => Some(Ok(())),
    }
}

/// What came of the next item of the stream.
pub enum StreamStep<O> {
    /// The item was taken in. If it reported a row change for which there is a handler, the
    /// outcome of handing it over is here; the stream goes on whatever it is.
    Continue(Option<O>),
    /// The stream is over, with this result.
    Finished(WalResult<()>),
}

/// Follows the row changes in a replication stream and hands each to the handler of its table.
#[verifier::reject_recursive_types(H)]
pub struct WalSubscriber<H: WalEventHandler> {
    config: WalSubscriberConfig,
    handlers: StringHashMap<Arc<H>>,
    relations: HashMap<u32, Relation>,
}

impl<H: WalEventHandler> WalSubscriber<H> {
    /// What the subscriber was told to subscribe to.
    pub closed spec fn config(&self) -> WalSubscriberConfig {
        self.config
    }

    /// The handlers, by the names of their tables.
    pub closed spec fn handlers(&self) -> Map<Seq<char>, Arc<H>> {
        self.handlers@
    }

    /// The tables that are known.
    pub closed spec fn relations(&self) -> Relations {
        self.relations@.map_values(|r: Relation| r@)
    }

    /// A subscriber that has no handlers and knows no tables.
    pub fn new(config: WalSubscriberConfig) -> (subscriber: Self)
        ensures
            subscriber.config() == config,
            subscriber.handlers() == Map::<Seq<char>, Arc<H>>::empty(),
            subscriber.relations() == Relations::empty(),
    {
        broadcast use vstd::std_specs::hash::group_hash_axioms;

        let subscriber = Self { config, handlers: StringHashMap::new(), relations: HashMap::new() };
        assert(subscriber.relations() =~= Relations::empty());
        subscriber
    }

    /// Hands the row changes of the handler's table to `handler` from now on, and no longer to
    /// the handler that had them before.
    pub fn register_handler(&mut self, handler: Arc<H>)
        ensures
            exists|name: &str| #[trigger]
                call_ensures(H::table_name, (&*handler,), name) && final(self).handlers() == old(
                    self,
                ).handlers().insert(name@, handler),
            final(self).config() == old(self).config(),
            final(self).relations() == old(self).relations(),
    {
        let name = handler.table_name();
        let table_name = name.to_owned();
        assert(call_ensures(H::table_name, (&*handler,), name));
        self.register_handler_for(table_name, handler.clone());
    }

    /// Hands the row changes of a table to `handler` from now on, and no longer to the handler
    /// that had them before.
    pub fn register_handler_for(&mut self, table_name: String, handler: Arc<H>)
        ensures
            final(self).handlers() == old(self).handlers().insert(table_name@, handler),
            final(self).config() == old(self).config(),
            final(self).relations() == old(self).relations(),
    {
        self.handlers.insert(table_name, handler);
    }

    /// The connection parameters that the configured connection string gives.
    pub fn connection_config(&self) -> (result: WalResult<Config>)
        ensures
            match read_connection_string(self.config().connection_target()) {
                Ok(config) => result == Ok::<Config, WalError>(config),
                Err(reason) => result matches Err(error) && error.is_config(
                    "Invalid connection string: "@ + reason,
                ),
            },
    {
        let connection_string = self.config.to_connection_string();
        connection_outcome(parse_connection_string(connection_string.as_str()))
    }

    /// The first step of the setup: a publication is created where that is asked for and there
    /// are tables to publish.
    pub fn setup_replication(&self) -> (step: SetupStep)
        ensures
            step == first_step(self.config()),
    {
        if self.config.create_publication && self.config.publication_tables.len() > 0 {
            SetupStep::CreatePublication
        } else {
            SetupStep::CreateReplicationSlot
        }
    }

    /// The query that creates the publication.
    pub fn create_publication_query(&self) -> (query: String)
        ensures
            query@ == "CREATE PUBLICATION "@ + self.config().publication_name@ + " FOR TABLE "@
                + text::joined(text::texts(self.config().publication_tables@), ", "@),
    {
        let tables = join(&self.config.publication_tables, ", ");
        let mut query = "CREATE PUBLICATION ".to_owned();
        query.append(self.config.publication_name.as_str());
        query.append(" FOR TABLE ");
        query.append(tables.as_str());
        query
    }

    /// The query that creates the replication slot.
    pub fn create_replication_slot_query(&self) -> (query: String)
        ensures
            query@ == "CREATE_REPLICATION_SLOT "@ + self.config().slot_name@
                + " LOGICAL pgoutput NOEXPORT_SNAPSHOT"@,
    {
        let mut query = "CREATE_REPLICATION_SLOT ".to_owned();
        query.append(self.config.slot_name.as_str());
        query.append(" LOGICAL pgoutput NOEXPORT_SNAPSHOT");
        query
    }

    /// The query that starts the stream.
    pub fn start_replication_query(&self) -> (query: String)
        ensures
            query@ == "START_REPLICATION SLOT "@ + self.config().slot_name@
                + " LOGICAL 0/0 (proto_version '"@ + self.config().protocol_version@
                + "', publication_names '"@ + self.config().publication_name@ + "')"@,
    {
        let mut query = "START_REPLICATION SLOT ".to_owned();
        query.append(self.config.slot_name.as_str());
        query.append(" LOGICAL 0/0 (proto_version '");
        query.append(self.config.protocol_version.as_str());
        query.append("', publication_names '");
        query.append(self.config.publication_name.as_str());
        query.append("')");
        query
    }

    /// Takes in the next item of the stream. A frame is taken in and the stream goes on; an error
    /// of the connection and the end are passed on as the result of the stream.
    pub fn process_stream_item(&mut self, item: StreamItem) -> (step: StreamStep<H::Outcome>)
        ensures
            final(self).config() == old(self).config(),
            final(self).handlers() == old(self).handlers(),
            final(self).relations() == relations_after(old(self).relations(), item_message(item)),
            match item_result(item) {
                Some(result) => step == StreamStep::<H::Outcome>::Finished(result),
                None => step matches StreamStep::Continue(outcome) && is_outcome(
                    old(self).handlers(),
                    event_of(old(self).relations(), item_message(item)),
                    outcome,
                ),
            },
    {
        match item {
            Some(Ok(data)) => StreamStep::Continue(self.process_replication_message(&data)),
            Some(Err(error)) => StreamStep::Finished(Err(WalError::ConnectionError(error))),
            None => StreamStep::Finished(Ok(())),
        }
    }

    /// Takes in a frame of the stream. A frame that carries no part of the log, or is too short
    /// for one, changes nothing.
    pub fn process_replication_message(&mut self, data: &Bytes) -> (outcome: Option<H::Outcome>)
        ensures
            final(self).config() == old(self).config(),
            final(self).handlers() == old(self).handlers(),
            final(self).relations() == relations_after(
                old(self).relations(),
                frame_message(frame::content(*data)),
            ),
            is_outcome(
                old(self).handlers(),
                event_of(old(self).relations(), frame_message(frame::content(*data))),
                outcome,
            ),
    {
        match take_log_bytes(data) {
            Some(log) => self.process_wal_data(as_slice(&log)),
            None => None,
        }
    }

    /// Takes in a message of the log. A relation message describes its table anew. A row message
    /// for a known table becomes an event, which is handed to the handler of the table, if there
    /// is one. Any other bytes change nothing.
    pub fn process_wal_data(&mut self, data: &[u8]) -> (outcome: Option<H::Outcome>)
        ensures
            final(self).config() == old(self).config(),
            final(self).handlers() == old(self).handlers(),
            final(self).relations() == relations_after(
                old(self).relations(),
                pgoutput::message(data@),
            ),
            is_outcome(
                old(self).handlers(),
                event_of(old(self).relations(), pgoutput::message(data@)),
                outcome,
            ),
    {
        match parse_message(data) {
            Some(Message::Relation { id, relation }) => {
                self.learn_relation(id, relation);
                None
            },
            Some(message) => match self.event_from(message) {
                Some(event) => self.dispatch_event(event),
                None => None,
            },
            None => None,
        }
    }

    /// Knows a table under an id from now on.
    fn learn_relation(&mut self, id: u32, relation: Relation)
        ensures
            final(self).config() == old(self).config(),
            final(self).handlers() == old(self).handlers(),
            final(self).relations() == old(self).relations().insert(id, relation@),
    {
        broadcast use vstd::std_specs::hash::group_hash_axioms;

        self.relations.insert(id, relation);
        assert(self.relations() =~= old(self).relations().insert(id, relation@));
    }

    /// The event that a message reports.
    fn event_from(&self, message: Message) -> (event: Option<RawWalEvent>)
        ensures
            match event {
                Some(e) => event_of(self.relations(), Some(message@)) == Some(e@),
                None => event_of(self.relations(), Some(message@)) is None,
            },
    {
        match message {
            Message::Insert { id, new } => self.row_event(
                id,
                WalOperation::Insert,
                None,
                Some(write_tuple(&new)),
            ),
            Message::Update { id, old, new } => {
                let old_tuple = match old {
                    Some(fields) => Some(write_tuple(&fields)),
                    None => None,
                };
                self.row_event(id, WalOperation::Update, old_tuple, Some(write_tuple(&new)))
            },
            Message::Delete { id, old } => self.row_event(
                id,
                WalOperation::Delete,
                Some(write_tuple(&old)),
                None,
            ),
            _ => None,
        }
    }

    /// A row change in the table that is known under an id.
    fn row_event(
        &self,
        id: u32,
        operation: WalOperation,
        old_tuple: Option<Vec<u8>>,
        new_tuple: Option<Vec<u8>>,
    ) -> (event: Option<RawWalEvent>)
        ensures
            match event {
                Some(e) => self.relations().contains_key(id) && e@ == row_change(
                    self.relations()[id],
                    operation,
                    wal_event::tuple_bytes(old_tuple),
                    wal_event::tuple_bytes(new_tuple),
                ),
                None => !self.relations().contains_key(id),
            },
    {
        broadcast use vstd::std_specs::hash::group_hash_axioms;

        match self.relations.get(&id) {
            Some(relation) => Some(
                RawWalEvent {
                    table_name: relation.table_name.clone(),
                    schema_name: relation.schema_name.clone(),
                    operation,
                    old_tuple,
                    new_tuple,
                    columns: copy_columns(&relation.columns),
                },
            ),
            None => None,
        }
    }

    /// Hands an event to the handler of its table, if there is one, and gives the outcome.
    ///
    /// The contract says which handler gets which event and whose outcome comes back. That the
    /// handler is called no more than once is not part of it: a call leaves no trace in a value
    /// that a contract could speak of.
    pub fn dispatch_event(&self, event: RawWalEvent) -> (outcome: Option<H::Outcome>)
        ensures
            match outcome {
                Some(o) => self.handlers().contains_key(event@.table_name) && call_ensures(
                    H::handle,
                    (&*self.handlers()[event@.table_name], event),
                    o,
                ),
                None => !self.handlers().contains_key(event@.table_name),
            },
    {
        match self.handlers.get(event.table_name.as_str()) {
            Some(handler) => Some(handler.handle(event)),
            None => None,
        }
    }
}

} // verus!
