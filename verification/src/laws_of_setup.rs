//! What is asked of the database before the stream starts, and what follows from the replies.
//!
//! The laws speak of calls: `call_ensures(f, arguments, result)` holds of every call of `f` with
//! these arguments that gives this result.
use crate::error::{WalError, WalResult};
use crate::laws_of_text;
use crate::text;
use crate::wal_event::WalEventHandler;
use crate::wal_subscriber;
use crate::wal_subscriber::{
    connection_outcome, continue_setup, dispatch_outcome, processing_outcome, publication_outcome,
    replication_slot_outcome, DatabaseCredentials, SetupStep, WalSubscriber, WalSubscriberConfig,
};
use tokio_postgres::Config;
use vstd::prelude::*;

verus! {

/// Without other words, the user `postgres` connects to this machine.
pub proof fn law_default_credentials(credentials: DatabaseCredentials)
    requires
        call_ensures(DatabaseCredentials::new, (), credentials),
    ensures
        credentials.host@ == "localhost"@,
        credentials.user@ == "postgres"@,
        credentials.password@.len() == 0,
        credentials.db_name@.len() == 0,
{
    reveal_strlit("");
}

/// Without other words, a publication is wanted, but no table is named for it.
pub proof fn law_default_config(config: WalSubscriberConfig)
    requires
        call_ensures(<WalSubscriberConfig as Default>::default, (), config),
    ensures
        config.connection_string@.len() == 0,
        config.database_creds.host@ == "localhost"@,
        config.database_creds.user@ == "postgres"@,
        config.database_creds.password@.len() == 0,
        config.database_creds.db_name@.len() == 0,
        config.slot_name@ == "cruding_wal_slot"@,
        config.publication_name@ == "cruding_publication"@,
        config.protocol_version@ == "1"@,
        config.create_publication,
        config.publication_tables@.len() == 0,
{
    reveal_strlit("");
}

/// The connection string of credentials names each of them, and replication mode behind them.
pub proof fn law_string_of_credentials(credentials: &DatabaseCredentials, written: String)
    requires
        call_ensures(DatabaseCredentials::to_connection_string, (credentials,), written),
    ensures
        written@ == "host="@ + credentials.host@ + " user="@ + credentials.user@ + " password="@
            + credentials.password@ + " dbname="@ + credentials.db_name@
            + " replication=database"@,
{
}

/// A connection string that is given is used as it stands, and without one that of the
/// credentials is used.
pub proof fn law_string_of_config(
    config: &WalSubscriberConfig,
    written: String,
    of_credentials: String,
)
    requires
        call_ensures(WalSubscriberConfig::to_connection_string, (config,), written),
        call_ensures(
            DatabaseCredentials::to_connection_string,
            (&config.database_creds,),
            of_credentials,
        ),
    ensures
        config.connection_string@.len() > 0 ==> written@ == config.connection_string@,
        config.connection_string@.len() == 0 ==> written@ == of_credentials@,
{
}

/// Whether a result is the configuration error for a connection string that was refused.
pub open spec fn is_refused<T>(result: WalResult<T>, reason: Seq<char>) -> bool {
    result matches Err(WalError::ConfigError(message)) && message@
        == "Invalid connection string: "@ + reason
}

/// Connection parameters are passed on as they are, and a refusal with its reason.
pub proof fn law_connection_outcome(parsed: Result<Config, String>, result: WalResult<Config>)
    requires
        call_ensures(connection_outcome, (parsed,), result),
    ensures
        parsed matches Ok(config) ==> result == Ok::<Config, WalError>(config),
        parsed matches Err(reason) ==> is_refused(result, reason@),
{
}

/// A subscriber connects with what the client reads from the connection string of its
/// configuration, whatever handlers it has and whatever tables it knows.
pub proof fn law_connection_parameters<H: WalEventHandler>(
    subscriber: &WalSubscriber<H>,
    written: String,
    result: WalResult<Config>,
)
    requires
        call_ensures(
            WalSubscriberConfig::to_connection_string,
            (&subscriber.config(),),
            written,
        ),
        call_ensures(WalSubscriber::<H>::connection_config, (subscriber,), result),
    ensures
        match wal_subscriber::read_connection_string(written@) {
            Ok(parameters) => result == Ok::<Config, WalError>(parameters),
            Err(reason) => is_refused(result, reason),
        },
{
}

/// A new subscriber has the configuration that it was given, no handlers, and no tables.
pub proof fn law_new_subscriber<H: WalEventHandler>(
    config: WalSubscriberConfig,
    subscriber: WalSubscriber<H>,
)
    requires
        call_ensures(WalSubscriber::<H>::new, (config,), subscriber),
    ensures
        subscriber.config() == config,
        forall|table: Seq<char>| !#[trigger] subscriber.handlers().contains_key(table),
        forall|id: u32| !#[trigger] subscriber.relations().contains_key(id),
{
}

/// A publication is asked for first exactly where one is wanted and a table is named for it;
/// otherwise the replication slot is.
pub proof fn law_first_request<H: WalEventHandler>(
    subscriber: &WalSubscriber<H>,
    step: SetupStep,
)
    requires
        call_ensures(WalSubscriber::<H>::setup_replication, (subscriber,), step),
    ensures
        ({
            let config = subscriber.config();
            &&& config.create_publication && config.publication_tables@.len() > 0
                ==> step is CreatePublication
            &&& !config.create_publication ==> step is CreateReplicationSlot
            &&& config.publication_tables@.len() == 0 ==> step is CreateReplicationSlot
        }),
{
}

/// Whether the words of a refusal hold the words `already exists`.
pub open spec fn says_it_exists(reason: Seq<char>) -> bool {
    exists|before: Seq<char>, after: Seq<char>|
        reason == #[trigger] (before + "already exists"@ + after)
}

/// Of the refusals, exactly those that say that the thing already exists leave it in place; so
/// one that says that something does not exist, and no more, does not.
pub proof fn law_refusals(reason: String)
    ensures
        wal_subscriber::is_in_place(Err(reason)) <==> says_it_exists(reason@),
        wal_subscriber::is_in_place(Err(reason)) ==> exists|i: int|
            0 <= i && i + 14 <= reason@.len() && #[trigger] reason@.subrange(i, i + 14)
                == "already exists"@,
        wal_subscriber::is_in_place(Ok(())),
{
    let words = "already exists"@;
    reveal_strlit("already exists");
    laws_of_text::law_occurrence(words, reason@);
    if text::occurs_in(words, reason@) {
        let i = choose|i: int|
            0 <= i <= reason@.len() - words.len() && #[trigger] reason@.subrange(
                i,
                i + words.len(),
            ) == words;
        assert(reason@.subrange(i, i + 14) == words);
    }
}

/// Whether a result is the error for a publication that could not be created.
pub open spec fn is_unpublished<T>(result: WalResult<T>, reason: Seq<char>) -> bool {
    result matches Err(WalError::PublicationError(message)) && message@
        == "Failed to create publication: "@ + reason
}

/// Whether a result is the error for a replication slot that could not be created.
pub open spec fn is_slotless<T>(result: WalResult<T>, reason: Seq<char>) -> bool {
    result matches Err(WalError::ReplicationSlotError(message)) && message@
        == "Failed to create replication slot: "@ + reason
}

/// A publication is there if it was created or the refusal says that it already exists; any
/// other refusal is passed on.
pub proof fn law_publication_outcome(reply: Result<(), String>, result: WalResult<()>)
    requires
        call_ensures(publication_outcome, (reply,), result),
    ensures
        match reply {
            Ok(_) => result is Ok,
            Err(reason) => if says_it_exists(reason@) {
                result is Ok
            } else {
                is_unpublished(result, reason@)
            },
        },
{
    if let Err(reason) = reply {
        law_refusals(reason);
    }
}

/// A replication slot is there if it was created or the refusal says that it already exists; any
/// other refusal is passed on.
pub proof fn law_replication_slot_outcome(reply: Result<(), String>, result: WalResult<()>)
    requires
        call_ensures(replication_slot_outcome, (reply,), result),
    ensures
        match reply {
            Ok(_) => result is Ok,
            Err(reason) => if says_it_exists(reason@) {
                result is Ok
            } else {
                is_slotless(result, reason@)
            },
        },
{
    if let Err(reason) = reply {
        law_refusals(reason);
    }
}

/// The slot is asked for once the publication is there, the stream can start once the slot is
/// there, and it still can after that. A refusal ends the setup.
pub proof fn law_setup_continues(
    step: SetupStep,
    reply: Result<(), String>,
    result: WalResult<SetupStep>,
)
    requires
        call_ensures(continue_setup, (step, reply), result),
    ensures
        ({
            let refused = reply is Err && !says_it_exists(reply->Err_0@);
            match step {
                SetupStep::CreatePublication => if refused {
                    is_unpublished(result, reply->Err_0@)
                } else {
                    result == Ok::<SetupStep, WalError>(SetupStep::CreateReplicationSlot)
                },
                SetupStep::CreateReplicationSlot => if refused {
                    is_slotless(result, reply->Err_0@)
                } else {
                    result == Ok::<SetupStep, WalError>(SetupStep::Ready)
                },
                SetupStep::Ready => result == Ok::<SetupStep, WalError>(SetupStep::Ready),
            }
        }),
{
    if let Err(reason) = reply {
        law_refusals(reason);
    }
}

/// Whether a result is the error for a handler that failed.
pub open spec fn is_failed_handler<T>(result: WalResult<T>, reason: Seq<char>) -> bool {
    result matches Err(WalError::HandlerError(message)) && message@ == "Handler failed: "@ + reason
}

/// A handler that succeeds is a success, and the reason of one that fails is passed on; where no
/// handler was called, nothing went wrong.
pub proof fn law_reports_of_handlers(
    reported: Result<(), String>,
    dispatched: WalResult<()>,
    processed: WalResult<()>,
    unhandled: WalResult<()>,
)
    requires
        call_ensures(dispatch_outcome, (reported,), dispatched),
        call_ensures(processing_outcome, (Some(reported),), processed),
        call_ensures(processing_outcome, (None,), unhandled),
    ensures
        reported is Ok ==> dispatched is Ok && processed is Ok,
        reported matches Err(reason) ==> {
            &&& is_failed_handler(dispatched, reason@)
            &&& is_failed_handler(processed, reason@)
        },
        unhandled is Ok,
{
}

/// Errors of the database client and of the operating system's I/O are carried as they are.
pub proof fn law_outside_errors(
    of_client: tokio_postgres::Error,
    client: WalError,
    of_system: std::io::Error,
    system: WalError,
)
    requires
        call_ensures(<WalError as From<tokio_postgres::Error>>::from, (of_client,), client),
        call_ensures(<WalError as From<std::io::Error>>::from, (of_system,), system),
    ensures
        client == WalError::ConnectionError(of_client),
        system == WalError::IoError(of_system),
{
}

/// The publication is asked for under its name, with the tables that are named for it: none, one,
/// or one more behind the others and a comma, however many there are.
pub proof fn law_publication_query<H: WalEventHandler>(
    subscriber: &WalSubscriber<H>,
    query: String,
    with_more: &WalSubscriber<H>,
    longer: String,
)
    requires
        call_ensures(WalSubscriber::<H>::create_publication_query, (subscriber,), query),
        call_ensures(WalSubscriber::<H>::create_publication_query, (with_more,), longer),
    ensures
        ({
            let config = subscriber.config();
            let tables = config.publication_tables@;
            let front = "CREATE PUBLICATION "@ + config.publication_name@ + " FOR TABLE "@;
            let more = with_more.config().publication_tables@;
            &&& tables.len() == 0 ==> query@ == front
            &&& tables.len() == 1 ==> query@ == front + tables[0]@
            &&& {
                &&& with_more.config().publication_name@ == config.publication_name@
                &&& tables.len() > 0
                &&& more.len() == tables.len() + 1
                &&& forall|i: int| 0 <= i < tables.len() ==> #[trigger] more[i]@ == tables[i]@
            } ==> longer@ == query@ + ", "@ + more[tables.len() as int]@
        }),
{
    let config = subscriber.config();
    let tables = config.publication_tables@;
    let more = with_more.config().publication_tables@;
    let separator = ", "@;
    let front = "CREATE PUBLICATION "@ + config.publication_name@ + " FOR TABLE "@;
    if tables.len() == 0 {
        assert(text::texts(tables) =~= Seq::empty());
        laws_of_text::law_joining_one_more(Seq::empty(), Seq::empty(), separator);
        assert(query@ =~= front);
    }
    if tables.len() == 1 {
        assert(text::texts(tables) =~= seq![tables[0]@]);
        laws_of_text::law_joining_one_more(Seq::empty(), tables[0]@, separator);
    }
    if {
        &&& with_more.config().publication_name@ == config.publication_name@
        &&& tables.len() > 0
        &&& more.len() == tables.len() + 1
        &&& forall|i: int| 0 <= i < tables.len() ==> #[trigger] more[i]@ == tables[i]@
    } {
        let last = more[tables.len() as int]@;
        assert(text::texts(more) =~= text::texts(tables).push(last));
        laws_of_text::law_joining_one_more(text::texts(tables), last, separator);
        let list = text::joined(text::texts(tables), separator);
        assert(front + (list + separator + last) =~= front + list + separator + last);
    }
}

/// The replication slot is asked for under its name, and so is the stream, with the version of
/// the protocol and the name of the publication.
pub proof fn law_slot_queries<H: WalEventHandler>(
    subscriber: &WalSubscriber<H>,
    create: String,
    start: String,
)
    requires
        call_ensures(WalSubscriber::<H>::create_replication_slot_query, (subscriber,), create),
        call_ensures(WalSubscriber::<H>::start_replication_query, (subscriber,), start),
    ensures
        ({
            let config = subscriber.config();
            &&& create@ == "CREATE_REPLICATION_SLOT "@ + config.slot_name@
                + " LOGICAL pgoutput NOEXPORT_SNAPSHOT"@
            &&& start@ == "START_REPLICATION SLOT "@ + config.slot_name@
                + " LOGICAL 0/0 (proto_version '"@ + config.protocol_version@
                + "', publication_names '"@ + config.publication_name@ + "')"@
        }),
{
}

} // verus!
