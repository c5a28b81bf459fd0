// Connecting and setting up replication
use wal_sync::wal_subscriber::{
    connection_outcome, continue_setup, dispatch_outcome, processing_outcome,
    publication_outcome, replication_slot_outcome, DatabaseCredentials, SetupStep,
};
use wal_sync::{RawWalEvent, WalError, WalEventHandler, WalSubscriber, WalSubscriberConfig};

struct Nobody;

impl WalEventHandler for Nobody {
    type Outcome = ();

    fn handle(&self, _event: RawWalEvent) {}

    fn table_name(&self) -> &str {
        "nothing"
    }
}

fn subscriber(config: WalSubscriberConfig) -> WalSubscriber<Nobody> {
    WalSubscriber::new(config)
}

fn config(tables: &[&str], create_publication: bool) -> WalSubscriberConfig {
    WalSubscriberConfig {
        slot_name: "my_slot".to_string(),
        publication_name: "my_publication".to_string(),
        publication_tables: tables.iter().map(|t| t.to_string()).collect(),
        create_publication,
        ..Default::default()
    }
}

#[test]
fn default_credentials() {
    let credentials = DatabaseCredentials::new();
    assert_eq!(credentials.host, "localhost");
    assert_eq!(credentials.user, "postgres");
    assert_eq!(credentials.password, "");
    assert_eq!(credentials.db_name, "");
    assert_eq!(
        credentials.to_connection_string(),
        "host=localhost user=postgres password= dbname= replication=database"
    );
}

#[test]
fn connection_string_holds_the_credentials() {
    let credentials = DatabaseCredentials {
        host: "db.example.com".to_string(),
        user: "alice".to_string(),
        password: "secret".to_string(),
        db_name: "shop".to_string(),
    };
    assert_eq!(
        credentials.to_connection_string(),
        "host=db.example.com user=alice password=secret dbname=shop replication=database"
    );
}

#[test]
fn default_config() {
    let config = WalSubscriberConfig::default();
    assert_eq!(config.connection_string, "");
    assert_eq!(config.database_creds.user, "postgres");
    assert_eq!(config.slot_name, "cruding_wal_slot");
    assert_eq!(config.publication_name, "cruding_publication");
    assert_eq!(config.protocol_version, "1");
    assert!(config.create_publication);
    assert!(config.publication_tables.is_empty());
}

#[test]
fn queries() {
    let subscriber = subscriber(config(&["users", "posts", "comments"], true));
    assert_eq!(
        subscriber.create_publication_query(),
        "CREATE PUBLICATION my_publication FOR TABLE users, posts, comments"
    );
    assert_eq!(
        subscriber.create_replication_slot_query(),
        "CREATE_REPLICATION_SLOT my_slot LOGICAL pgoutput NOEXPORT_SNAPSHOT"
    );
    assert_eq!(
        subscriber.start_replication_query(),
        "START_REPLICATION SLOT my_slot LOGICAL 0/0 (proto_version '1', publication_names 'my_publication')"
    );
}

#[test]
fn single_table_and_no_table() {
    assert_eq!(
        subscriber(config(&["users"], true)).create_publication_query(),
        "CREATE PUBLICATION my_publication FOR TABLE users"
    );
    assert_eq!(
        subscriber(config(&[], true)).create_publication_query(),
        "CREATE PUBLICATION my_publication FOR TABLE "
    );
}

#[test]
fn publication_comes_first_where_it_is_wanted() {
    let wanted = subscriber(config(&["users"], true));
    let step = wanted.setup_replication();
    assert_eq!(step, SetupStep::CreatePublication);
    let step = continue_setup(step, Ok(())).unwrap();
    assert_eq!(step, SetupStep::CreateReplicationSlot);
    let step = continue_setup(step, Ok(())).unwrap();
    assert_eq!(step, SetupStep::Ready);
    assert_eq!(continue_setup(step, Err("late".to_string())).unwrap(), SetupStep::Ready);
    let slot = SetupStep::CreateReplicationSlot;
    assert_eq!(subscriber(config(&["users"], false)).setup_replication(), slot);
    assert_eq!(subscriber(config(&[], true)).setup_replication(), slot);
}

#[test]
fn what_exists_is_in_place() {
    let reply = || Err("db error: ERROR: \"x\" already exists".to_string());
    assert!(publication_outcome(reply()).is_ok());
    assert!(replication_slot_outcome(reply()).is_ok());
    assert_eq!(
        continue_setup(SetupStep::CreatePublication, reply()).unwrap(),
        SetupStep::CreateReplicationSlot
    );
    assert_eq!(
        continue_setup(SetupStep::CreateReplicationSlot, reply()).unwrap(),
        SetupStep::Ready
    );
    assert!(publication_outcome(Err("already exist".to_string())).is_err());
    assert!(publication_outcome(Err("".to_string())).is_err());
}

#[test]
fn refusals_end_the_setup() {
    let reply = || Err("permission denied".to_string());
    match continue_setup(SetupStep::CreatePublication, reply()) {
        Err(WalError::PublicationError(message)) => {
            assert_eq!(message, "Failed to create publication: permission denied")
        }
        _ => panic!("a publication error was expected"),
    }
    match continue_setup(SetupStep::CreateReplicationSlot, reply()) {
        Err(WalError::ReplicationSlotError(message)) => {
            assert_eq!(message, "Failed to create replication slot: permission denied")
        }
        _ => panic!("a replication slot error was expected"),
    }
}

#[test]
fn handler_failures_are_reported() {
    assert!(dispatch_outcome(Ok(())).is_ok());
    match dispatch_outcome(Err("out of space".to_string())) {
        Err(WalError::HandlerError(message)) => {
            assert_eq!(message, "Handler failed: out of space")
        }
        _ => panic!("a handler error was expected"),
    }
}

#[test]
fn connection_string_is_read_by_the_client() {
    let mut config = config(&[], true);
    config.database_creds.user = "alice".to_string();
    config.database_creds.password = "secret".to_string();
    let parsed = subscriber(config.clone()).connection_config().unwrap();
    assert_eq!(parsed.get_user(), Some("alice"));
    assert_eq!(parsed.get_password(), Some(&b"secret"[..]));

    // the client knows no option of this name
    config.database_creds.db_name = "shop".to_string();
    match subscriber(config).connection_config() {
        Err(WalError::ConfigError(message)) => assert_eq!(
            message,
            "Invalid connection string: invalid connection string: unknown option `replication`"
        ),
        _ => panic!("a configuration error was expected"),
    }
}

#[test]
fn refused_connection_string_is_a_config_error() {
    match connection_outcome(Err("no such host".to_string())) {
        Err(WalError::ConfigError(message)) => {
            assert_eq!(message, "Invalid connection string: no such host")
        }
        _ => panic!("a configuration error was expected"),
    }
}

#[test]
fn errors_of_the_client_and_the_system_are_carried() {
    let client = "nonsense".parse::<tokio_postgres::Config>().unwrap_err();
    let text = client.to_string();
    match WalError::from(client) {
        WalError::ConnectionError(error) => assert_eq!(error.to_string(), text),
        _ => panic!("a connection error was expected"),
    }
    let system = std::io::Error::new(std::io::ErrorKind::Other, "pipe is gone");
    match WalError::from(system) {
        WalError::IoError(error) => assert_eq!(error.to_string(), "pipe is gone"),
        _ => panic!("an I/O error was expected"),
    }
}

#[test]
fn given_connection_string_is_used_as_it_stands() {
    let given = "host=localhost user=postgres dbname=mydb replication=database";
    let config = WalSubscriberConfig {
        connection_string: given.to_string(),
        slot_name: "my_slot".to_string(),
        publication_name: "my_publication".to_string(),
        publication_tables: vec!["my_table".to_string()],
        ..Default::default()
    };
    assert_eq!(config.to_connection_string(), given);
    assert!(subscriber(config.clone()).connection_config().is_err());

    let mut plain = config;
    plain.connection_string = "host=db user=bob dbname=mydb".to_string();
    let parsed = subscriber(plain).connection_config().unwrap();
    assert_eq!(parsed.get_user(), Some("bob"));
    assert_eq!(parsed.get_dbname(), Some("mydb"));
    assert_eq!(parsed.get_password(), None);
}

#[test]
fn connection_string_is_made_from_the_credentials_where_none_is_given() {
    let mut config = WalSubscriberConfig::default();
    config.database_creds.db_name = "shop".to_string();
    assert_eq!(
        config.to_connection_string(),
        "host=localhost user=postgres password= dbname=shop replication=database"
    );
    assert_eq!(config.to_connection_string(), config.database_creds.to_connection_string());
}

#[test]
fn processing_succeeds_unless_a_handler_fails() {
    assert!(processing_outcome(None).is_ok());
    assert!(processing_outcome(Some(Ok(()))).is_ok());
    match processing_outcome(Some(Err("out of space".to_string()))) {
        Err(WalError::HandlerError(message)) => {
            assert_eq!(message, "Handler failed: out of space")
        }
        _ => panic!("a handler error was expected"),
    }
}
