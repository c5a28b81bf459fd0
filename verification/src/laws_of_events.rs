//! Which row changes reach which handlers.
//!
//! The laws speak of calls: `call_ensures(f, arguments, result)` holds of every call of `f` with
//! these arguments that gives this result.
use crate::error::WalError;
use crate::frame;
use crate::frame::take_log_bytes;
use crate::laws_of_messages;
use crate::laws_of_rows;
use crate::pgoutput;
use crate::pgoutput::{FieldModel, MessageModel, RelationModel};
use crate::tuple_writer;
use crate::wal_event;
use crate::wal_event::{EventModel, RawWalEvent, WalEventHandler, WalOperation};
use crate::wal_subscriber;
use crate::wal_subscriber::{Relations, StreamItem, StreamStep, WalSubscriber};
use bytes::Bytes;
use std::sync::Arc;
use vstd::prelude::*;

verus! {

/// A row change in a table with a handler is handed to that handler and its outcome comes back,
/// whatever the schema, the operation, the rows and the columns are.
pub proof fn law_every_event_is_handed_over<H: WalEventHandler>(
    handlers: Map<Seq<char>, Arc<H>>,
    event: EventModel,
    outcome: Option<H::Outcome>,
)
    requires
        handlers.contains_key(event.table_name),
        wal_subscriber::is_outcome(handlers, Some(event), outcome),
    ensures
        outcome is Some,
        exists|raw: RawWalEvent|
            raw@ == event && #[trigger] call_ensures(
                H::handle,
                (&*handlers[event.table_name], raw),
                outcome->0,
            ),
{
}

/// Without a row change, and without a handler for its table, no outcome comes back.
pub proof fn law_nothing_else_is_handed_over<H: WalEventHandler>(
    handlers: Map<Seq<char>, Arc<H>>,
    event: Option<EventModel>,
    outcome: Option<H::Outcome>,
)
    requires
        event matches Some(e) ==> !handlers.contains_key(e.table_name),
        wal_subscriber::is_outcome(handlers, event, outcome),
    ensures
        outcome is None,
{
}

/// Whether a tuple of an event is what is stored for a row, or is missing as the row is.
pub open spec fn is_stored(tuple: Option<Vec<u8>>, row: Option<Seq<FieldModel>>) -> bool {
    match row {
        Some(fields) => tuple matches Some(bytes) && bytes@ == laws_of_rows::stored(fields),
        None => tuple is None,
    }
}

/// Whether an event reports an operation on a row of a table, with the row before and after it.
pub open spec fn carries(
    raw: RawWalEvent,
    relation: RelationModel,
    operation: WalOperation,
    before: Option<Seq<FieldModel>>,
    after: Option<Seq<FieldModel>>,
) -> bool {
    &&& raw.table_name@ == relation.table_name
    &&& raw.schema_name@ == relation.schema_name
    &&& raw.operation == operation
    &&& is_stored(raw.old_tuple, before)
    &&& is_stored(raw.new_tuple, after)
    &&& laws_of_messages::same_columns(raw.columns@, relation.columns)
}

/// Whether `outcome` is that of a handler for an operation on a row of a table.
pub open spec fn is_handled<H: WalEventHandler>(
    handler: Arc<H>,
    relation: RelationModel,
    operation: WalOperation,
    before: Option<Seq<FieldModel>>,
    after: Option<Seq<FieldModel>>,
    outcome: Option<H::Outcome>,
) -> bool {
    &&& outcome is Some
    &&& exists|raw: RawWalEvent|
        carries(raw, relation, operation, before, after) && #[trigger] call_ensures(
            H::handle,
            (&*handler, raw),
            outcome->0,
        )
}

/// Whether `outcome` is that of the handler of a table for an operation on one of its rows; where
/// the table has no handler, there is none.
pub open spec fn hands_over<H: WalEventHandler>(
    handlers: Map<Seq<char>, Arc<H>>,
    relation: RelationModel,
    operation: WalOperation,
    before: Option<Seq<FieldModel>>,
    after: Option<Seq<FieldModel>>,
    outcome: Option<H::Outcome>,
) -> bool {
    if handlers.contains_key(relation.table_name) {
        is_handled(
            handlers[relation.table_name],
            relation,
            operation,
            before,
            after,
            outcome,
        )
    } else {
        outcome is None
    }
}

/// Whether `sent` is the message that bytes start with, or none where they start with none.
pub open spec fn holds(bytes: Seq<u8>, sent: Option<MessageModel>) -> bool {
    match sent {
        Some(message) => {
            &&& laws_of_messages::was_written(bytes, message)
            &&& laws_of_messages::can_be_written(message)
        },
        None => forall|message: MessageModel|
            !#[trigger] laws_of_messages::was_written(bytes, message),
    }
}

/// Whether `outcome` is what comes of a message: that of the handler of the table whose row
/// changed, where the table is known, and otherwise none.
pub open spec fn answers<H: WalEventHandler>(
    handlers: Map<Seq<char>, Arc<H>>,
    relations: Relations,
    sent: Option<MessageModel>,
    outcome: Option<H::Outcome>,
) -> bool {
    match sent {
        Some(MessageModel::Insert { id, new }) => if relations.contains_key(id) {
            hands_over(handlers, relations[id], WalOperation::Insert, None, Some(new), outcome)
        } else {
            outcome is None
        },
        Some(MessageModel::Update { id, old, new }) => if relations.contains_key(id) {
            hands_over(handlers, relations[id], WalOperation::Update, old, Some(new), outcome)
        } else {
            outcome is None
        },
        Some(MessageModel::Delete { id, old }) => if relations.contains_key(id) {
            hands_over(handlers, relations[id], WalOperation::Delete, Some(old), None, outcome)
        } else {
            outcome is None
        },
        _ => outcome is None,
    }
}

/// Whether the known tables are those of before, but for the one that a message describes, which
/// is known as the message describes it.
pub open spec fn learns(before: Relations, sent: Option<MessageModel>, after: Relations) -> bool {
    match sent {
        Some(MessageModel::Relation { id, relation }) => {
            &&& after.contains_key(id)
            &&& after[id] == relation
            &&& forall|other: u32|
                other != id ==> #[trigger] after.contains_key(other) == before.contains_key(other)
            &&& forall|other: u32|
                other != id && before.contains_key(other) ==> #[trigger] after[other]
                    == before[other]
        },
        _ => after == before,
    }
}

proof fn lemma_carries(
    raw: RawWalEvent,
    relation: RelationModel,
    operation: WalOperation,
    before: Option<Seq<FieldModel>>,
    after: Option<Seq<FieldModel>>,
    event: EventModel,
)
    requires
        raw@ == event,
        event.table_name == relation.table_name,
        event.schema_name == relation.schema_name,
        event.operation == operation,
        event.old_tuple == match before {
            Some(fields) => Some(tuple_writer::written(fields)),
            None => None,
        },
        event.new_tuple == match after {
            Some(fields) => Some(tuple_writer::written(fields)),
            None => None,
        },
        event.columns == relation.columns,
    ensures
        carries(raw, relation, operation, before, after),
{
    if let Some(fields) = before {
        laws_of_rows::law_written_is_stored(fields);
    }
    if let Some(fields) = after {
        laws_of_rows::law_written_is_stored(fields);
    }
    let sent = relation.columns;
    let read = raw.columns@;
    assert(wal_event::column_models(read) == sent);
    assert forall|i: int| 0 <= i < sent.len() implies {
        &&& read[i].name@ == (#[trigger] sent[i]).name
        &&& read[i].type_id == sent[i].type_id
        &&& read[i].type_modifier == sent[i].type_modifier
    } by {
        assert(sent[i] == read[i]@);
    }
}

proof fn lemma_answers<H: WalEventHandler>(
    handlers: Map<Seq<char>, Arc<H>>,
    relations: Relations,
    sent: Option<MessageModel>,
    outcome: Option<H::Outcome>,
)
    requires
        wal_subscriber::is_outcome(
            handlers,
            wal_subscriber::event_of(relations, sent),
            outcome,
        ),
    ensures
        answers(handlers, relations, sent, outcome),
{
    if let Some(event) = wal_subscriber::event_of(relations, sent) {
        let (id, operation, before, after) = match sent {
            Some(MessageModel::Insert { id, new }) => (id, WalOperation::Insert, None, Some(new)),
            Some(MessageModel::Update { id, old, new }) => (
                id,
                WalOperation::Update,
                old,
                Some(new),
            ),
            Some(MessageModel::Delete { id, old }) => (id, WalOperation::Delete, Some(old), None),
            _ => (0u32, WalOperation::Insert, None, None),
        };
        if handlers.contains_key(event.table_name) {
            let raw = choose|raw: RawWalEvent|
                raw@ == event && #[trigger] call_ensures(
                    H::handle,
                    (&*handlers[event.table_name], raw),
                    outcome->0,
                );
            lemma_carries(raw, relations[id], operation, before, after, event);
        }
    }
}

proof fn lemma_holds(bytes: Seq<u8>, sent: Option<MessageModel>)
    requires
        holds(bytes, sent),
    ensures
        pgoutput::message(bytes) == sent,
{
    if let Some(message) = sent {
        laws_of_messages::law_written_messages_are_read(bytes, message);
    } else {
        laws_of_messages::law_only_messages_are_read(bytes);
    }
}

/// Each message of the log has its effect: a row change in a known table goes to the handler of
/// the table, with the rows as they were sent; the description of a table is known from then on;
/// and nothing else happens. Bytes that are no message have no effect.
pub proof fn law_messages_take_effect<H: WalEventHandler>(
    subscriber: &mut WalSubscriber<H>,
    data: &[u8],
    outcome: Option<H::Outcome>,
    sent: Option<MessageModel>,
)
    requires
        call_ensures(WalSubscriber::<H>::process_wal_data, (subscriber, data), outcome),
        holds(data@, sent),
    ensures
        answers(old(subscriber).handlers(), old(subscriber).relations(), sent, outcome),
        learns(old(subscriber).relations(), sent, final(subscriber).relations()),
        final(subscriber).handlers() == old(subscriber).handlers(),
        final(subscriber).config() == old(subscriber).config(),
{
    lemma_holds(data@, sent);
    lemma_answers(subscriber.handlers(), subscriber.relations(), sent, outcome);
}

/// Whether `sent` is the message in a frame: the one behind the byte 0x77 and a header of 24
/// bytes, or none where the frame starts otherwise, is shorter, or has no message there.
pub open spec fn frame_holds(frame: Seq<u8>, sent: Option<MessageModel>) -> bool {
    if frame.len() >= 25 && frame[0] == 0x77 {
        holds(frame.skip(25), sent)
    } else {
        sent is None
    }
}

/// A frame has the effect of the message in it, and any other frame has none.
pub proof fn law_frames_take_effect<H: WalEventHandler>(
    subscriber: &mut WalSubscriber<H>,
    data: &Bytes,
    outcome: Option<H::Outcome>,
    sent: Option<MessageModel>,
)
    requires
        call_ensures(WalSubscriber::<H>::process_replication_message, (subscriber, data), outcome),
        frame_holds(frame::content(*data), sent),
    ensures
        answers(old(subscriber).handlers(), old(subscriber).relations(), sent, outcome),
        learns(old(subscriber).relations(), sent, final(subscriber).relations()),
        final(subscriber).handlers() == old(subscriber).handlers(),
        final(subscriber).config() == old(subscriber).config(),
{
    let frame = frame::content(*data);
    if frame.len() >= 25 && frame[0] == 0x77 {
        lemma_holds(frame.skip(25), sent);
    }
    lemma_answers(subscriber.handlers(), subscriber.relations(), sent, outcome);
}

/// The log in a frame is what stands behind the byte 0x77 and a header of 24 bytes.
pub proof fn law_log_of_a_frame(data: &Bytes, log: Option<Bytes>)
    requires
        call_ensures(take_log_bytes, (data,), log),
    ensures
        ({
            let frame = frame::content(*data);
            &&& log is Some <==> frame.len() >= 25 && frame[0] == 0x77
            &&& log is Some ==> frame == frame.take(25) + frame::content(log.unwrap())
        }),
{
    let frame = frame::content(*data);
    if log is Some {
        assert(frame =~= frame.take(25) + frame.skip(25));
    }
}

/// A frame in the stream has the effect of that frame, and the stream goes on.
pub proof fn law_frames_of_the_stream<H: WalEventHandler>(
    subscriber: &mut WalSubscriber<H>,
    data: Bytes,
    step: StreamStep<H::Outcome>,
    sent: Option<MessageModel>,
)
    requires
        call_ensures(
            WalSubscriber::<H>::process_stream_item,
            (subscriber, Some(Ok(data))),
            step,
        ),
        frame_holds(frame::content(data), sent),
    ensures
        step is Continue,
        answers(old(subscriber).handlers(), old(subscriber).relations(), sent, step->Continue_0),
        learns(old(subscriber).relations(), sent, final(subscriber).relations()),
        final(subscriber).handlers() == old(subscriber).handlers(),
        final(subscriber).config() == old(subscriber).config(),
{
    let frame = frame::content(data);
    if frame.len() >= 25 && frame[0] == 0x77 {
        lemma_holds(frame.skip(25), sent);
    }
    lemma_answers(subscriber.handlers(), subscriber.relations(), sent, step->Continue_0);
}

/// An error of the connection ends the stream with that error, and the end of the stream is no
/// error. Neither changes the subscriber.
pub proof fn law_ends_of_the_stream<H: WalEventHandler>(
    subscriber: &mut WalSubscriber<H>,
    item: StreamItem,
    step: StreamStep<H::Outcome>,
)
    requires
        call_ensures(WalSubscriber::<H>::process_stream_item, (subscriber, item), step),
        !(item matches Some(Ok(_))),
    ensures
        item matches Some(Err(error)) ==> step == StreamStep::<H::Outcome>::Finished(
            Err(WalError::ConnectionError(error)),
        ),
        item is None ==> step == StreamStep::<H::Outcome>::Finished(Ok(())),
        final(subscriber).relations() == old(subscriber).relations(),
        final(subscriber).handlers() == old(subscriber).handlers(),
        final(subscriber).config() == old(subscriber).config(),
{
}

/// An event goes to the handler that is registered for its table, and to no other.
pub proof fn law_dispatch<H: WalEventHandler>(
    subscriber: &WalSubscriber<H>,
    event: RawWalEvent,
    outcome: Option<H::Outcome>,
)
    requires
        call_ensures(WalSubscriber::<H>::dispatch_event, (subscriber, event), outcome),
    ensures
        subscriber.handlers().contains_key(event.table_name@) ==> outcome is Some && call_ensures(
            H::handle,
            (&*subscriber.handlers()[event.table_name@], event),
            outcome->0,
        ),
        !subscriber.handlers().contains_key(event.table_name@) ==> outcome is None,
{
}

/// Whether the handlers are those of before, but for that of a table, which is `handler`.
pub open spec fn registers<H: WalEventHandler>(
    before: Map<Seq<char>, Arc<H>>,
    table: Seq<char>,
    handler: Arc<H>,
    after: Map<Seq<char>, Arc<H>>,
) -> bool {
    &&& after.contains_key(table)
    &&& after[table] == handler
    &&& forall|other: Seq<char>|
        other != table ==> #[trigger] after.contains_key(other) == before.contains_key(other)
    &&& forall|other: Seq<char>|
        other != table && before.contains_key(other) ==> #[trigger] after[other] == before[other]
}

/// A handler is registered for the table that is named with it, and nothing else changes.
pub proof fn law_registration_for_a_table<H: WalEventHandler>(
    subscriber: &mut WalSubscriber<H>,
    table_name: String,
    handler: Arc<H>,
)
    requires
        call_ensures(
            WalSubscriber::<H>::register_handler_for,
            (subscriber, table_name, handler),
            (),
        ),
    ensures
        registers(
            old(subscriber).handlers(),
            table_name@,
            handler,
            final(subscriber).handlers(),
        ),
        final(subscriber).relations() == old(subscriber).relations(),
        final(subscriber).config() == old(subscriber).config(),
{
}

/// A handler is registered for the table that it names, and nothing else changes.
pub proof fn law_registration<H: WalEventHandler>(
    subscriber: &mut WalSubscriber<H>,
    handler: Arc<H>,
)
    requires
        call_ensures(WalSubscriber::<H>::register_handler, (subscriber, handler), ()),
    ensures
        exists|name: &str| #[trigger]
            call_ensures(H::table_name, (&*handler,), name) && registers(
                old(subscriber).handlers(),
                name@,
                handler,
                final(subscriber).handlers(),
            ),
        final(subscriber).relations() == old(subscriber).relations(),
        final(subscriber).config() == old(subscriber).config(),
{
}

/// The handler of a table gets a row change once the table was described, from whatever schema
/// the table is: a subscriber with the handler that takes in the description and then the change
/// gives the outcome of the handler for it.
pub proof fn law_row_changes_reach_their_handler<H: WalEventHandler>(
    handler: Arc<H>,
    registering: &mut WalSubscriber<H>,
    table_name: String,
    describing: &mut WalSubscriber<H>,
    description: &[u8],
    nothing: Option<H::Outcome>,
    id: u32,
    relation: RelationModel,
    changing: &mut WalSubscriber<H>,
    data: &[u8],
    outcome: Option<H::Outcome>,
    sent: MessageModel,
)
    requires
        call_ensures(
            WalSubscriber::<H>::register_handler_for,
            (registering, table_name, handler),
            (),
        ),
        *old(describing) == *final(registering),
        call_ensures(
            WalSubscriber::<H>::process_wal_data,
            (describing, description),
            nothing,
        ),
        holds(description@, Some(MessageModel::Relation { id, relation })),
        relation.table_name == table_name@,
        *old(changing) == *final(describing),
        call_ensures(WalSubscriber::<H>::process_wal_data, (changing, data), outcome),
        holds(data@, Some(sent)),
    ensures
        sent matches MessageModel::Insert { id: changed, new } ==> (changed == id ==> is_handled(
            handler,
            relation,
            WalOperation::Insert,
            None,
            Some(new),
            outcome,
        )),
        sent matches MessageModel::Update { id: changed, old, new } ==> (changed == id
            ==> is_handled(handler, relation, WalOperation::Update, old, Some(new), outcome)),
        sent matches MessageModel::Delete { id: changed, old } ==> (changed == id ==> is_handled(
            handler,
            relation,
            WalOperation::Delete,
            Some(old),
            None,
            outcome,
        )),
{
    lemma_holds(description@, Some(MessageModel::Relation { id, relation }));
    lemma_holds(data@, Some(sent));
    lemma_answers(changing.handlers(), changing.relations(), Some(sent), outcome);
}

} // verus!
