//! What holds of the library as a whole.
use crate::encoding;
use crate::error::{WalError, WalResult};
use crate::frame;
use crate::pgoutput;
use crate::pgoutput::{FieldModel, MessageModel, RelationModel};
use crate::tuple_parser;
use crate::tuple_parser::Row;
use crate::tuple_writer;
use crate::wal_event::{EventModel, ValueModel, WalEventHandler, WalOperation};
use crate::wal_subscriber;
use crate::wal_subscriber::{Relations, SetupStep, StreamItem, WalSubscriberConfig};
use crate::wire;
use std::sync::Arc;
use vstd::prelude::*;

verus! {

/// The value that the reader of a tuple finds where `field` was written.
pub open spec fn read_back(field: FieldModel) -> ValueModel {
    match field {
        FieldModel::Null => ValueModel::Null,
        FieldModel::Unchanged => ValueModel::Null,
        FieldModel::Text(text) => if text.len() == 0 {
            ValueModel::Null
        } else if vstd::utf8::valid_utf8(text) {
            ValueModel::Text(vstd::utf8::decode_utf8(text))
        } else {
            ValueModel::Binary(text)
        },
    }
}

/// Whether the end of a written value can be told: a text holds no zero byte and does not start
/// with the byte that stands for a NULL.
pub open spec fn is_readable(field: FieldModel) -> bool {
    field matches FieldModel::Text(text) ==> {
        &&& forall|i: int| 0 <= i < text.len() ==> #[trigger] text[i] != 0
        &&& text.len() > 0 ==> text[0] != 255
    }
}

/// Each column's name with the value that is found where the column's field was written.
pub open spec fn row_read_back(names: Seq<Seq<char>>, fields: Seq<FieldModel>) -> Row {
    Seq::new(names.len(), |i: int| (names[i], read_back(fields[i])))
}

pub(crate) proof fn lemma_first_value(field: FieldModel, rest: Seq<u8>)
    requires
        is_readable(field),
    ensures
        ({
            let tuple = tuple_writer::field_bytes(field) + rest;
            &&& tuple.len() > 0
            &&& tuple_parser::first_value(tuple) == read_back(field)
            &&& tuple_parser::other_values(tuple) == rest
        }),
{
    let tuple = tuple_writer::field_bytes(field) + rest;
    match field {
        FieldModel::Text(text) => {
            assert forall|i: int| 0 <= i < text.len() implies tuple[i] != 0 by {
                assert(tuple[i] == text[i]);
            }
            assert(tuple[text.len() as int] == 0);
            if text.len() > 0 {
                assert(tuple[0] == text[0]);
            }
            wire::lemma_zero_free_len(tuple, text.len() as int);
            assert(tuple.take(text.len() as int) =~= text);
            assert(tuple.skip(text.len() as int + 1) =~= rest);
        },
        _ => {
            assert(tuple.skip(1) =~= rest);
        },
    }
}

/// Reading a tuple that was written from a row gives, for each column, the value that was
/// written for it, where the row has a value for each column.
pub proof fn law_tuple_reads_back(fields: Seq<FieldModel>, names: Seq<Seq<char>>)
    requires
        names.len() <= fields.len(),
        forall|i: int| 0 <= i < names.len() ==> is_readable(#[trigger] fields[i]),
    ensures
        tuple_parser::tuple_row(tuple_writer::written(fields), names) == Ok::<Row, Seq<char>>(
            row_read_back(names, fields),
        ),
    decreases names.len(),
{
    if names.len() == 0 {
        assert(row_read_back(names, fields) =~= Seq::empty());
    } else {
        let others = fields.skip(1);
        lemma_first_value(fields[0], tuple_writer::written(others));
        assert forall|i: int| 0 <= i < names.skip(1).len() implies is_readable(
            #[trigger] others[i],
        ) by {
            assert(others[i] == fields[i + 1]);
        }
        law_tuple_reads_back(others, names.skip(1));
        assert(seq![(names[0], read_back(fields[0]))] + row_read_back(names.skip(1), others)
            =~= row_read_back(names, fields));
    }
}

/// Reading a tuple that was written from a row with too few values names the first column that
/// has none.
pub proof fn law_missing_value_is_named(fields: Seq<FieldModel>, names: Seq<Seq<char>>)
    requires
        fields.len() < names.len(),
        forall|i: int| 0 <= i < fields.len() ==> is_readable(#[trigger] fields[i]),
    ensures
        tuple_parser::tuple_row(tuple_writer::written(fields), names) == Err::<Row, Seq<char>>(
            names[fields.len() as int],
        ),
    decreases fields.len(),
{
    if fields.len() > 0 {
        let others = fields.skip(1);
        lemma_first_value(fields[0], tuple_writer::written(others));
        assert forall|i: int| 0 <= i < others.len() implies is_readable(#[trigger] others[i]) by {
            assert(others[i] == fields[i + 1]);
        }
        law_missing_value_is_named(others, names.skip(1));
    }
}

/// A text without NUL characters comes back as that text, unless it is empty: an empty text comes
/// back as a NULL.
pub proof fn law_text_reads_back(text: Seq<char>)
    requires
        encoding::is_name(text),
    ensures
        is_readable(FieldModel::Text(vstd::utf8::encode_utf8(text))),
        read_back(FieldModel::Text(vstd::utf8::encode_utf8(text))) == (if text.len() == 0 {
            ValueModel::Null
        } else {
            ValueModel::Text(text)
        }),
{
    encoding::lemma_utf8_bytes(text);
    vstd::utf8::encode_utf8_valid_utf8(text);
    vstd::utf8::encode_utf8_decode_utf8(text);
    if text.len() > 0 && vstd::utf8::encode_utf8(text).len() == 0 {
        assert(vstd::utf8::decode_utf8(vstd::utf8::encode_utf8(text)) =~= Seq::empty());
    }
}

/// Bytes that are not UTF-8 come back as they are, as binary data, in whatever column of a row
/// they were written.
pub proof fn law_binary_reads_back(
    raw: Seq<u8>,
    fields: Seq<FieldModel>,
    names: Seq<Seq<char>>,
    i: int,
)
    requires
        !vstd::utf8::valid_utf8(raw),
        forall|j: int| 0 <= j < raw.len() ==> #[trigger] raw[j] != 0,
        raw[0] != 255,
        names.len() <= fields.len(),
        forall|j: int| 0 <= j < names.len() ==> is_readable(#[trigger] fields[j]),
        0 <= i < names.len(),
        fields[i] == FieldModel::Text(raw),
    ensures
        tuple_parser::tuple_row(tuple_writer::written(fields), names) matches Ok(row)
            && row.len() == names.len() && row[i] == (names[i], ValueModel::Binary(raw)),
{
    if raw.len() == 0 {
        assert(vstd::utf8::valid_utf8(raw));
    }
    law_tuple_reads_back(fields, names);
}

/// A row that was read from a tuple has exactly the columns that were asked for, in their order.
pub proof fn law_row_has_its_columns(tuple: Seq<u8>, names: Seq<Seq<char>>)
    ensures
        tuple_parser::tuple_row(tuple, names) matches Ok(row) ==> {
            &&& row.len() == names.len()
            &&& forall|i: int| 0 <= i < names.len() ==> (#[trigger] row[i]).0 == names[i]
        },
    decreases names.len(),
{
    if names.len() > 0 && tuple.len() > 0 {
        let others = tuple_parser::other_values(tuple);
        law_row_has_its_columns(others, names.skip(1));
        if let Ok(rest) = tuple_parser::tuple_row(others, names.skip(1)) {
            let row = seq![(names[0], tuple_parser::first_value(tuple))] + rest;
            assert forall|i: int| 0 <= i < names.len() implies (#[trigger] row[i]).0
                == names[i] by {
                if i > 0 {
                    assert(row[i] == rest[i - 1]);
                    assert(names.skip(1)[i - 1] == names[i]);
                }
            }
        }
    }
}

/// Looking a column up by name finds the first column of that name.
pub proof fn law_first_column_is_found(row: Row, i: int)
    requires
        0 <= i < row.len(),
        forall|j: int| 0 <= j < i ==> (#[trigger] row[j]).0 != row[i].0,
    ensures
        tuple_parser::column_value(row, row[i].0) == Some(row[i].1),
    decreases row.len(),
{
    if i > 0 {
        let others = row.skip(1);
        assert(row[0].0 != row[i].0);
        assert(others[i - 1] == row[i]);
        assert forall|j: int| 0 <= j < i - 1 implies (#[trigger] others[j]).0 != others[i - 1].0 by {
            assert(others[j] == row[j + 1]);
        }
        law_first_column_is_found(others, i - 1);
    }
}

/// Looking a column up finds nothing exactly where no column has the name.
pub proof fn law_missing_column_is_not_found(row: Row, name: Seq<char>)
    ensures
        tuple_parser::column_value(row, name) is None <==> forall|i: int|
            0 <= i < row.len() ==> (#[trigger] row[i]).0 != name,
    decreases row.len(),
{
    if row.len() > 0 {
        let others = row.skip(1);
        law_missing_column_is_not_found(others, name);
        if row[0].0 != name {
            if forall|i: int| 0 <= i < others.len() ==> (#[trigger] others[i]).0 != name {
                assert forall|i: int| 0 <= i < row.len() implies (#[trigger] row[i]).0 != name by {
                    if i > 0 {
                        assert(row[i] == others[i - 1]);
                    }
                }
            } else {
                let i = choose|i: int| 0 <= i < others.len() && (#[trigger] others[i]).0 == name;
                assert(row[i + 1].0 == name);
            }
        }
    }
}

/// A frame that announces a part of the log carries the bytes behind its header, whatever the
/// header says.
pub proof fn law_log_frame(header: Seq<u8>, log: Seq<u8>)
    requires
        header.len() == 24,
    ensures
        frame::log_bytes(seq![0x77u8] + header + log) == Some(log),
{
    let all = seq![0x77u8] + header + log;
    assert(all.skip(25) =~= log);
}

/// An empty frame, a frame of another kind and a frame that ends inside its header carry nothing.
pub proof fn law_other_frame(bytes: Seq<u8>)
    requires
        bytes.len() == 0 || bytes[0] != 0x77u8 || bytes.len() <= 24,
    ensures
        frame::log_bytes(bytes) is None,
{
}

/// Messages other than relation messages leave the known tables as they are.
pub proof fn law_only_relation_messages_describe_tables(
    relations: Relations,
    message: Option<MessageModel>,
)
    requires
        !(message matches Some(MessageModel::Relation { .. })),
    ensures
        wal_subscriber::relations_after(relations, message) == relations,
{
}

/// A relation message replaces what is known under its id, if anything was, and leaves the tables
/// under other ids as they are.
pub proof fn law_relation_message_describes_its_table(
    relations: Relations,
    id: u32,
    relation: RelationModel,
    other: u32,
)
    ensures
        ({
            let after = wal_subscriber::relations_after(
                relations,
                Some(MessageModel::Relation { id, relation }),
            );
            &&& after.contains_key(id) && after[id] == relation
            &&& other != id ==> {
                &&& after.contains_key(other) == relations.contains_key(other)
                &&& relations.contains_key(other) ==> after[other] == relations[other]
            }
        }),
{
}

/// The start and the end of a transaction, and bytes that are no message, report no row change
/// and change nothing that is known.
pub proof fn law_other_messages_change_nothing(relations: Relations, message: Option<MessageModel>)
    requires
        message is None || message == Some(MessageModel::Begin) || message == Some(
            MessageModel::Commit,
        ),
    ensures
        wal_subscriber::relations_after(relations, message) == relations,
        wal_subscriber::event_of(relations, message) is None,
{
}

/// An event is exactly one of an insert, an update and a delete.
pub proof fn law_one_operation(event: EventModel)
    ensures
        event.operation == WalOperation::Insert || event.operation == WalOperation::Update
            || event.operation == WalOperation::Delete,
        !(event.operation == WalOperation::Insert && event.operation == WalOperation::Update),
        !(event.operation == WalOperation::Update && event.operation == WalOperation::Delete),
        !(event.operation == WalOperation::Insert && event.operation == WalOperation::Delete),
{
}

/// An event has the row after the change unless it is a delete, never has the row before the
/// change if it is an insert, and always has it if it is a delete.
pub proof fn law_rows_of_events(relations: Relations, message: Option<MessageModel>)
    ensures
        wal_subscriber::event_of(relations, message) matches Some(event) ==> {
            &&& event.new_tuple is Some <==> event.operation != WalOperation::Delete
            &&& event.operation == WalOperation::Insert ==> event.old_tuple is None
            &&& event.operation == WalOperation::Delete ==> event.old_tuple is Some
        },
{
}

/// The id of the table whose row a message reports to have changed.
pub open spec fn changed_table(message: MessageModel) -> Option<u32> {
    match message {
        MessageModel::Insert { id, .. } => Some(id),
        MessageModel::Update { id, .. } => Some(id),
        MessageModel::Delete { id, .. } => Some(id),
        _ => None,
    }
}

/// A message becomes an event exactly where it reports a row change in a known table, and the
/// event names the table, the schema and the columns that are known under the id in the message.
pub proof fn law_events_follow_the_known_table(relations: Relations, message: MessageModel)
    ensures
        match wal_subscriber::event_of(relations, Some(message)) {
            Some(event) => {
                &&& changed_table(message) matches Some(id)
                &&& relations.contains_key(id)
                &&& event.table_name == relations[id].table_name
                &&& event.schema_name == relations[id].schema_name
                &&& event.columns == relations[id].columns
            },
            None => changed_table(message) matches Some(id) ==> !relations.contains_key(id),
        },
{
}

/// A row that is inserted into a table reaches the handlers of the table with the columns that
/// the last description of the table gave, and reading it gives the values that were sent.
pub proof fn law_inserted_row_arrives(
    relations: Relations,
    id: u32,
    relation: RelationModel,
    replica_identity: u8,
    flags: Seq<u8>,
    new: Seq<FieldModel>,
)
    requires
        encoding::is_relation(relation),
        flags.len() == relation.columns.len(),
        encoding::is_row(new),
        relation.columns.len() <= new.len(),
        forall|i: int| 0 <= i < relation.columns.len() ==> is_readable(#[trigger] new[i]),
    ensures
        ({
            let known = wal_subscriber::relations_after(
                relations,
                pgoutput::message(
                    encoding::relation_message(id, relation, replica_identity, flags),
                ),
            );
            let names = tuple_parser::column_names(relation.columns);
            &&& wal_subscriber::event_of(
                known,
                pgoutput::message(encoding::insert_message(id, new)),
            ) matches Some(event)
            &&& event.table_name == relation.table_name
            &&& event.schema_name == relation.schema_name
            &&& event.columns == relation.columns
            &&& event.operation == WalOperation::Insert
            &&& event.old_tuple is None
            &&& event.new_tuple matches Some(tuple)
            &&& tuple_parser::tuple_row(tuple, names) == Ok::<Row, Seq<char>>(
                row_read_back(names, new),
            )
        }),
{
    lemma_whole_relation_message(id, relation, replica_identity, flags);
    encoding::law_insert_message(id, new, Seq::empty());
    assert(encoding::insert_message(id, new) + Seq::empty() =~= encoding::insert_message(id, new));
    law_tuple_reads_back(new, tuple_parser::column_names(relation.columns));
}

/// A row that is updated reaches the handlers of the table, with the row before the update where
/// it was sent; reading the rows gives the values that were sent.
pub proof fn law_updated_row_arrives(
    relations: Relations,
    id: u32,
    relation: RelationModel,
    replica_identity: u8,
    flags: Seq<u8>,
    old_kind: u8,
    old: Seq<FieldModel>,
    new: Seq<FieldModel>,
)
    requires
        encoding::is_relation(relation),
        flags.len() == relation.columns.len(),
        old_kind == 0x4fu8 || old_kind == 0x4bu8,
        encoding::is_row(old),
        encoding::is_row(new),
        relation.columns.len() <= old.len(),
        relation.columns.len() <= new.len(),
        forall|i: int| 0 <= i < relation.columns.len() ==> is_readable(#[trigger] old[i]),
        forall|i: int| 0 <= i < relation.columns.len() ==> is_readable(#[trigger] new[i]),
    ensures
        ({
            let known = wal_subscriber::relations_after(
                relations,
                pgoutput::message(
                    encoding::relation_message(id, relation, replica_identity, flags),
                ),
            );
            let names = tuple_parser::column_names(relation.columns);
            let row = |fields: Seq<FieldModel>|
                Ok::<Row, Seq<char>>(row_read_back(names, fields));
            &&& wal_subscriber::event_of(
                known,
                pgoutput::message(encoding::full_update_message(id, old_kind, old, new)),
            ) matches Some(event)
            &&& event.table_name == relation.table_name
            &&& event.schema_name == relation.schema_name
            &&& event.columns == relation.columns
            &&& event.operation == WalOperation::Update
            &&& event.old_tuple matches Some(old_tuple)
            &&& event.new_tuple matches Some(new_tuple)
            &&& tuple_parser::tuple_row(old_tuple, names) == row(old)
            &&& tuple_parser::tuple_row(new_tuple, names) == row(new)
            &&& wal_subscriber::event_of(
                known,
                pgoutput::message(encoding::update_message(id, new)),
            ) == Some(EventModel { old_tuple: None, ..event })
        }),
{
    lemma_whole_relation_message(id, relation, replica_identity, flags);
    let full = encoding::full_update_message(id, old_kind, old, new);
    let short = encoding::update_message(id, new);
    encoding::law_full_update_message(id, old_kind, old, new, Seq::empty());
    encoding::law_update_message(id, new, Seq::empty());
    assert(full + Seq::empty() =~= full);
    assert(short + Seq::empty() =~= short);
    law_tuple_reads_back(old, tuple_parser::column_names(relation.columns));
    law_tuple_reads_back(new, tuple_parser::column_names(relation.columns));
}

/// A row that is deleted reaches the handlers of the table; reading it gives the values that were
/// sent.
pub proof fn law_deleted_row_arrives(
    relations: Relations,
    id: u32,
    relation: RelationModel,
    replica_identity: u8,
    flags: Seq<u8>,
    old_kind: u8,
    old: Seq<FieldModel>,
)
    requires
        encoding::is_relation(relation),
        flags.len() == relation.columns.len(),
        old_kind == 0x4fu8 || old_kind == 0x4bu8,
        encoding::is_row(old),
        relation.columns.len() <= old.len(),
        forall|i: int| 0 <= i < relation.columns.len() ==> is_readable(#[trigger] old[i]),
    ensures
        ({
            let known = wal_subscriber::relations_after(
                relations,
                pgoutput::message(
                    encoding::relation_message(id, relation, replica_identity, flags),
                ),
            );
            let names = tuple_parser::column_names(relation.columns);
            &&& wal_subscriber::event_of(
                known,
                pgoutput::message(encoding::delete_message(id, old_kind, old)),
            ) matches Some(event)
            &&& event.table_name == relation.table_name
            &&& event.schema_name == relation.schema_name
            &&& event.columns == relation.columns
            &&& event.operation == WalOperation::Delete
            &&& event.new_tuple is None
            &&& event.old_tuple matches Some(tuple)
            &&& tuple_parser::tuple_row(tuple, names) == Ok::<Row, Seq<char>>(
                row_read_back(names, old),
            )
        }),
{
    lemma_whole_relation_message(id, relation, replica_identity, flags);
    let bytes = encoding::delete_message(id, old_kind, old);
    encoding::law_delete_message(id, old_kind, old, Seq::empty());
    assert(bytes + Seq::empty() =~= bytes);
    law_tuple_reads_back(old, tuple_parser::column_names(relation.columns));
}

proof fn lemma_whole_relation_message(
    id: u32,
    relation: RelationModel,
    replica_identity: u8,
    flags: Seq<u8>,
)
    requires
        encoding::is_relation(relation),
        flags.len() == relation.columns.len(),
    ensures
        pgoutput::message(encoding::relation_message(id, relation, replica_identity, flags))
            == Some(MessageModel::Relation { id, relation }),
{
    let bytes = encoding::relation_message(id, relation, replica_identity, flags);
    encoding::law_relation_message(id, relation, replica_identity, flags, Seq::empty());
    assert(bytes + Seq::empty() =~= bytes);
}

/// The known tables after the messages of a log, one after the other.
pub open spec fn relations_after_log(relations: Relations, log: Seq<Seq<u8>>) -> Relations
    decreases log.len(),
{
    if log.len() == 0 {
        relations
    } else {
        relations_after_log(
            wal_subscriber::relations_after(relations, pgoutput::message(log[0])),
            log.skip(1),
        )
    }
}

/// The row changes that the messages of a log report, one after the other.
pub open spec fn events_of_log(relations: Relations, log: Seq<Seq<u8>>) -> Seq<EventModel>
    decreases log.len(),
{
    if log.len() == 0 {
        Seq::empty()
    } else {
        let message = pgoutput::message(log[0]);
        let first = match wal_subscriber::event_of(relations, message) {
            Some(event) => seq![event],
            None => Seq::empty(),
        };
        first + events_of_log(wal_subscriber::relations_after(relations, message), log.skip(1))
    }
}

/// A log can be taken in piece by piece: the row changes are the same, in the same order.
pub proof fn law_log_in_pieces(relations: Relations, first: Seq<Seq<u8>>, second: Seq<Seq<u8>>)
    ensures
        relations_after_log(relations, first + second) == relations_after_log(
            relations_after_log(relations, first),
            second,
        ),
        events_of_log(relations, first + second) == events_of_log(relations, first) + events_of_log(
            relations_after_log(relations, first),
            second,
        ),
    decreases first.len(),
{
    if first.len() == 0 {
        assert(first + second =~= second);
        assert(events_of_log(relations, first) + events_of_log(relations, second)
            =~= events_of_log(relations, second));
    } else {
        let message = pgoutput::message(first[0]);
        let after = wal_subscriber::relations_after(relations, message);
        assert((first + second).skip(1) =~= first.skip(1) + second);
        law_log_in_pieces(after, first.skip(1), second);
        let event = match wal_subscriber::event_of(relations, message) {
            Some(event) => seq![event],
            None => Seq::empty(),
        };
        assert(event + (events_of_log(after, first.skip(1)) + events_of_log(
            relations_after_log(relations, first),
            second,
        )) =~= (event + events_of_log(after, first.skip(1))) + events_of_log(
            relations_after_log(relations, first),
            second,
        ));
    }
}

/// A log of row messages for known tables reports one row change for each message, in the order
/// of the messages, and leaves the known tables as they are.
pub proof fn law_one_event_for_each_row_message(relations: Relations, log: Seq<Seq<u8>>)
    requires
        forall|i: int|
            0 <= i < log.len() ==> wal_subscriber::event_of(
                relations,
                pgoutput::message(#[trigger] log[i]),
            ) is Some,
    ensures
        relations_after_log(relations, log) == relations,
        events_of_log(relations, log) == log.map_values(
            |bytes: Seq<u8>|
                wal_subscriber::event_of(relations, pgoutput::message(bytes))->0,
        ),
    decreases log.len(),
{
    let each = |bytes: Seq<u8>| wal_subscriber::event_of(relations, pgoutput::message(bytes))->0;
    if log.len() > 0 {
        let others = log.skip(1);
        assert(wal_subscriber::event_of(relations, pgoutput::message(log[0])) is Some);
        assert forall|i: int| 0 <= i < others.len() implies wal_subscriber::event_of(
            relations,
            pgoutput::message(#[trigger] others[i]),
        ) is Some by {
            assert(others[i] == log[i + 1]);
        }
        law_one_event_for_each_row_message(relations, others);
        assert(seq![each(log[0])] + others.map_values(each) =~= log.map_values(each));
    } else {
        assert(log.map_values(each) =~= Seq::empty());
    }
}

/// The known tables after the items of a stream, taken in one after the other until one of them
/// ends the stream.
pub open spec fn relations_after_stream(relations: Relations, items: Seq<StreamItem>) -> Relations
    decreases items.len(),
{
    if items.len() == 0 || wal_subscriber::item_result(items[0]) is Some {
        relations
    } else {
        relations_after_stream(
            wal_subscriber::relations_after(relations, wal_subscriber::item_message(items[0])),
            items.skip(1),
        )
    }
}

/// The row changes that the items of a stream report, taken in one after the other until one of
/// them ends the stream.
pub open spec fn events_of_stream(relations: Relations, items: Seq<StreamItem>) -> Seq<EventModel>
    decreases items.len(),
{
    if items.len() == 0 || wal_subscriber::item_result(items[0]) is Some {
        Seq::empty()
    } else {
        let message = wal_subscriber::item_message(items[0]);
        let first = match wal_subscriber::event_of(relations, message) {
            Some(event) => seq![event],
            None => Seq::empty(),
        };
        first + events_of_stream(
            wal_subscriber::relations_after(relations, message),
            items.skip(1),
        )
    }
}

/// The result of a stream, once one of its items has ended it.
pub open spec fn stream_result(items: Seq<StreamItem>) -> Option<WalResult<()>>
    decreases items.len(),
{
    if items.len() == 0 {
        None
    } else if wal_subscriber::item_result(items[0]) is Some {
        wal_subscriber::item_result(items[0])
    } else {
        stream_result(items.skip(1))
    }
}

/// The messages of the log in the frames of a stream before the item that ends it.
pub open spec fn log_of_stream(items: Seq<StreamItem>) -> Seq<Seq<u8>>
    decreases items.len(),
{
    if items.len() == 0 {
        Seq::empty()
    } else {
        match items[0] {
            Some(Ok(data)) => match frame::log_bytes(frame::content(data)) {
                Some(log) => seq![log] + log_of_stream(items.skip(1)),
                None => log_of_stream(items.skip(1)),
            },
            _ => Seq::empty(),
        }
    }
}

/// Taking in a stream has the effect of taking in the log that its frames carry before it ends:
/// the known tables and the row changes, in their order, are those of the log.
pub proof fn law_stream_carries_its_log(relations: Relations, items: Seq<StreamItem>)
    ensures
        relations_after_stream(relations, items) == relations_after_log(
            relations,
            log_of_stream(items),
        ),
        events_of_stream(relations, items) == events_of_log(relations, log_of_stream(items)),
    decreases items.len(),
{
    if items.len() > 0 {
        if let Some(Ok(data)) = items[0] {
            let others = items.skip(1);
            let message = wal_subscriber::item_message(items[0]);
            law_stream_carries_its_log(
                wal_subscriber::relations_after(relations, message),
                others,
            );
            if let Some(log) = frame::log_bytes(frame::content(data)) {
                assert(log_of_stream(items)[0] == log);
                assert(log_of_stream(items).skip(1) =~= log_of_stream(others));
            } else {
                assert(Seq::empty() + events_of_stream(relations, others) =~= events_of_stream(
                    relations,
                    others,
                ));
            }
        }
    }
}

/// A stream goes on as long as it brings frames.
pub proof fn law_frames_do_not_end_the_stream(items: Seq<StreamItem>)
    requires
        forall|i: int| 0 <= i < items.len() ==> #[trigger] items[i] matches Some(Ok(_)),
    ensures
        stream_result(items) is None,
    decreases items.len(),
{
    if items.len() > 0 {
        let others = items.skip(1);
        assert(items[0] matches Some(Ok(_)));
        assert forall|i: int| 0 <= i < others.len() implies #[trigger] others[i] matches Some(
            Ok(_),
        ) by {
            assert(others[i] == items[i + 1]);
        }
        law_frames_do_not_end_the_stream(others);
    }
}

/// The first item of a stream that is no frame ends it: an error of the connection with that
/// error, the end with success. What comes behind has no effect.
pub proof fn law_first_other_item_ends_the_stream(
    relations: Relations,
    items: Seq<StreamItem>,
    end: int,
)
    requires
        0 <= end < items.len(),
        forall|i: int| 0 <= i < end ==> #[trigger] items[i] matches Some(Ok(_)),
        !(items[end] matches Some(Ok(_))),
    ensures
        stream_result(items) == Some(
            match items[end] {
                Some(Err(error)) => Err::<(), WalError>(WalError::ConnectionError(error)),
                _ => Ok(()),
            },
        ),
        log_of_stream(items) == log_of_stream(items.take(end)),
        relations_after_stream(relations, items) == relations_after_stream(
            relations,
            items.take(end),
        ),
        events_of_stream(relations, items) == events_of_stream(relations, items.take(end)),
    decreases items.len(),
{
    if end > 0 {
        let others = items.skip(1);
        assert(items[0] matches Some(Ok(_)));
        assert(items.take(end)[0] == items[0]);
        assert(items.take(end).skip(1) =~= others.take(end - 1));
        assert(others[end - 1] == items[end]);
        assert forall|i: int| 0 <= i < end - 1 implies #[trigger] others[i] matches Some(Ok(_)) by {
            assert(others[i] == items[i + 1]);
        }
        let after = wal_subscriber::relations_after(
            relations,
            wal_subscriber::item_message(items[0]),
        );
        law_first_other_item_ends_the_stream(after, others, end - 1);
    }
}

/// Of the handlers that were registered for a table the last one gets its row changes; those of
/// other tables go where they went before.
pub proof fn law_last_handler_counts<H: WalEventHandler>(
    handlers: Map<Seq<char>, Arc<H>>,
    table_name: Seq<char>,
    earlier: Arc<H>,
    later: Arc<H>,
    event: EventModel,
    outcome: Option<H::Outcome>,
)
    ensures
        ({
            let after = handlers.insert(table_name, earlier).insert(table_name, later);
            &&& after == handlers.insert(table_name, later)
            &&& after[table_name] == later
            &&& event.table_name != table_name ==> wal_subscriber::is_outcome(
                after,
                Some(event),
                outcome,
            ) == wal_subscriber::is_outcome(handlers, Some(event), outcome)
        }),
{
    assert(handlers.insert(table_name, earlier).insert(table_name, later) =~= handlers.insert(
        table_name,
        later,
    ));
}

/// A row change in a table without a handler goes to no handler.
pub proof fn law_no_handler_no_outcome<H: WalEventHandler>(
    handlers: Map<Seq<char>, Arc<H>>,
    event: EventModel,
    outcome: Option<H::Outcome>,
)
    requires
        !handlers.contains_key(event.table_name),
        wal_subscriber::is_outcome(handlers, Some(event), outcome),
    ensures
        outcome is None,
{
}

/// The setup asks for a publication only where one is wanted and there are tables for it, asks
/// for the replication slot in any case and after the publication, and is then over.
pub proof fn law_setup_order(config: WalSubscriberConfig)
    ensures
        ({
            let first = wal_subscriber::first_step(config);
            &&& first == SetupStep::CreatePublication <==> config.create_publication
                && config.publication_tables@.len() > 0
            &&& first != SetupStep::CreatePublication ==> first == SetupStep::CreateReplicationSlot
            &&& wal_subscriber::following(SetupStep::CreatePublication)
                == SetupStep::CreateReplicationSlot
            &&& wal_subscriber::following(SetupStep::CreateReplicationSlot) == SetupStep::Ready
        }),
{
}

/// A refusal that says that the thing already exists, in whatever other words, is as good as
/// success.
pub proof fn law_existing_is_in_place(before: Seq<char>, after: Seq<char>, reason: String)
    requires
        reason@ == before + "already exists"@ + after,
    ensures
        wal_subscriber::is_in_place(Err(reason)),
{
    let words = "already exists"@;
    let start = before.len() as int;
    assert(reason@.subrange(start, start + words.len()) =~= words);
}

} // verus!
