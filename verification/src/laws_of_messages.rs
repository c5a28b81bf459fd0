//! Bytes are read as a message exactly where the server wrote that message there.
//!
//! [`crate::encoding`] says how messages are written and proves that what was written is read
//! back. Here is the other direction: whatever is read as a message was written as one.
use crate::encoding;
use crate::pgoutput;
use crate::pgoutput::{
    parse_delete_message, parse_insert_message, parse_message, parse_relation_message,
    parse_update_message, Field, FieldModel, Message, MessageModel, RelationModel,
};
use crate::wal_event;
use crate::wal_event::{ColumnInfo, ColumnModel};
use crate::wire;
use vstd::prelude::*;

verus! {

proof fn lemma_byte(bytes: Seq<u8>)
    requires
        wire::byte(bytes) is Some,
    ensures
        bytes == seq![wire::byte(bytes).unwrap().0] + wire::byte(bytes).unwrap().1,
{
    assert(bytes =~= seq![bytes[0]] + bytes.skip(1));
}

proof fn lemma_short(bytes: Seq<u8>)
    requires
        wire::short(bytes) is Some,
    ensures
        bytes == encoding::short_bytes(wire::short(bytes).unwrap().0) + wire::short(
            bytes,
        ).unwrap().1,
{
    let n = wire::short(bytes).unwrap().0;
    let (a, b) = (bytes[0], bytes[1]);
    assert(n == a * 0x100 + b);
    assert(n / 0x100 == a && n % 0x100 == b);
    assert(bytes =~= encoding::short_bytes(n) + bytes.skip(2));
}

proof fn lemma_long(bytes: Seq<u8>)
    requires
        wire::long(bytes) is Some,
    ensures
        bytes == encoding::long_bytes(wire::long(bytes).unwrap().0) + wire::long(
            bytes,
        ).unwrap().1,
{
    let n = wire::long(bytes).unwrap().0;
    let (a, b, c, d) = (bytes[0], bytes[1], bytes[2], bytes[3]);
    assert(n == a * 0x100_0000 + b * 0x1_0000 + c * 0x100 + d);
    assert(n / 0x100_0000 == a);
    assert(n / 0x1_0000 % 0x100 == b);
    assert(n / 0x100 % 0x100 == c);
    assert(n % 0x100 == d);
    assert(bytes =~= encoding::long_bytes(n) + bytes.skip(4));
}

proof fn lemma_signed(n: u32)
    ensures
        encoding::complement(wire::signed(n)) == n,
{
}

/// A text whose UTF-8 has no zero byte has no NUL character.
proof fn lemma_no_zero_byte(text: Seq<char>)
    requires
        forall|i: int|
            0 <= i < vstd::utf8::encode_utf8(text).len() ==> #[trigger] vstd::utf8::encode_utf8(
                text,
            )[i] != 0,
    ensures
        encoding::is_name(text),
    decreases text.len(),
{
    if text.len() > 0 {
        let bytes = vstd::utf8::encode_utf8(text);
        let first = vstd::utf8::encode_scalar(text[0] as u32);
        let rest = text.drop_first();
        let behind = vstd::utf8::encode_utf8(rest);
        assert(bytes == first + behind);
        if text[0] == '\0' {
            assert((0u32 & 0x7F) as u8 == 0) by (bit_vector);
            assert(first[0] == 0);
            assert(bytes[0] == 0);
        }
        assert forall|i: int| 0 <= i < behind.len() implies #[trigger] behind[i] != 0 by {
            assert(behind[i] == bytes[i + first.len()]);
        }
        lemma_no_zero_byte(rest);
        assert forall|i: int| 0 <= i < text.len() implies #[trigger] text[i] != '\0' by {
            if i > 0 {
                assert(text[i] == rest[i - 1]);
            }
        }
    }
}

proof fn lemma_name(bytes: Seq<u8>)
    requires
        wire::name(bytes) is Some,
    ensures
        bytes == encoding::name_bytes(wire::name(bytes).unwrap().0) + wire::name(bytes).unwrap().1,
        encoding::is_name(wire::name(bytes).unwrap().0),
{
    let end = wire::zero_free_len(bytes);
    wire::lemma_zero_free_len_spelled_out(bytes);
    vstd::utf8::decode_utf8_encode_utf8(bytes.take(end));
    assert(bytes =~= bytes.take(end).push(0) + bytes.skip(end + 1));
    lemma_no_zero_byte(wire::name(bytes).unwrap().0);
}

proof fn lemma_column(bytes: Seq<u8>) -> (flags: u8)
    requires
        pgoutput::column(bytes) is Some,
    ensures
        bytes == encoding::column_bytes(pgoutput::column(bytes).unwrap().0, flags)
            + pgoutput::column(bytes).unwrap().1,
        encoding::is_name(pgoutput::column(bytes).unwrap().0.name),
{
    let (column, rest) = pgoutput::column(bytes).unwrap();
    lemma_byte(bytes);
    let (flags, b1) = wire::byte(bytes).unwrap();
    lemma_name(b1);
    let b2 = wire::name(b1).unwrap().1;
    lemma_long(b2);
    let b3 = wire::long(b2).unwrap().1;
    lemma_long(b3);
    lemma_signed(wire::long(b3).unwrap().0);
    assert(bytes =~= encoding::column_bytes(column, flags) + rest);
    flags
}

/// Whether the names of columns can be written.
spec fn are_named(columns: Seq<ColumnModel>) -> bool {
    forall|i: int| 0 <= i < columns.len() ==> encoding::is_name((#[trigger] columns[i]).name)
}

proof fn lemma_column_list(count: nat, bytes: Seq<u8>) -> (flags: Seq<u8>)
    requires
        wire::repeated(pgoutput::column_reader(), count, bytes) is Some,
    ensures
        flags.len() == count,
        wire::repeated(pgoutput::column_reader(), count, bytes).unwrap().0.len() == count,
        bytes == encoding::column_list_bytes(
            wire::repeated(pgoutput::column_reader(), count, bytes).unwrap().0,
            flags,
        ) + wire::repeated(pgoutput::column_reader(), count, bytes).unwrap().1,
        are_named(wire::repeated(pgoutput::column_reader(), count, bytes).unwrap().0),
    decreases count,
{
    let (columns, rest) = wire::repeated(pgoutput::column_reader(), count, bytes).unwrap();
    if count == 0 {
        assert(encoding::column_list_bytes(columns, Seq::empty()) + rest =~= rest);
        Seq::empty()
    } else {
        let first = lemma_column(bytes);
        let behind = pgoutput::column(bytes).unwrap().1;
        let others = lemma_column_list((count - 1) as nat, behind);
        let flags = seq![first] + others;
        let tail = wire::repeated(pgoutput::column_reader(), (count - 1) as nat, behind).unwrap().0;
        assert(columns =~= seq![pgoutput::column(bytes).unwrap().0] + tail);
        assert(columns.skip(1) =~= tail);
        assert(flags.skip(1) =~= others);
        encoding::lemma_regroup(
            encoding::column_bytes(columns[0], first),
            encoding::column_list_bytes(tail, others),
            rest,
        );
        assert forall|i: int| 0 <= i < columns.len() implies encoding::is_name(
            (#[trigger] columns[i]).name,
        ) by {
            if i > 0 {
                assert(columns[i] == tail[i - 1]);
            }
        }
        flags
    }
}

proof fn lemma_field(bytes: Seq<u8>)
    requires
        pgoutput::field(bytes) is Some,
    ensures
        bytes == encoding::field_bytes(pgoutput::field(bytes).unwrap().0) + pgoutput::field(
            bytes,
        ).unwrap().1,
        pgoutput::field(bytes).unwrap().0 matches FieldModel::Text(text) ==> text.len()
            <= u32::MAX,
{
    let (field, rest) = pgoutput::field(bytes).unwrap();
    lemma_byte(bytes);
    let (kind, b1) = wire::byte(bytes).unwrap();
    if let FieldModel::Text(text) = field {
        lemma_long(b1);
        let (len, b2) = wire::long(b1).unwrap();
        assert(text == b2.take(len as int));
        assert(b2 =~= text + rest);
        assert(bytes =~= encoding::field_bytes(field) + rest);
    }
}

/// Whether the lengths of texts fit their places.
spec fn are_fitting(fields: Seq<FieldModel>) -> bool {
    forall|i: int|
        0 <= i < fields.len() ==> (#[trigger] fields[i] matches FieldModel::Text(text) ==> text.len()
            <= u32::MAX)
}

proof fn lemma_field_list(count: nat, bytes: Seq<u8>)
    requires
        wire::repeated(pgoutput::field_reader(), count, bytes) is Some,
    ensures
        ({
            let (fields, rest) = wire::repeated(pgoutput::field_reader(), count, bytes).unwrap();
            &&& fields.len() == count
            &&& bytes == encoding::field_list_bytes(fields) + rest
            &&& are_fitting(fields)
        }),
    decreases count,
{
    let (fields, rest) = wire::repeated(pgoutput::field_reader(), count, bytes).unwrap();
    if count == 0 {
        assert(encoding::field_list_bytes(fields) + rest =~= rest);
    } else {
        lemma_field(bytes);
        let (first, behind) = pgoutput::field(bytes).unwrap();
        lemma_field_list((count - 1) as nat, behind);
        let tail = wire::repeated(pgoutput::field_reader(), (count - 1) as nat, behind).unwrap().0;
        assert(fields =~= seq![first] + tail);
        assert(fields.skip(1) =~= tail);
        encoding::lemma_regroup(
            encoding::field_bytes(first),
            encoding::field_list_bytes(tail),
            rest,
        );
        assert forall|i: int| 0 <= i < fields.len() implies (
        #[trigger] fields[i] matches FieldModel::Text(text) ==> text.len() <= u32::MAX) by {
            if i > 0 {
                assert(fields[i] == tail[i - 1]);
            }
        }
    }
}

proof fn lemma_tuple(bytes: Seq<u8>)
    requires
        pgoutput::tuple(bytes) is Some,
    ensures
        bytes == encoding::tuple_bytes(pgoutput::tuple(bytes).unwrap().0) + pgoutput::tuple(
            bytes,
        ).unwrap().1,
        encoding::is_row(pgoutput::tuple(bytes).unwrap().0),
{
    let (fields, rest) = pgoutput::tuple(bytes).unwrap();
    lemma_short(bytes);
    let (count, b1) = wire::short(bytes).unwrap();
    lemma_field_list(count as nat, b1);
    assert(bytes =~= encoding::tuple_bytes(fields) + rest);
}

proof fn lemma_new_row(bytes: Seq<u8>)
    requires
        pgoutput::new_row(bytes) is Some,
    ensures
        ({
            let (fields, rest) = pgoutput::new_row(bytes).unwrap();
            &&& bytes == seq![0x4eu8] + encoding::tuple_bytes(fields) + rest
            &&& encoding::is_row(fields)
        }),
{
    let (fields, rest) = pgoutput::new_row(bytes).unwrap();
    lemma_byte(bytes);
    lemma_tuple(wire::byte(bytes).unwrap().1);
    assert(bytes =~= seq![0x4eu8] + encoding::tuple_bytes(fields) + rest);
}

proof fn lemma_old_row(bytes: Seq<u8>)
    requires
        pgoutput::old_row(bytes) is Some,
    ensures
        ({
            let (fields, rest) = pgoutput::old_row(bytes).unwrap();
            &&& bytes == seq![bytes[0]] + encoding::tuple_bytes(fields) + rest
            &&& bytes[0] == 0x4f || bytes[0] == 0x4b
            &&& encoding::is_row(fields)
        }),
{
    let (fields, rest) = pgoutput::old_row(bytes).unwrap();
    lemma_byte(bytes);
    lemma_tuple(wire::byte(bytes).unwrap().1);
    assert(bytes =~= seq![bytes[0]] + encoding::tuple_bytes(fields) + rest);
}

/// Whether bytes start with what the server writes for a relation message, with some replica
/// identity and some flags.
pub open spec fn relation_was_written(bytes: Seq<u8>, id: u32, relation: RelationModel) -> bool {
    exists|identity: u8, flags: Seq<u8>|
        #![trigger encoding::relation_message(id, relation, identity, flags)]
        flags.len() == relation.columns.len() && encoding::relation_message(
            id,
            relation,
            identity,
            flags,
        ).is_prefix_of(bytes)
}

/// Whether bytes start with what the server writes for a message.
pub open spec fn was_written(bytes: Seq<u8>, message: MessageModel) -> bool {
    match message {
        MessageModel::Begin => bytes.len() > 0 && bytes[0] == 0x42,
        MessageModel::Commit => bytes.len() > 0 && bytes[0] == 0x43,
        MessageModel::Relation { id, relation } => relation_was_written(bytes, id, relation),
        MessageModel::Insert { id, new } => {
            &&& encoding::is_row(new)
            &&& encoding::insert_message(id, new).is_prefix_of(bytes)
        },
        MessageModel::Update { id, old: None, new } => {
            &&& encoding::is_row(new)
            &&& encoding::update_message(id, new).is_prefix_of(bytes)
        },
        MessageModel::Update { id, old: Some(old), new } => {
            &&& encoding::is_row(old)
            &&& encoding::is_row(new)
            &&& encoding::full_update_message(id, 0x4f, old, new).is_prefix_of(bytes)
                || encoding::full_update_message(id, 0x4b, old, new).is_prefix_of(bytes)
        },
        MessageModel::Delete { id, old } => {
            &&& encoding::is_row(old)
            &&& encoding::delete_message(id, 0x4f, old).is_prefix_of(bytes)
                || encoding::delete_message(id, 0x4b, old).is_prefix_of(bytes)
        },
    }
}

/// Whether the names in a message hold no NUL characters and the numbers of columns and the
/// lengths of texts fit their places.
pub open spec fn can_be_written(message: MessageModel) -> bool {
    match message {
        MessageModel::Relation { relation, .. } => encoding::is_relation(relation),
        MessageModel::Insert { new, .. } => encoding::is_row(new),
        MessageModel::Update { old, new, .. } => {
            &&& old matches Some(fields) ==> encoding::is_row(fields)
            &&& encoding::is_row(new)
        },
        MessageModel::Delete { old, .. } => encoding::is_row(old),
        _ => true,
    }
}

proof fn lemma_prefix(whole: Seq<u8>, part: Seq<u8>, rest: Seq<u8>)
    requires
        whole == part + rest,
    ensures
        part.is_prefix_of(whole),
{
    assert(whole.subrange(0, part.len() as int) =~= part);
}

/// What stands behind a part at the front.
proof fn lemma_behind(whole: Seq<u8>, part: Seq<u8>) -> (rest: Seq<u8>)
    requires
        part.is_prefix_of(whole),
    ensures
        whole == part + rest,
{
    let rest = whole.skip(part.len() as int);
    assert(whole =~= part + rest);
    rest
}

/// Writes a relation message part by part.
proof fn lemma_relation_assembled(
    bytes: Seq<u8>,
    id: u32,
    relation: RelationModel,
    identity: u8,
    flags: Seq<u8>,
    rest: Seq<u8>,
    parts: (Seq<u8>, Seq<u8>, Seq<u8>, Seq<u8>, Seq<u8>, Seq<u8>),
)
    requires
        flags.len() == relation.columns.len(),
        bytes == seq![0x52u8] + parts.0,
        parts.0 == encoding::long_bytes(id) + parts.1,
        parts.1 == encoding::name_bytes(relation.schema_name) + parts.2,
        parts.2 == encoding::name_bytes(relation.table_name) + parts.3,
        parts.3 == seq![identity] + parts.4,
        parts.4 == encoding::short_bytes(relation.columns.len() as u16) + parts.5,
        parts.5 == encoding::column_list_bytes(relation.columns, flags) + rest,
    ensures
        relation_was_written(bytes, id, relation),
{
    encoding::lemma_relation_regrouped(id, relation, identity, flags, rest);
    lemma_prefix(bytes, encoding::relation_message(id, relation, identity, flags), rest);
}

/// The columns of a relation message, with their number in front.
proof fn lemma_columns(bytes: Seq<u8>) -> (flags: Seq<u8>)
    requires
        pgoutput::columns(bytes) is Some,
    ensures
        ({
            let (columns, rest) = pgoutput::columns(bytes).unwrap();
            &&& flags.len() == columns.len()
            &&& columns.len() <= u16::MAX
            &&& are_named(columns)
            &&& bytes == encoding::short_bytes(columns.len() as u16) + (encoding::column_list_bytes(
                columns,
                flags,
            ) + rest)
        }),
{
    lemma_short(bytes);
    let (count, behind) = wire::short(bytes).unwrap();
    lemma_column_list(count as nat, behind)
}

proof fn lemma_written_relation(body: Seq<u8>)
    ensures
        pgoutput::relation_body(body) matches Some(message) ==> was_written(
            seq![0x52u8] + body,
            message,
        ) && can_be_written(message),
{
    if let Some(MessageModel::Relation { id, relation }) = pgoutput::relation_body(body) {
        let b1 = wire::long(body).unwrap().1;
        let b2 = wire::name(b1).unwrap().1;
        let b3 = wire::name(b2).unwrap().1;
        let (identity, b4) = wire::byte(b3).unwrap();
        let (columns, rest) = pgoutput::columns(b4).unwrap();
        lemma_long(body);
        lemma_name(b1);
        lemma_name(b2);
        lemma_byte(b3);
        let flags = lemma_columns(b4);
        let b5 = encoding::column_list_bytes(columns, flags) + rest;
        lemma_relation_assembled(
            seq![0x52u8] + body,
            id,
            relation,
            identity,
            flags,
            rest,
            (body, b1, b2, b3, b4, b5),
        );
    }
}

/// A message that ends in one row.
proof fn lemma_row_assembled(kind: u8, id: u32, mark: u8, fields: Seq<FieldModel>, rest: Seq<u8>)
    ensures
        (seq![kind] + encoding::long_bytes(id) + seq![mark] + encoding::tuple_bytes(
            fields,
        )).is_prefix_of(
            seq![kind] + (encoding::long_bytes(id) + (seq![mark] + encoding::tuple_bytes(fields)
                + rest)),
        ),
{
    let front = seq![kind] + encoding::long_bytes(id);
    let row = seq![mark] + encoding::tuple_bytes(fields);
    let whole = seq![kind] + (encoding::long_bytes(id) + (row + rest));
    let part = front + seq![mark] + encoding::tuple_bytes(fields);
    encoding::lemma_regroup(seq![kind], encoding::long_bytes(id), row + rest);
    encoding::lemma_regroup(front, row, rest);
    encoding::lemma_regroup(front, seq![mark], encoding::tuple_bytes(fields));
    lemma_prefix(whole, part, rest);
}

/// An update message with both rows.
proof fn lemma_rows_assembled(
    id: u32,
    mark: u8,
    old_fields: Seq<FieldModel>,
    new_fields: Seq<FieldModel>,
    rest: Seq<u8>,
)
    ensures
        encoding::full_update_message(id, mark, old_fields, new_fields).is_prefix_of(
            seq![0x55u8] + (encoding::long_bytes(id) + (seq![mark] + encoding::tuple_bytes(
                old_fields,
            ) + (seq![0x4eu8] + encoding::tuple_bytes(new_fields) + rest))),
        ),
{
    let kind = seq![0x55u8];
    let old_tuple = encoding::tuple_bytes(old_fields);
    let new_tuple = encoding::tuple_bytes(new_fields);
    let old_row = seq![mark] + old_tuple;
    let new_row = seq![0x4eu8] + new_tuple;
    let rows = old_row + (new_row + rest);
    let front = kind + encoding::long_bytes(id);
    let before_new = front + seq![mark] + old_tuple;
    encoding::lemma_regroup(kind, encoding::long_bytes(id), rows);
    encoding::lemma_regroup(front, old_row, new_row + rest);
    encoding::lemma_regroup(front, seq![mark], old_tuple);
    encoding::lemma_regroup(before_new, new_row, rest);
    encoding::lemma_regroup(before_new, seq![0x4eu8], new_tuple);
    lemma_prefix(
        kind + (encoding::long_bytes(id) + rows),
        encoding::full_update_message(id, mark, old_fields, new_fields),
        rest,
    );
}

proof fn lemma_written_insert(body: Seq<u8>)
    ensures
        pgoutput::insert_body(body) matches Some(message) ==> was_written(
            seq![0x49u8] + body,
            message,
        ) && can_be_written(message),
{
    if let Some(MessageModel::Insert { id, new }) = pgoutput::insert_body(body) {
        let b1 = wire::long(body).unwrap().1;
        lemma_long(body);
        lemma_new_row(b1);
        lemma_row_assembled(0x49u8, id, 0x4eu8, new, pgoutput::new_row(b1).unwrap().1);
    }
}

proof fn lemma_written_update(body: Seq<u8>)
    ensures
        pgoutput::update_body(body) matches Some(message) ==> was_written(
            seq![0x55u8] + body,
            message,
        ) && can_be_written(message),
{
    if let Some(MessageModel::Update { id, old, new }) = pgoutput::update_body(body) {
        let b1 = wire::long(body).unwrap().1;
        lemma_long(body);
        if old is None {
            lemma_new_row(b1);
            lemma_row_assembled(0x55u8, id, 0x4eu8, new, pgoutput::new_row(b1).unwrap().1);
        } else {
            lemma_old_row(b1);
            let (before, b2) = pgoutput::old_row(b1).unwrap();
            lemma_new_row(b2);
            lemma_rows_assembled(id, b1[0], before, new, pgoutput::new_row(b2).unwrap().1);
        }
    }
}

proof fn lemma_written_delete(body: Seq<u8>)
    ensures
        pgoutput::delete_body(body) matches Some(message) ==> was_written(
            seq![0x44u8] + body,
            message,
        ) && can_be_written(message),
{
    if let Some(MessageModel::Delete { id, old }) = pgoutput::delete_body(body) {
        let b1 = wire::long(body).unwrap().1;
        lemma_long(body);
        lemma_old_row(b1);
        lemma_row_assembled(0x44u8, id, b1[0], old, pgoutput::old_row(b1).unwrap().1);
    }
}

/// Whatever is read as a message was written as that message; so bytes that start with no message
/// are read as none.
pub proof fn law_only_messages_are_read(bytes: Seq<u8>)
    ensures
        pgoutput::message(bytes) matches Some(message) ==> was_written(bytes, message)
            && can_be_written(message),
{
    if pgoutput::message(bytes) is Some {
        let body = wire::byte(bytes).unwrap().1;
        lemma_byte(bytes);
        lemma_written_relation(body);
        lemma_written_insert(body);
        lemma_written_update(body);
        lemma_written_delete(body);
    }
}

/// Whatever was written as a message is read as that message.
pub proof fn law_written_messages_are_read(bytes: Seq<u8>, message: MessageModel)
    requires
        was_written(bytes, message),
        can_be_written(message),
    ensures
        pgoutput::message(bytes) == Some(message),
{
    match message {
        MessageModel::Relation { id, relation } => {
            let (identity, flags) = choose|identity: u8, flags: Seq<u8>|
                #![trigger encoding::relation_message(id, relation, identity, flags)]
                flags.len() == relation.columns.len() && encoding::relation_message(
                    id,
                    relation,
                    identity,
                    flags,
                ).is_prefix_of(bytes);
            let part = encoding::relation_message(id, relation, identity, flags);
            let rest = lemma_behind(bytes, part);
            encoding::law_relation_message(id, relation, identity, flags, rest);
        },
        MessageModel::Insert { id, new } => {
            let part = encoding::insert_message(id, new);
            let rest = lemma_behind(bytes, part);
            encoding::law_insert_message(id, new, rest);
        },
        MessageModel::Update { id, old, new } => {
            if let Some(before) = old {
                let kind: u8 = if encoding::full_update_message(id, 0x4f, before, new).is_prefix_of(
                    bytes,
                ) {
                    0x4f
                } else {
                    0x4b
                };
                let part = encoding::full_update_message(id, kind, before, new);
                let rest = lemma_behind(bytes, part);
                encoding::law_full_update_message(id, kind, before, new, rest);
            } else {
                let part = encoding::update_message(id, new);
                let rest = lemma_behind(bytes, part);
                encoding::law_update_message(id, new, rest);
            }
        },
        MessageModel::Delete { id, old } => {
            let kind: u8 = if encoding::delete_message(id, 0x4f, old).is_prefix_of(bytes) {
                0x4f
            } else {
                0x4b
            };
            let part = encoding::delete_message(id, kind, old);
            let rest = lemma_behind(bytes, part);
            encoding::law_delete_message(id, kind, old, rest);
        },
        _ => {},
    }
}

/// The first byte alone tells the start and the end of a transaction.
pub proof fn law_transaction_marks(bytes: Seq<u8>)
    requires
        bytes.len() > 0,
    ensures
        bytes[0] == 0x42 <==> pgoutput::message(bytes) == Some(MessageModel::Begin),
        bytes[0] == 0x43 <==> pgoutput::message(bytes) == Some(MessageModel::Commit),
{
    law_only_messages_are_read(bytes);
}

/// Whether fields that were read are those that were sent.
pub open spec fn same_fields(read: Seq<Field>, sent: Seq<FieldModel>) -> bool {
    &&& read.len() == sent.len()
    &&& forall|i: int|
        0 <= i < sent.len() ==> match #[trigger] sent[i] {
            FieldModel::Null => read[i] is Null,
            FieldModel::Unchanged => read[i] is Unchanged,
            FieldModel::Text(text) => read[i] matches Field::Text(bytes) && bytes@ == text,
        }
}

/// Whether columns that were read are those that were sent.
pub open spec fn same_columns(read: Seq<ColumnInfo>, sent: Seq<ColumnModel>) -> bool {
    &&& read.len() == sent.len()
    &&& forall|i: int|
        0 <= i < sent.len() ==> {
            &&& read[i].name@ == (#[trigger] sent[i]).name
            &&& read[i].type_id == sent[i].type_id
            &&& read[i].type_modifier == sent[i].type_modifier
        }
}

/// Whether a message that was read is the one that was sent.
pub open spec fn same_message(read: Message, sent: MessageModel) -> bool {
    match sent {
        MessageModel::Begin => read is Begin,
        MessageModel::Commit => read is Commit,
        MessageModel::Relation { id, relation } => {
            &&& read matches Message::Relation { id: given, relation: table }
            &&& given == id
            &&& table.schema_name@ == relation.schema_name
            &&& table.table_name@ == relation.table_name
            &&& same_columns(table.columns@, relation.columns)
        },
        MessageModel::Insert { id, new } => {
            &&& read matches Message::Insert { id: given, new: fields }
            &&& given == id
            &&& same_fields(fields@, new)
        },
        MessageModel::Update { id, old, new } => {
            &&& read matches Message::Update { id: given, old: before, new: after }
            &&& given == id
            &&& match old {
                Some(fields) => before is Some && same_fields(before.unwrap()@, fields),
                None => before is None,
            }
            &&& same_fields(after@, new)
        },
        MessageModel::Delete { id, old } => {
            &&& read matches Message::Delete { id: given, old: fields }
            &&& given == id
            &&& same_fields(fields@, old)
        },
    }
}

proof fn lemma_same_fields(read: Seq<Field>)
    ensures
        same_fields(read, pgoutput::field_models(read)),
{
    let sent = pgoutput::field_models(read);
    assert forall|i: int| 0 <= i < sent.len() implies match #[trigger] sent[i] {
        FieldModel::Null => read[i] is Null,
        FieldModel::Unchanged => read[i] is Unchanged,
        FieldModel::Text(text) => read[i] matches Field::Text(bytes) && bytes@ == text,
    } by {
        assert(sent[i] == read[i]@);
    }
}

/// A message stands for what it holds.
pub proof fn law_message_model(read: Message)
    ensures
        same_message(read, read@),
{
    match read {
        Message::Relation { id, relation } => {
            let sent = wal_event::column_models(relation.columns@);
            assert forall|i: int| 0 <= i < sent.len() implies {
                &&& relation.columns@[i].name@ == (#[trigger] sent[i]).name
                &&& relation.columns@[i].type_id == sent[i].type_id
                &&& relation.columns@[i].type_modifier == sent[i].type_modifier
            } by {
                assert(sent[i] == relation.columns@[i]@);
            }
        },
        Message::Insert { id, new } => {
            lemma_same_fields(new@);
        },
        Message::Update { id, old, new } => {
            if let Some(fields) = old {
                lemma_same_fields(fields@);
            }
            lemma_same_fields(new@);
        },
        Message::Delete { id, old } => {
            lemma_same_fields(old@);
        },
        _ => {},
    }
}

/// Parsing bytes that start with a message gives that message, and parsing gives a message only
/// where the bytes start with it.
pub proof fn law_parsing(data: &[u8], read: Option<Message>, sent: MessageModel)
    requires
        call_ensures(parse_message, (data,), read),
    ensures
        was_written(data@, sent) && can_be_written(sent) ==> read is Some && same_message(
            read.unwrap(),
            sent,
        ),
        read is Some ==> {
            &&& was_written(data@, read.unwrap()@)
            &&& can_be_written(read.unwrap()@)
            &&& same_message(read.unwrap(), read.unwrap()@)
        },
{
    if was_written(data@, sent) && can_be_written(sent) {
        law_written_messages_are_read(data@, sent);
    }
    if read is Some {
        law_message_model(read.unwrap());
        law_only_messages_are_read(data@);
    }
}

/// The table of a row message, or of a relation message, is named by the four bytes behind the
/// kind, the highest first. Behind them a row message has `N` before a new row, or `O` or `K`
/// before an old one, and then the number of the row's values in two bytes, the higher first.
pub proof fn law_numbers_in_messages(data: &[u8], read: Option<Message>)
    requires
        call_ensures(parse_message, (data,), read),
        read is Some,
        !(read.unwrap() is Begin),
        !(read.unwrap() is Commit),
    ensures
        ({
            let bytes = data@;
            let id = bytes[1] * 0x100_0000 + bytes[2] * 0x1_0000 + bytes[3] * 0x100 + bytes[4];
            let count = bytes[6] * 0x100 + bytes[7];
            &&& bytes.len() > 5
            &&& match read.unwrap() {
                Message::Relation { id: given, .. } => bytes[0] == 0x52 && given == id,
                Message::Insert { id: given, new } => {
                    &&& bytes[0] == 0x49
                    &&& given == id
                    &&& bytes[5] == 0x4e
                    &&& new@.len() == count
                },
                Message::Update { id: given, old, new } => {
                    &&& bytes[0] == 0x55
                    &&& given == id
                    &&& old is None <==> bytes[5] == 0x4e
                    &&& old is Some <==> bytes[5] == 0x4f || bytes[5] == 0x4b
                    &&& (if old is Some {
                        old.unwrap()@
                    } else {
                        new@
                    }).len() == count
                },
                Message::Delete { id: given, old } => {
                    &&& bytes[0] == 0x44
                    &&& given == id
                    &&& bytes[5] == 0x4f || bytes[5] == 0x4b
                    &&& old@.len() == count
                },
                _ => false,
            }
        }),
{
    let body = data@.skip(1);
    let rows = body.skip(4);
    let row = rows.skip(1);
    law_message_model(read.unwrap());
    assert(wire::long(body) is Some);
    assert(rows.len() > 0);
    assert(rows[0] == data@[5]);
    if pgoutput::tuple(row) is Some {
        assert(row[0] == data@[6] && row[1] == data@[7]);
        lemma_field_list(wire::short(row).unwrap().0 as nat, row.skip(2));
    }
}

/// Parsing the body of a message gives what parsing the whole message gives: both the same
/// message, or both none.
pub proof fn law_bodies(
    data: &[u8],
    whole: Option<Message>,
    body: &[u8],
    relation: Option<Message>,
    insert: Option<Message>,
    update: Option<Message>,
    delete: Option<Message>,
)
    requires
        call_ensures(parse_message, (data,), whole),
        call_ensures(parse_relation_message, (body,), relation),
        call_ensures(parse_insert_message, (body,), insert),
        call_ensures(parse_update_message, (body,), update),
        call_ensures(parse_delete_message, (body,), delete),
        data@.len() > 0,
        body@ == data@.skip(1),
    ensures
        ({
            let part = if data@[0] == 0x52 {
                relation
            } else if data@[0] == 0x49 {
                insert
            } else if data@[0] == 0x55 {
                update
            } else {
                delete
            };
            data@[0] == 0x52 || data@[0] == 0x49 || data@[0] == 0x55 || data@[0] == 0x44 ==> {
                &&& whole is Some <==> part is Some
                &&& whole is Some ==> same_message(whole.unwrap(), part.unwrap()@) && same_message(
                    part.unwrap(),
                    part.unwrap()@,
                )
            }
        }),
{
    if whole is Some {
        law_message_model(whole.unwrap());
    }
    let part = if data@[0] == 0x52 {
        relation
    } else if data@[0] == 0x49 {
        insert
    } else if data@[0] == 0x55 {
        update
    } else {
        delete
    };
    if part is Some {
        law_message_model(part.unwrap());
    }
}

} // verus!
