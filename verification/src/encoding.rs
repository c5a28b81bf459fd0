//! How the server writes the messages that [`crate::pgoutput`] reads, and the proof that reading
//! gives back what was written.
use crate::pgoutput;
use crate::pgoutput::{FieldModel, MessageModel, RelationModel};
use crate::wal_event::ColumnModel;
use crate::wire;
use vstd::prelude::*;

verus! {

/// A number as two bytes, the higher one first.
pub open spec fn short_bytes(n: u16) -> Seq<u8> {
    seq![(n / 0x100) as u8, (n % 0x100) as u8]
}

/// A number as four bytes, the highest one first.
pub open spec fn long_bytes(n: u32) -> Seq<u8> {
    seq![
        (n / 0x100_0000) as u8,
        (n / 0x1_0000 % 0x100) as u8,
        (n / 0x100 % 0x100) as u8,
        (n % 0x100) as u8,
    ]
}

/// The two's complement of a signed number.
pub open spec fn complement(n: i32) -> u32 {
    if n >= 0 {
        n as u32
    } else {
        (n + 0x1_0000_0000) as u32
    }
}

/// A text as UTF-8 with a zero byte behind it.
pub open spec fn name_bytes(name: Seq<char>) -> Seq<u8> {
    vstd::utf8::encode_utf8(name).push(0)
}

/// A text can be written as a name if it holds no NUL character.
pub open spec fn is_name(name: Seq<char>) -> bool {
    forall|i: int| 0 <= i < name.len() ==> #[trigger] name[i] != '\0'
}

/// The description of a column, with any byte of flags.
pub open spec fn column_bytes(column: ColumnModel, flags: u8) -> Seq<u8> {
    seq![flags] + name_bytes(column.name) + long_bytes(column.type_id) + long_bytes(
        complement(column.type_modifier),
    )
}

/// The descriptions of columns, one behind the other.
pub open spec fn column_list_bytes(columns: Seq<ColumnModel>, flags: Seq<u8>) -> Seq<u8>
    decreases columns.len(),
{
    if columns.len() == 0 {
        Seq::empty()
    } else {
        column_bytes(columns[0], flags[0]) + column_list_bytes(columns.skip(1), flags.skip(1))
    }
}

/// A value of a row: `n` for a NULL, `u` for a value that is not sent, and `t`, the length and the
/// bytes for a text.
pub open spec fn field_bytes(field: FieldModel) -> Seq<u8> {
    match field {
        FieldModel::Null => seq![0x6eu8],
        FieldModel::Unchanged => seq![0x75u8],
        FieldModel::Text(text) => seq![0x74u8] + long_bytes(text.len() as u32) + text,
    }
}

/// The values of a row, one behind the other.
pub open spec fn field_list_bytes(fields: Seq<FieldModel>) -> Seq<u8>
    decreases fields.len(),
{
    if fields.len() == 0 {
        Seq::empty()
    } else {
        field_bytes(fields[0]) + field_list_bytes(fields.skip(1))
    }
}

/// A row: the number of its values, and the values.
pub open spec fn tuple_bytes(fields: Seq<FieldModel>) -> Seq<u8> {
    short_bytes(fields.len() as u16) + field_list_bytes(fields)
}

/// A row can be written if the number of its values and the lengths of its texts fit their
/// places.
pub open spec fn is_row(fields: Seq<FieldModel>) -> bool {
    &&& fields.len() <= u16::MAX
    &&& forall|i: int|
        0 <= i < fields.len() ==> (#[trigger] fields[i] matches FieldModel::Text(text) ==> text.len()
            <= u32::MAX)
}

/// A table can be described if its names can be written and the number of its columns fits its
/// place.
pub open spec fn is_relation(relation: RelationModel) -> bool {
    &&& is_name(relation.schema_name)
    &&& is_name(relation.table_name)
    &&& relation.columns.len() <= u16::MAX
    &&& forall|i: int|
        0 <= i < relation.columns.len() ==> is_name((#[trigger] relation.columns[i]).name)
}

/// A relation message, which starts with `R`, with any replica identity and any flags of the
/// columns.
pub open spec fn relation_message(
    id: u32,
    relation: RelationModel,
    replica_identity: u8,
    flags: Seq<u8>,
) -> Seq<u8> {
    seq![0x52u8] + long_bytes(id) + name_bytes(relation.schema_name) + name_bytes(
        relation.table_name,
    ) + seq![replica_identity] + short_bytes(relation.columns.len() as u16) + column_list_bytes(
        relation.columns,
        flags,
    )
}

/// An insert message, which starts with `I`; `N` announces the new row.
pub open spec fn insert_message(id: u32, new: Seq<FieldModel>) -> Seq<u8> {
    seq![0x49u8] + long_bytes(id) + seq![0x4eu8] + tuple_bytes(new)
}

/// An update message, which starts with `U`, that carries the new row alone.
pub open spec fn update_message(id: u32, new: Seq<FieldModel>) -> Seq<u8> {
    seq![0x55u8] + long_bytes(id) + seq![0x4eu8] + tuple_bytes(new)
}

/// An update message that carries the old row, or its key, and the new row.
pub open spec fn full_update_message(
    id: u32,
    old_kind: u8,
    old: Seq<FieldModel>,
    new: Seq<FieldModel>,
) -> Seq<u8> {
    seq![0x55u8] + long_bytes(id) + seq![old_kind] + tuple_bytes(old)
        + seq![0x4eu8] + tuple_bytes(new)
}

/// A delete message, which carries the old row or its key.
pub open spec fn delete_message(id: u32, old_kind: u8, old: Seq<FieldModel>) -> Seq<u8> {
    seq![0x44u8] + long_bytes(id) + seq![old_kind] + tuple_bytes(old)
}

pub(crate) proof fn lemma_regroup(a: Seq<u8>, b: Seq<u8>, c: Seq<u8>)
    ensures
        (a + b) + c == a + (b + c),
{
    assert((a + b) + c =~= a + (b + c));
}

pub(crate) proof fn lemma_byte(b: u8, rest: Seq<u8>)
    ensures
        wire::byte(seq![b] + rest) == Some((b, rest)),
{
    assert((seq![b] + rest).skip(1) =~= rest);
}

proof fn lemma_short(n: u16, rest: Seq<u8>)
    ensures
        wire::short(short_bytes(n) + rest) == Some((n, rest)),
{
    assert((short_bytes(n) + rest).skip(2) =~= rest);
    assert((n / 0x100) as u8 * 0x100 + (n % 0x100) as u8 == n);
}

pub(crate) proof fn lemma_long(n: u32, rest: Seq<u8>)
    ensures
        wire::long(long_bytes(n) + rest) == Some((n, rest)),
{
    let bytes = long_bytes(n) + rest;
    assert(bytes.skip(4) =~= rest);
    assert(n / 0x100_0000 < 0x100);
    assert((n / 0x100_0000) * 0x100_0000 + (n / 0x1_0000 % 0x100) * 0x1_0000 + (n / 0x100 % 0x100)
        * 0x100 + n % 0x100 == n);
}

proof fn lemma_signed(n: i32)
    ensures
        wire::signed(complement(n)) == n,
{
}

/// The bytes of one character are not zero, unless it is the NUL character, and never above the
/// bytes that UTF-8 uses.
proof fn lemma_char_bytes(character: char)
    requires
        character != '\0',
    ensures
        forall|i: int|
            0 <= i < vstd::utf8::encode_scalar(character as u32).len() ==> 0
                < #[trigger] vstd::utf8::encode_scalar(character as u32)[i] < 0xF8,
{
    let c = character as u32;
    assert(0 < c <= 0x7F ==> 0 < (c & 0x7F) as u8 && (c & 0x7F) as u8 <= 0x7F) by (bit_vector);
    assert(0xC0 <= (0xC0u8 | ((c >> 6) & 0x1F) as u8) < 0xF8) by (bit_vector);
    assert(0xE0 <= (0xE0u8 | ((c >> 12) & 0x0F) as u8) < 0xF8) by (bit_vector);
    assert(0xF0 <= (0xF0u8 | ((c >> 18) & 0x7) as u8) < 0xF8) by (bit_vector);
    assert(0x80 <= (0x80u8 | (c & 0x3F) as u8) < 0xF8) by (bit_vector);
    assert(0x80 <= (0x80u8 | ((c >> 6) & 0x3F) as u8) < 0xF8) by (bit_vector);
    assert(0x80 <= (0x80u8 | ((c >> 12) & 0x3F) as u8) < 0xF8) by (bit_vector);
}

/// UTF-8 of a text without NUL characters has no zero byte and no byte 255.
pub proof fn lemma_utf8_bytes(text: Seq<char>)
    requires
        is_name(text),
    ensures
        forall|i: int|
            0 <= i < vstd::utf8::encode_utf8(text).len() ==> 0
                < #[trigger] vstd::utf8::encode_utf8(text)[i] < 0xF8,
    decreases text.len(),
{
    if text.len() > 0 {
        let c = text[0];
        lemma_char_bytes(c);
        let rest = text.drop_first();
        assert forall|i: int| 0 <= i < rest.len() implies #[trigger] rest[i] != '\0' by {
            assert(text[i + 1] != '\0');
        }
        lemma_utf8_bytes(rest);
        let first = vstd::utf8::encode_scalar(c as u32);
        let bytes = vstd::utf8::encode_utf8(text);
        assert forall|i: int| 0 <= i < bytes.len() implies 0 < #[trigger] bytes[i] < 0xF8 by {
            if i >= first.len() {
                assert(bytes[i] == vstd::utf8::encode_utf8(rest)[i - first.len()]);
            }
        }
    }
}

proof fn lemma_name(name: Seq<char>, rest: Seq<u8>)
    requires
        is_name(name),
    ensures
        wire::name(name_bytes(name) + rest) == Some((name, rest)),
{
    let text = vstd::utf8::encode_utf8(name);
    let bytes = name_bytes(name) + rest;
    lemma_utf8_bytes(name);
    assert forall|i: int| 0 <= i < text.len() implies bytes[i] != 0 by {
        assert(bytes[i] == text[i]);
    }
    wire::lemma_zero_free_len(bytes, text.len() as int);
    assert(bytes.take(text.len() as int) =~= text);
    assert(bytes.skip(text.len() as int + 1) =~= rest);
    vstd::utf8::encode_utf8_valid_utf8(name);
    vstd::utf8::encode_utf8_decode_utf8(name);
}

proof fn lemma_column(column: ColumnModel, flags: u8, rest: Seq<u8>)
    requires
        is_name(column.name),
    ensures
        pgoutput::column(column_bytes(column, flags) + rest) == Some((column, rest)),
{
    let modifier = long_bytes(complement(column.type_modifier));
    let behind_type = modifier + rest;
    let behind_name = long_bytes(column.type_id) + behind_type;
    let behind_flags = name_bytes(column.name) + behind_name;
    assert(column_bytes(column, flags) + rest =~= seq![flags] + behind_flags);
    lemma_byte(flags, behind_flags);
    lemma_name(column.name, behind_name);
    lemma_long(column.type_id, behind_type);
    lemma_long(complement(column.type_modifier), rest);
    lemma_signed(column.type_modifier);
}

proof fn lemma_column_list(columns: Seq<ColumnModel>, flags: Seq<u8>, rest: Seq<u8>)
    requires
        flags.len() == columns.len(),
        forall|i: int| 0 <= i < columns.len() ==> is_name((#[trigger] columns[i]).name),
    ensures
        wire::repeated(
            pgoutput::column_reader(),
            columns.len(),
            column_list_bytes(columns, flags) + rest,
        ) == Some((columns, rest)),
    decreases columns.len(),
{
    if columns.len() == 0 {
        assert(column_list_bytes(columns, flags) + rest =~= rest);
        assert(columns =~= Seq::empty());
    } else {
        let others = columns.skip(1);
        let tail = column_list_bytes(others, flags.skip(1)) + rest;
        assert forall|i: int| 0 <= i < others.len() implies is_name((#[trigger] others[i]).name) by {
            assert(others[i] == columns[i + 1]);
        }
        assert(column_list_bytes(columns, flags) + rest =~= column_bytes(columns[0], flags[0])
            + tail);
        lemma_column(columns[0], flags[0], tail);
        lemma_column_list(others, flags.skip(1), rest);
        assert(seq![columns[0]] + others =~= columns);
    }
}

proof fn lemma_field(field: FieldModel, rest: Seq<u8>)
    requires
        field matches FieldModel::Text(text) ==> text.len() <= u32::MAX,
    ensures
        pgoutput::field(field_bytes(field) + rest) == Some((field, rest)),
{
    match field {
        FieldModel::Null => {
            lemma_byte(0x6eu8, rest);
        },
        FieldModel::Unchanged => {
            lemma_byte(0x75u8, rest);
        },
        FieldModel::Text(text) => {
            let behind_len = text + rest;
            let behind_kind = long_bytes(text.len() as u32) + behind_len;
            assert(field_bytes(field) + rest =~= seq![0x74u8] + behind_kind);
            lemma_byte(0x74u8, behind_kind);
            lemma_long(text.len() as u32, behind_len);
            assert(behind_len.take(text.len() as int) =~= text);
            assert(behind_len.skip(text.len() as int) =~= rest);
        },
    }
}

proof fn lemma_field_list(fields: Seq<FieldModel>, rest: Seq<u8>)
    requires
        forall|i: int|
            0 <= i < fields.len() ==> (#[trigger] fields[i] matches FieldModel::Text(text)
                ==> text.len() <= u32::MAX),
    ensures
        wire::repeated(pgoutput::field_reader(), fields.len(), field_list_bytes(fields) + rest)
            == Some((fields, rest)),
    decreases fields.len(),
{
    if fields.len() == 0 {
        assert(field_list_bytes(fields) + rest =~= rest);
        assert(fields =~= Seq::empty());
    } else {
        let others = fields.skip(1);
        let tail = field_list_bytes(others) + rest;
        assert forall|i: int| 0 <= i < others.len() implies (
        #[trigger] others[i] matches FieldModel::Text(text) ==> text.len() <= u32::MAX) by {
            assert(others[i] == fields[i + 1]);
        }
        assert(field_list_bytes(fields) + rest =~= field_bytes(fields[0]) + tail);
        lemma_field(fields[0], tail);
        lemma_field_list(others, rest);
        assert(seq![fields[0]] + others =~= fields);
    }
}

proof fn lemma_tuple(fields: Seq<FieldModel>, rest: Seq<u8>)
    requires
        is_row(fields),
    ensures
        pgoutput::tuple(tuple_bytes(fields) + rest) == Some((fields, rest)),
{
    let list = field_list_bytes(fields) + rest;
    assert(tuple_bytes(fields) + rest =~= short_bytes(fields.len() as u16) + list);
    lemma_short(fields.len() as u16, list);
    lemma_field_list(fields, rest);
}

pub(crate) proof fn lemma_new_row(fields: Seq<FieldModel>, rest: Seq<u8>)
    requires
        is_row(fields),
    ensures
        pgoutput::new_row(seq![0x4eu8] + (tuple_bytes(fields) + rest)) == Some(
            (fields, rest),
        ),
        pgoutput::old_row(seq![0x4eu8] + (tuple_bytes(fields) + rest)) is None,
{
    lemma_byte(0x4eu8, tuple_bytes(fields) + rest);
    lemma_tuple(fields, rest);
}

pub(crate) proof fn lemma_old_row(kind: u8, fields: Seq<FieldModel>, rest: Seq<u8>)
    requires
        is_row(fields),
        kind == 0x4fu8 || kind == 0x4bu8,
    ensures
        pgoutput::old_row(seq![kind] + (tuple_bytes(fields) + rest)) == Some((fields, rest)),
{
    lemma_byte(kind, tuple_bytes(fields) + rest);
    lemma_tuple(fields, rest);
}

/// A relation message and the bytes behind it, part by part.
pub(crate) proof fn lemma_relation_regrouped(
    id: u32,
    relation: RelationModel,
    replica_identity: u8,
    flags: Seq<u8>,
    rest: Seq<u8>,
)
    ensures
        relation_message(id, relation, replica_identity, flags) + rest == seq![0x52u8] + (
        long_bytes(id) + (name_bytes(relation.schema_name) + (name_bytes(relation.table_name) + (
        seq![replica_identity] + (short_bytes(relation.columns.len() as u16) + (column_list_bytes(
            relation.columns,
            flags,
        ) + rest)))))),
{
    let list = column_list_bytes(relation.columns, flags) + rest;
    let count = short_bytes(relation.columns.len() as u16) + list;
    let identity = seq![replica_identity] + count;
    let table = name_bytes(relation.table_name) + identity;
    let schema = name_bytes(relation.schema_name) + table;
    let kind = seq![0x52u8];
    let before_schema = kind + long_bytes(id);
    let before_table = before_schema + name_bytes(relation.schema_name);
    let before_identity = before_table + name_bytes(relation.table_name);
    let before_count = before_identity + seq![replica_identity];
    let before_list = before_count + short_bytes(relation.columns.len() as u16);
    lemma_regroup(before_list, column_list_bytes(relation.columns, flags), rest);
    lemma_regroup(before_count, short_bytes(relation.columns.len() as u16), list);
    lemma_regroup(before_identity, seq![replica_identity], count);
    lemma_regroup(before_table, name_bytes(relation.table_name), identity);
    lemma_regroup(before_schema, name_bytes(relation.schema_name), table);
    lemma_regroup(kind, long_bytes(id), schema);
}

/// A relation message, taken apart.
pub(crate) proof fn lemma_relation_parts(
    id: u32,
    relation: RelationModel,
    replica_identity: u8,
    flags: Seq<u8>,
    rest: Seq<u8>,
)
    requires
        is_relation(relation),
        flags.len() == relation.columns.len(),
    ensures
        ({
            let list = column_list_bytes(relation.columns, flags) + rest;
            let count = short_bytes(relation.columns.len() as u16) + list;
            let identity = seq![replica_identity] + count;
            let table = name_bytes(relation.table_name) + identity;
            let schema = name_bytes(relation.schema_name) + table;
            let body = long_bytes(id) + schema;
            &&& wire::byte(relation_message(id, relation, replica_identity, flags) + rest) == Some(
                (0x52u8, body),
            )
            &&& wire::long(body) == Some((id, schema))
            &&& wire::name(schema) == Some((relation.schema_name, table))
            &&& wire::name(table) == Some((relation.table_name, identity))
            &&& wire::byte(identity) == Some((replica_identity, count))
            &&& pgoutput::columns(count) == Some((relation.columns, rest))
        }),
{
    let list = column_list_bytes(relation.columns, flags) + rest;
    let count = short_bytes(relation.columns.len() as u16) + list;
    let identity = seq![replica_identity] + count;
    let table = name_bytes(relation.table_name) + identity;
    let schema = name_bytes(relation.schema_name) + table;
    let body = long_bytes(id) + schema;
    lemma_relation_regrouped(id, relation, replica_identity, flags, rest);
    lemma_byte(0x52u8, body);
    lemma_long(id, schema);
    lemma_name(relation.schema_name, table);
    lemma_name(relation.table_name, identity);
    lemma_byte(replica_identity, count);
    lemma_short(relation.columns.len() as u16, list);
    lemma_column_list(relation.columns, flags, rest);
}

/// Reading a relation message gives the id and the table that were written, whatever the replica
/// identity, the flags and the bytes behind the message are.
pub proof fn law_relation_message(
    id: u32,
    relation: RelationModel,
    replica_identity: u8,
    flags: Seq<u8>,
    rest: Seq<u8>,
)
    requires
        is_relation(relation),
        flags.len() == relation.columns.len(),
    ensures
        pgoutput::message(relation_message(id, relation, replica_identity, flags) + rest) == Some(
            MessageModel::Relation { id, relation },
        ),
{
    lemma_relation_parts(id, relation, replica_identity, flags, rest);
}

/// Reading an insert message gives the id and the row that were written.
pub proof fn law_insert_message(id: u32, new: Seq<FieldModel>, rest: Seq<u8>)
    requires
        is_row(new),
    ensures
        pgoutput::message(insert_message(id, new) + rest) == Some(MessageModel::Insert { id, new }),
{
    let row = seq![0x4eu8] + (tuple_bytes(new) + rest);
    let body = long_bytes(id) + row;
    assert(insert_message(id, new) + rest =~= seq![0x49u8] + body);
    lemma_byte(0x49u8, body);
    lemma_long(id, row);
    lemma_new_row(new, rest);
}

/// Reading an update message without an old row gives the id and the new row that were written,
/// and no old row.
pub proof fn law_update_message(id: u32, new: Seq<FieldModel>, rest: Seq<u8>)
    requires
        is_row(new),
    ensures
        pgoutput::message(update_message(id, new) + rest) == Some(
            MessageModel::Update { id, old: None, new },
        ),
{
    let row = seq![0x4eu8] + (tuple_bytes(new) + rest);
    let body = long_bytes(id) + row;
    assert(update_message(id, new) + rest =~= seq![0x55u8] + body);
    lemma_byte(0x55u8, body);
    lemma_long(id, row);
    lemma_new_row(new, rest);
}

/// An update message with an old row, taken apart.
pub(crate) proof fn lemma_full_update_body(
    id: u32,
    old_kind: u8,
    old: Seq<FieldModel>,
    new: Seq<FieldModel>,
    rest: Seq<u8>,
)
    ensures
        wire::byte(full_update_message(id, old_kind, old, new) + rest) == Some(
            (
                0x55u8,
                long_bytes(id) + (seq![old_kind] + (tuple_bytes(old) + (seq![0x4eu8] + (
                tuple_bytes(new) + rest)))),
            ),
        ),
{
    let new_part = seq![0x4eu8] + (tuple_bytes(new) + rest);
    let old_part = seq![old_kind] + (tuple_bytes(old) + new_part);
    let kind = seq![0x55u8];
    let before_old = kind + long_bytes(id);
    let before_old_tuple = before_old + seq![old_kind];
    let before_new = before_old_tuple + tuple_bytes(old);
    let before_new_tuple = before_new + seq![0x4eu8];
    lemma_regroup(before_new_tuple, tuple_bytes(new), rest);
    lemma_regroup(before_new, seq![0x4eu8], tuple_bytes(new) + rest);
    lemma_regroup(before_old_tuple, tuple_bytes(old), new_part);
    lemma_regroup(before_old, seq![old_kind], tuple_bytes(old) + new_part);
    lemma_regroup(kind, long_bytes(id), old_part);
    lemma_byte(0x55u8, long_bytes(id) + old_part);
}

/// Reading an update message with an old row gives the id and both rows that were written.
pub proof fn law_full_update_message(
    id: u32,
    old_kind: u8,
    old: Seq<FieldModel>,
    new: Seq<FieldModel>,
    rest: Seq<u8>,
)
    requires
        is_row(old),
        is_row(new),
        old_kind == 0x4fu8 || old_kind == 0x4bu8,
    ensures
        pgoutput::message(full_update_message(id, old_kind, old, new) + rest) == Some(
            MessageModel::Update { id, old: Some(old), new },
        ),
{
    let new_part = seq![0x4eu8] + (tuple_bytes(new) + rest);
    let old_part = seq![old_kind] + (tuple_bytes(old) + new_part);
    lemma_full_update_body(id, old_kind, old, new, rest);
    lemma_long(id, old_part);
    lemma_old_row(old_kind, old, new_part);
    lemma_new_row(new, rest);
}

/// Reading a delete message gives the id and the row that were written.
pub proof fn law_delete_message(id: u32, old_kind: u8, old: Seq<FieldModel>, rest: Seq<u8>)
    requires
        is_row(old),
        old_kind == 0x4fu8 || old_kind == 0x4bu8,
    ensures
        pgoutput::message(delete_message(id, old_kind, old) + rest) == Some(
            MessageModel::Delete { id, old },
        ),
{
    let row = seq![old_kind] + (tuple_bytes(old) + rest);
    let body = long_bytes(id) + row;
    assert(delete_message(id, old_kind, old) + rest =~= seq![0x44u8] + body);
    lemma_byte(0x44u8, body);
    lemma_long(id, row);
    lemma_old_row(old_kind, old, rest);
}

} // verus!
