//! The messages of PostgreSQL's `pgoutput` plugin that the library follows.
//!
//! A message starts with a byte for its kind. A relation message describes a table: an id of four
//! bytes, the schema and the table name, the replica identity, and for each column its flags,
//! name, type and type modifier. Row messages name the table by that id and carry one tuple or
//! two, each behind a byte that says which row it is.
use crate::wal_event;
use crate::wal_event::{ColumnInfo, ColumnModel};
use crate::wire;
use crate::wire::{
    read_block, read_byte, read_long, read_name, read_short, to_signed, Read,
};
use vstd::prelude::*;

verus! {

/// `B`: a transaction begins.
pub const BEGIN: u8 = 0x42;

/// `C`: a transaction is committed.
pub const COMMIT: u8 = 0x43;

/// `R`: a table is described.
pub const RELATION: u8 = 0x52;

/// `I`: a row was inserted.
pub const INSERT: u8 = 0x49;

/// `U`: a row was updated.
pub const UPDATE: u8 = 0x55;

/// `D`: a row was deleted.
pub const DELETE: u8 = 0x44;

/// `N`: the row after the change follows.
pub const NEW_ROW: u8 = 0x4e;

/// `O`: the row before the change follows.
pub const OLD_ROW: u8 = 0x4f;

/// `K`: the key of the row before the change follows.
pub const OLD_KEY: u8 = 0x4b;

/// `n`: a column is NULL.
pub const NULL_FIELD: u8 = 0x6e;

/// `u`: a column kept out of line did not change.
pub const UNCHANGED_FIELD: u8 = 0x75;

/// `t`: a column follows as text.
pub const TEXT_FIELD: u8 = 0x74;

/// A table as a relation message describes it.
#[derive(Debug)]
pub struct Relation {
    pub schema_name: String,
    pub table_name: String,
    pub columns: Vec<ColumnInfo>,
}

/// A column of a row.
#[derive(Debug)]
pub enum Field {
    /// The value is NULL.
    Null,
    /// The value is kept out of line, did not change and was not sent.
    Unchanged,
    /// The value, formatted as text.
    Text(Vec<u8>),
}

/// A message of the plugin.
#[derive(Debug)]
#[allow(inconsistent_fields)]
pub enum Message {
    Begin,
    Commit,
    Relation { id: u32, relation: Relation },
    Insert { id: u32, new: Vec<Field> },
    Update { id: u32, old: Option<Vec<Field>>, new: Vec<Field> },
    Delete { id: u32, old: Vec<Field> },
}

/// What a [`Relation`] stands for.
#[verifier::ext_equal]
pub struct RelationModel {
    pub schema_name: Seq<char>,
    pub table_name: Seq<char>,
    pub columns: Seq<ColumnModel>,
}

/// What a [`Field`] stands for.
#[verifier::ext_equal]
pub enum FieldModel {
    Null,
    Unchanged,
    Text(Seq<u8>),
}

/// What a [`Message`] stands for.
#[verifier::ext_equal]
#[allow(inconsistent_fields)]
pub enum MessageModel {
    Begin,
    Commit,
    Relation { id: u32, relation: RelationModel },
    Insert { id: u32, new: Seq<FieldModel> },
    Update { id: u32, old: Option<Seq<FieldModel>>, new: Seq<FieldModel> },
    Delete { id: u32, old: Seq<FieldModel> },
}

impl View for Relation {
    type V = RelationModel;

    open spec fn view(&self) -> RelationModel {
        RelationModel {
            schema_name: self.schema_name@,
            table_name: self.table_name@,
            columns: wal_event::column_models(self.columns@),
        }
    }
}

impl View for Field {
    type V = FieldModel;

    open spec fn view(&self) -> FieldModel {
        match self {
            Field::Null => FieldModel::Null,
            Field::Unchanged => FieldModel::Unchanged,
            Field::Text(bytes) => FieldModel::Text(bytes@),
        }
    }
}

/// The fields that `fields` hold.
pub open spec fn field_models(fields: Seq<Field>) -> Seq<FieldModel> {
    fields.map_values(|f: Field| f@)
}

impl View for Message {
    type V = MessageModel;

    open spec fn view(&self) -> MessageModel {
        match *self {
            Message::Begin => MessageModel::Begin,
            Message::Commit => MessageModel::Commit,
            Message::Relation { id, relation } => MessageModel::Relation {
                id,
                relation: relation@,
            },
            Message::Insert { id, new } => MessageModel::Insert { id, new: field_models(new@) },
            Message::Update { id, old, new } => MessageModel::Update {
                id,
                old: match old {
                    Some(fields) => Some(field_models(fields@)),
                    None => None,
                },
                new: field_models(new@),
            },
            Message::Delete { id, old } => MessageModel::Delete { id, old: field_models(old@) },
        }
    }
}

/// Reads the description of a column.
pub open spec fn column(bytes: Seq<u8>) -> Read<ColumnModel> {
    match wire::byte(bytes) {
        None => None,
        Some((_, bytes)) => match wire::name(bytes) {
            None => None,
            Some((name, bytes)) => match wire::long(bytes) {
                None => None,
                Some((type_id, bytes)) => match wire::long(bytes) {
                    None => None,
                    Some((modifier, rest)) => Some(
                        (
                            ColumnModel { name, type_id, type_modifier: wire::signed(modifier) },
                            rest,
                        ),
                    ),
                },
            },
        },
    }
}

/// [`column`] as a value.
pub open spec fn column_reader() -> spec_fn(Seq<u8>) -> Read<ColumnModel> {
    |bytes: Seq<u8>| column(bytes)
}

/// Reads a number of columns and their descriptions.
pub open spec fn columns(bytes: Seq<u8>) -> Read<Seq<ColumnModel>> {
    match wire::short(bytes) {
        None => None,
        Some((count, rest)) => wire::repeated(column_reader(), count as nat, rest),
    }
}

/// Reads a column of a row.
pub open spec fn field(bytes: Seq<u8>) -> Read<FieldModel> {
    match wire::byte(bytes) {
        None => None,
        Some((kind, bytes)) => if kind == NULL_FIELD {
            Some((FieldModel::Null, bytes))
        } else if kind == UNCHANGED_FIELD {
            Some((FieldModel::Unchanged, bytes))
        } else if kind == TEXT_FIELD {
            match wire::long(bytes) {
                None => None,
                Some((len, bytes)) => match wire::block(bytes, len as int) {
                    None => None,
                    Some((text, rest)) => Some((FieldModel::Text(text), rest)),
                },
            }
        } else {
            None
        },
    }
}

/// [`field`] as a value.
pub open spec fn field_reader() -> spec_fn(Seq<u8>) -> Read<FieldModel> {
    |bytes: Seq<u8>| field(bytes)
}

/// Reads a tuple: a number of columns and their values.
pub open spec fn tuple(bytes: Seq<u8>) -> Read<Seq<FieldModel>> {
    match wire::short(bytes) {
        None => None,
        Some((count, rest)) => wire::repeated(field_reader(), count as nat, rest),
    }
}

/// Reads the byte that announces the new row, and the row.
pub open spec fn new_row(bytes: Seq<u8>) -> Read<Seq<FieldModel>> {
    match wire::byte(bytes) {
        Some((kind, rest)) if kind == NEW_ROW => tuple(rest),
        _ => None,
    }
}

/// Reads the byte that announces the old row or its key, and the row.
pub open spec fn old_row(bytes: Seq<u8>) -> Read<Seq<FieldModel>> {
    match wire::byte(bytes) {
        Some((kind, rest)) if kind == OLD_ROW || kind == OLD_KEY => tuple(rest),
        _ => None,
    }
}

/// Reads the body of a relation message.
pub open spec fn relation_body(bytes: Seq<u8>) -> Option<MessageModel> {
    match wire::long(bytes) {
        None => None,
        Some((id, bytes)) => match wire::name(bytes) {
            None => None,
            Some((schema_name, bytes)) => match wire::name(bytes) {
                None => None,
                Some((table_name, bytes)) => match wire::byte(bytes) {
                    None => None,
                    Some((_, bytes)) => match columns(bytes) {
                        None => None,
                        Some((columns, _)) => Some(
                            MessageModel::Relation {
                                id,
                                relation: RelationModel { schema_name, table_name, columns },
                            },
                        ),
                    },
                },
            },
        },
    }
}

/// Reads the body of an insert message.
pub open spec fn insert_body(bytes: Seq<u8>) -> Option<MessageModel> {
    match wire::long(bytes) {
        None => None,
        Some((id, bytes)) => match new_row(bytes) {
            None => None,
            Some((new, _)) => Some(MessageModel::Insert { id, new }),
        },
    }
}

/// Reads the body of an update message: the old row, if it was sent, and the new one.
pub open spec fn update_body(bytes: Seq<u8>) -> Option<MessageModel> {
    match wire::long(bytes) {
        None => None,
        Some((id, bytes)) => match old_row(bytes) {
            Some((old, bytes)) => match new_row(bytes) {
                None => None,
                Some((new, _)) => Some(MessageModel::Update { id, old: Some(old), new }),
            },
            None => match new_row(bytes) {
                None => None,
                Some((new, _)) => Some(MessageModel::Update { id, old: None, new }),
            },
        },
    }
}

/// Reads the body of a delete message.
pub open spec fn delete_body(bytes: Seq<u8>) -> Option<MessageModel> {
    match wire::long(bytes) {
        None => None,
        Some((id, bytes)) => match old_row(bytes) {
            None => None,
            Some((old, _)) => Some(MessageModel::Delete { id, old }),
        },
    }
}

/// The message that bytes hold; nothing where they are empty, start with a byte that announces
/// none of the kinds above, or do not go on as that kind does. Bytes behind the message are not
/// looked at.
pub open spec fn message(bytes: Seq<u8>) -> Option<MessageModel> {
    match wire::byte(bytes) {
        None => None,
        Some((kind, body)) => if kind == BEGIN {
            Some(MessageModel::Begin)
        } else if kind == COMMIT {
            Some(MessageModel::Commit)
        } else if kind == RELATION {
            relation_body(body)
        } else if kind == INSERT {
            insert_body(body)
        } else if kind == UPDATE {
            update_body(body)
        } else if kind == DELETE {
            delete_body(body)
        } else {
            None
        },
    }
}

fn read_column(bytes: &[u8]) -> (read: Option<(ColumnInfo, &[u8])>)
    ensures
        match read {
            Some((value, rest)) => column(bytes@) == Some((value@, rest@)),
            None => column(bytes@) is None,
        },
{
    let (_, bytes) = read_byte(bytes)?;
    let (name, bytes) = read_name(bytes)?;
    let (type_id, bytes) = read_long(bytes)?;
    let (modifier, rest) = read_long(bytes)?;
    Some((ColumnInfo { name, type_id, type_modifier: to_signed(modifier) }, rest))
}

fn read_columns(bytes: &[u8]) -> (read: Option<(Vec<ColumnInfo>, &[u8])>)
    ensures
        match read {
            Some((value, rest)) => columns(bytes@) == Some(
                (wal_event::column_models(value@), rest@),
            ),
            None => columns(bytes@) is None,
        },
{
    let (count, start) = read_short(bytes)?;
    let mut rest = start;
    let mut read: Vec<ColumnInfo> = Vec::new();
    let mut i: u16 = 0;
    proof {
        wire::lemma_preceded_by_nothing(wire::repeated(column_reader(), count as nat, start@));
        assert(wal_event::column_models(read@) =~= Seq::empty());
    }
    while i < count
        invariant
            i <= count,
            columns(bytes@) == wire::preceded(
                wal_event::column_models(read@),
                wire::repeated(column_reader(), (count - i) as nat, rest@),
            ),
        decreases count - i,
    {
        let ghost before = wal_event::column_models(read@);
        let (next, behind) = read_column(rest)?;
        proof {
            wire::lemma_preceded_twice(
                before,
                seq![next@],
                wire::repeated(column_reader(), (count - i - 1) as nat, behind@),
            );
        }
        read.push(next);
        assert(wal_event::column_models(read@) =~= before + seq![next@]);
        rest = behind;
        i += 1;
    }
    assert(wal_event::column_models(read@) + Seq::empty() =~= wal_event::column_models(read@));
    Some((read, rest))
}

fn read_field(bytes: &[u8]) -> (read: Option<(Field, &[u8])>)
    ensures
        match read {
            Some((value, rest)) => field(bytes@) == Some((value@, rest@)),
            None => field(bytes@) is None,
        },
{
    let (kind, bytes) = read_byte(bytes)?;
    if kind == NULL_FIELD {
        Some((Field::Null, bytes))
    } else if kind == UNCHANGED_FIELD {
        Some((Field::Unchanged, bytes))
    } else if kind == TEXT_FIELD {
        let (len, bytes) = read_long(bytes)?;
        let (text, rest) = read_block(bytes, len)?;
        Some((Field::Text(text), rest))
    } else {
        None
    }
}

fn read_tuple(bytes: &[u8]) -> (read: Option<(Vec<Field>, &[u8])>)
    ensures
        match read {
            Some((value, rest)) => tuple(bytes@) == Some((field_models(value@), rest@)),
            None => tuple(bytes@) is None,
        },
{
    let (count, start) = read_short(bytes)?;
    let mut rest = start;
    let mut read: Vec<Field> = Vec::new();
    let mut i: u16 = 0;
    proof {
        wire::lemma_preceded_by_nothing(wire::repeated(field_reader(), count as nat, start@));
        assert(field_models(read@) =~= Seq::empty());
    }
    while i < count
        invariant
            i <= count,
            tuple(bytes@) == wire::preceded(
                field_models(read@),
                wire::repeated(field_reader(), (count - i) as nat, rest@),
            ),
        decreases count - i,
    {
        let ghost before = field_models(read@);
        let (next, behind) = read_field(rest)?;
        proof {
            wire::lemma_preceded_twice(
                before,
                seq![next@],
                wire::repeated(field_reader(), (count - i - 1) as nat, behind@),
            );
        }
        read.push(next);
        assert(field_models(read@) =~= before + seq![next@]);
        rest = behind;
        i += 1;
    }
    assert(field_models(read@) + Seq::empty() =~= field_models(read@));
    Some((read, rest))
}

fn read_new_row(bytes: &[u8]) -> (read: Option<(Vec<Field>, &[u8])>)
    ensures
        match read {
            Some((value, rest)) => new_row(bytes@) == Some((field_models(value@), rest@)),
            None => new_row(bytes@) is None,
        },
{
    let (kind, rest) = read_byte(bytes)?;
    if kind == NEW_ROW {
        read_tuple(rest)
    } else {
        None
    }
}

fn read_old_row(bytes: &[u8]) -> (read: Option<(Vec<Field>, &[u8])>)
    ensures
        match read {
            Some((value, rest)) => old_row(bytes@) == Some((field_models(value@), rest@)),
            None => old_row(bytes@) is None,
        },
{
    let (kind, rest) = read_byte(bytes)?;
    if kind == OLD_ROW || kind == OLD_KEY {
        read_tuple(rest)
    } else {
        None
    }
}

/// Reads the body of a relation message.
pub fn parse_relation_message(data: &[u8]) -> (read: Option<Message>)
    ensures
        match read {
            Some(m) => relation_body(data@) == Some(m@),
            None => relation_body(data@) is None,
        },
{
    let (id, bytes) = read_long(data)?;
    let (schema_name, bytes) = read_name(bytes)?;
    let (table_name, bytes) = read_name(bytes)?;
    let (_, bytes) = read_byte(bytes)?;
    let (columns, _) = read_columns(bytes)?;
    Some(Message::Relation { id, relation: Relation { schema_name, table_name, columns } })
}

/// Reads the body of an insert message.
pub fn parse_insert_message(data: &[u8]) -> (read: Option<Message>)
    ensures
        match read {
            Some(m) => insert_body(data@) == Some(m@),
            None => insert_body(data@) is None,
        },
{
    let (id, bytes) = read_long(data)?;
    let (new, _) = read_new_row(bytes)?;
    Some(Message::Insert { id, new })
}

/// Reads the body of an update message.
pub fn parse_update_message(data: &[u8]) -> (read: Option<Message>)
    ensures
        match read {
            Some(m) => update_body(data@) == Some(m@),
            None => update_body(data@) is None,
        },
{
    let (id, bytes) = read_long(data)?;
    match read_old_row(bytes) {
        Some((old, bytes)) => {
            let (new, _) = read_new_row(bytes)?;
            Some(Message::Update { id, old: Some(old), new })
        },
        None => {
            let (new, _) = read_new_row(bytes)?;
            Some(Message::Update { id, old: None, new })
        },
    }
}

/// Reads the body of a delete message.
pub fn parse_delete_message(data: &[u8]) -> (read: Option<Message>)
    ensures
        match read {
            Some(m) => delete_body(data@) == Some(m@),
            None => delete_body(data@) is None,
        },
{
    let (id, bytes) = read_long(data)?;
    let (old, _) = read_old_row(bytes)?;
    Some(Message::Delete { id, old })
}

/// Reads a message.
pub fn parse_message(data: &[u8]) -> (read: Option<Message>)
    ensures
        match read {
            Some(m) => message(data@) == Some(m@),
            None => message(data@) is None,
        },
{
    let (kind, body) = read_byte(data)?;
    if kind == BEGIN {
        Some(Message::Begin)
    } else if kind == COMMIT {
        Some(Message::Commit)
    } else if kind == RELATION {
        parse_relation_message(body)
    } else if kind == INSERT {
        parse_insert_message(body)
    } else if kind == UPDATE {
        parse_update_message(body)
    } else if kind == DELETE {
        parse_delete_message(body)
    } else {
        None
    }
}

} // verus!
