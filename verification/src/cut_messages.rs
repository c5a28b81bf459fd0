//! A relation or row message that was cut short is never taken for a message.
//!
//! Each reader that succeeds on some bytes reads the same from them when more bytes follow, and
//! leaves those as well. A reader that leaves nothing of a whole message can therefore not succeed
//! on a part of it.
use crate::encoding;
use crate::pgoutput;
use crate::pgoutput::{FieldModel, RelationModel};
use crate::wire;
use crate::wire::Read;
use vstd::prelude::*;

verus! {

/// What was read, with more bytes behind it.
pub open spec fn followed<T>(read: Read<T>, more: Seq<u8>) -> Read<T> {
    match read {
        Some((value, rest)) => Some((value, rest + more)),
        None => None,
    }
}

proof fn lemma_byte(bytes: Seq<u8>, more: Seq<u8>)
    requires
        wire::byte(bytes) is Some,
    ensures
        wire::byte(bytes + more) == followed(wire::byte(bytes), more),
{
    assert((bytes + more).skip(1) =~= bytes.skip(1) + more);
}

proof fn lemma_short(bytes: Seq<u8>, more: Seq<u8>)
    requires
        wire::short(bytes) is Some,
    ensures
        wire::short(bytes + more) == followed(wire::short(bytes), more),
{
    assert((bytes + more).skip(2) =~= bytes.skip(2) + more);
}

proof fn lemma_long(bytes: Seq<u8>, more: Seq<u8>)
    requires
        wire::long(bytes) is Some,
    ensures
        wire::long(bytes + more) == followed(wire::long(bytes), more),
{
    assert((bytes + more).skip(4) =~= bytes.skip(4) + more);
}

proof fn lemma_name(bytes: Seq<u8>, more: Seq<u8>)
    requires
        wire::name(bytes) is Some,
    ensures
        wire::name(bytes + more) == followed(wire::name(bytes), more),
{
    let end = wire::zero_free_len(bytes);
    wire::lemma_zero_free_len_spelled_out(bytes);
    wire::lemma_zero_free_len(bytes + more, end);
    assert((bytes + more).take(end) =~= bytes.take(end));
    assert((bytes + more).skip(end + 1) =~= bytes.skip(end + 1) + more);
}

proof fn lemma_column(bytes: Seq<u8>, more: Seq<u8>)
    requires
        pgoutput::column(bytes) is Some,
    ensures
        pgoutput::column(bytes + more) == followed(pgoutput::column(bytes), more),
{
    lemma_byte(bytes, more);
    let bytes = wire::byte(bytes).unwrap().1;
    lemma_name(bytes, more);
    let bytes = wire::name(bytes).unwrap().1;
    lemma_long(bytes, more);
    let bytes = wire::long(bytes).unwrap().1;
    lemma_long(bytes, more);
}

proof fn lemma_column_list(count: nat, bytes: Seq<u8>, more: Seq<u8>)
    requires
        wire::repeated(pgoutput::column_reader(), count, bytes) is Some,
    ensures
        wire::repeated(pgoutput::column_reader(), count, bytes + more) == followed(
            wire::repeated(pgoutput::column_reader(), count, bytes),
            more,
        ),
    decreases count,
{
    if count > 0 {
        lemma_column(bytes, more);
        let rest = pgoutput::column(bytes).unwrap().1;
        lemma_column_list((count - 1) as nat, rest, more);
    }
}

proof fn lemma_columns(bytes: Seq<u8>, more: Seq<u8>)
    requires
        pgoutput::columns(bytes) is Some,
    ensures
        pgoutput::columns(bytes + more) == followed(pgoutput::columns(bytes), more),
{
    lemma_short(bytes, more);
    let (count, rest) = wire::short(bytes).unwrap();
    lemma_column_list(count as nat, rest, more);
}

proof fn lemma_field(bytes: Seq<u8>, more: Seq<u8>)
    requires
        pgoutput::field(bytes) is Some,
    ensures
        pgoutput::field(bytes + more) == followed(pgoutput::field(bytes), more),
{
    lemma_byte(bytes, more);
    let (kind, bytes) = wire::byte(bytes).unwrap();
    if kind == 0x74u8 {
        lemma_long(bytes, more);
        let (len, bytes) = wire::long(bytes).unwrap();
        assert((bytes + more).take(len as int) =~= bytes.take(len as int));
        assert((bytes + more).skip(len as int) =~= bytes.skip(len as int) + more);
    }
}

proof fn lemma_field_list(count: nat, bytes: Seq<u8>, more: Seq<u8>)
    requires
        wire::repeated(pgoutput::field_reader(), count, bytes) is Some,
    ensures
        wire::repeated(pgoutput::field_reader(), count, bytes + more) == followed(
            wire::repeated(pgoutput::field_reader(), count, bytes),
            more,
        ),
    decreases count,
{
    if count > 0 {
        lemma_field(bytes, more);
        let rest = pgoutput::field(bytes).unwrap().1;
        lemma_field_list((count - 1) as nat, rest, more);
    }
}

proof fn lemma_tuple(bytes: Seq<u8>, more: Seq<u8>)
    requires
        pgoutput::tuple(bytes) is Some,
    ensures
        pgoutput::tuple(bytes + more) == followed(pgoutput::tuple(bytes), more),
{
    lemma_short(bytes, more);
    let (count, rest) = wire::short(bytes).unwrap();
    lemma_field_list(count as nat, rest, more);
}

proof fn lemma_new_row(bytes: Seq<u8>, more: Seq<u8>)
    requires
        pgoutput::new_row(bytes) is Some,
    ensures
        pgoutput::new_row(bytes + more) == followed(pgoutput::new_row(bytes), more),
{
    lemma_byte(bytes, more);
    lemma_tuple(wire::byte(bytes).unwrap().1, more);
}

proof fn lemma_old_row(bytes: Seq<u8>, more: Seq<u8>)
    requires
        pgoutput::old_row(bytes) is Some,
    ensures
        pgoutput::old_row(bytes + more) == followed(pgoutput::old_row(bytes), more),
{
    lemma_byte(bytes, more);
    lemma_tuple(wire::byte(bytes).unwrap().1, more);
}

/// Bytes that are a message are the same message when more bytes follow them.
pub proof fn law_bytes_behind_a_message(bytes: Seq<u8>, more: Seq<u8>)
    requires
        pgoutput::message(bytes) is Some,
    ensures
        pgoutput::message(bytes + more) == pgoutput::message(bytes),
{
    lemma_byte(bytes, more);
    let (kind, bytes) = wire::byte(bytes).unwrap();
    if kind == 0x52u8 {
        lemma_long(bytes, more);
        let bytes = wire::long(bytes).unwrap().1;
        lemma_name(bytes, more);
        let bytes = wire::name(bytes).unwrap().1;
        lemma_name(bytes, more);
        let bytes = wire::name(bytes).unwrap().1;
        lemma_byte(bytes, more);
        let bytes = wire::byte(bytes).unwrap().1;
        lemma_columns(bytes, more);
    } else if kind == 0x49u8 {
        lemma_long(bytes, more);
        lemma_new_row(wire::long(bytes).unwrap().1, more);
    } else if kind == 0x55u8 {
        lemma_long(bytes, more);
        let bytes = wire::long(bytes).unwrap().1;
        if pgoutput::old_row(bytes) is Some {
            lemma_old_row(bytes, more);
            lemma_new_row(pgoutput::old_row(bytes).unwrap().1, more);
        } else {
            lemma_new_row(bytes, more);
            lemma_byte(bytes, more);
        }
    } else if kind == 0x44u8 {
        lemma_long(bytes, more);
        lemma_old_row(wire::long(bytes).unwrap().1, more);
    }
}

proof fn lemma_split(bytes: Seq<u8>, n: int)
    requires
        0 <= n <= bytes.len(),
    ensures
        bytes.take(n) + bytes.skip(n) == bytes,
{
    assert(bytes.take(n) + bytes.skip(n) =~= bytes);
}

/// No part of an insert message that lacks its end is a message.
pub proof fn law_cut_insert_message(id: u32, new: Seq<FieldModel>, n: int)
    requires
        encoding::is_row(new),
        0 <= n < encoding::insert_message(id, new).len(),
    ensures
        pgoutput::message(encoding::insert_message(id, new).take(n)) is None,
{
    let whole = encoding::insert_message(id, new);
    let part = whole.take(n);
    let more = whole.skip(n);
    lemma_split(whole, n);
    if pgoutput::message(part) is Some {
        let row = seq![0x4eu8] + (encoding::tuple_bytes(new) + Seq::empty());
        let body = encoding::long_bytes(id) + row;
        assert(whole =~= seq![0x49u8] + body);
        encoding::lemma_byte(0x49u8, body);
        encoding::lemma_long(id, row);
        encoding::lemma_new_row(new, Seq::empty());
        lemma_byte(part, more);
        let part = wire::byte(part).unwrap().1;
        lemma_long(part, more);
        let part = wire::long(part).unwrap().1;
        lemma_new_row(part, more);
        assert((pgoutput::new_row(part).unwrap().1 + more).len() > 0);
    }
}

/// No part of a delete message that lacks its end is a message.
pub proof fn law_cut_delete_message(id: u32, old_kind: u8, old: Seq<FieldModel>, n: int)
    requires
        encoding::is_row(old),
        old_kind == 0x4fu8 || old_kind == 0x4bu8,
        0 <= n < encoding::delete_message(id, old_kind, old).len(),
    ensures
        pgoutput::message(encoding::delete_message(id, old_kind, old).take(n)) is None,
{
    let whole = encoding::delete_message(id, old_kind, old);
    let part = whole.take(n);
    let more = whole.skip(n);
    lemma_split(whole, n);
    if pgoutput::message(part) is Some {
        let row = seq![old_kind] + (encoding::tuple_bytes(old) + Seq::empty());
        let body = encoding::long_bytes(id) + row;
        assert(whole =~= seq![0x44u8] + body);
        encoding::lemma_byte(0x44u8, body);
        encoding::lemma_long(id, row);
        encoding::lemma_old_row(old_kind, old, Seq::empty());
        lemma_byte(part, more);
        let part = wire::byte(part).unwrap().1;
        lemma_long(part, more);
        let part = wire::long(part).unwrap().1;
        lemma_old_row(part, more);
        assert((pgoutput::old_row(part).unwrap().1 + more).len() > 0);
    }
}

/// No part of an update message without an old row that lacks its end is a message.
pub proof fn law_cut_update_message(id: u32, new: Seq<FieldModel>, n: int)
    requires
        encoding::is_row(new),
        0 <= n < encoding::update_message(id, new).len(),
    ensures
        pgoutput::message(encoding::update_message(id, new).take(n)) is None,
{
    let whole = encoding::update_message(id, new);
    let part = whole.take(n);
    let more = whole.skip(n);
    lemma_split(whole, n);
    if pgoutput::message(part) is Some {
        let row = seq![0x4eu8] + (encoding::tuple_bytes(new) + Seq::empty());
        let body = encoding::long_bytes(id) + row;
        assert(whole =~= seq![0x55u8] + body);
        encoding::lemma_byte(0x55u8, body);
        encoding::lemma_long(id, row);
        encoding::lemma_new_row(new, Seq::empty());
        lemma_byte(part, more);
        let part = wire::byte(part).unwrap().1;
        lemma_long(part, more);
        let part = wire::long(part).unwrap().1;
        if pgoutput::old_row(part) is Some {
            lemma_old_row(part, more);
        } else {
            lemma_new_row(part, more);
            assert((pgoutput::new_row(part).unwrap().1 + more).len() > 0);
        }
    }
}

/// No part of an update message with an old row that lacks its end is a message.
pub proof fn law_cut_full_update_message(
    id: u32,
    old_kind: u8,
    old: Seq<FieldModel>,
    new: Seq<FieldModel>,
    n: int,
)
    requires
        encoding::is_row(old),
        encoding::is_row(new),
        old_kind == 0x4fu8 || old_kind == 0x4bu8,
        0 <= n < encoding::full_update_message(id, old_kind, old, new).len(),
    ensures
        pgoutput::message(encoding::full_update_message(id, old_kind, old, new).take(n)) is None,
{
    let whole = encoding::full_update_message(id, old_kind, old, new);
    let part = whole.take(n);
    let more = whole.skip(n);
    lemma_split(whole, n);
    if pgoutput::message(part) is Some {
        let new_part = seq![0x4eu8] + (encoding::tuple_bytes(new) + Seq::empty());
        let old_part = seq![old_kind] + (encoding::tuple_bytes(old) + new_part);
        encoding::lemma_full_update_body(id, old_kind, old, new, Seq::empty());
        assert(whole + Seq::empty() =~= whole);
        encoding::lemma_long(id, old_part);
        encoding::lemma_old_row(old_kind, old, new_part);
        encoding::lemma_new_row(new, Seq::empty());
        lemma_byte(part, more);
        let part = wire::byte(part).unwrap().1;
        lemma_long(part, more);
        let part = wire::long(part).unwrap().1;
        if pgoutput::old_row(part) is Some {
            lemma_old_row(part, more);
            let part = pgoutput::old_row(part).unwrap().1;
            lemma_new_row(part, more);
            assert((pgoutput::new_row(part).unwrap().1 + more).len() > 0);
        } else {
            lemma_byte(part, more);
            encoding::lemma_byte(old_kind, encoding::tuple_bytes(old) + new_part);
        }
    }
}

/// No part of a relation message that lacks its end is a message.
pub proof fn law_cut_relation_message(
    id: u32,
    relation: RelationModel,
    replica_identity: u8,
    flags: Seq<u8>,
    n: int,
)
    requires
        encoding::is_relation(relation),
        flags.len() == relation.columns.len(),
        0 <= n < encoding::relation_message(id, relation, replica_identity, flags).len(),
    ensures
        pgoutput::message(
            encoding::relation_message(id, relation, replica_identity, flags).take(n),
        ) is None,
{
    let whole = encoding::relation_message(id, relation, replica_identity, flags);
    let part = whole.take(n);
    let more = whole.skip(n);
    lemma_split(whole, n);
    if pgoutput::message(part) is Some {
        encoding::lemma_relation_parts(id, relation, replica_identity, flags, Seq::empty());
        assert(whole + Seq::empty() =~= whole);
        lemma_byte(part, more);
        let part = wire::byte(part).unwrap().1;
        lemma_long(part, more);
        let part = wire::long(part).unwrap().1;
        lemma_name(part, more);
        let part = wire::name(part).unwrap().1;
        lemma_name(part, more);
        let part = wire::name(part).unwrap().1;
        lemma_byte(part, more);
        let part = wire::byte(part).unwrap().1;
        lemma_columns(part, more);
        assert((pgoutput::columns(part).unwrap().1 + more).len() > 0);
    }
}

} // verus!
