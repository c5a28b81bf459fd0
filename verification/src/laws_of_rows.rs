//! What reading a row gives, in terms of the bytes and of the values in the row.
//!
//! The laws speak of calls: `call_ensures(f, arguments, result)` holds of every call of `f` with
//! these arguments that gives this result.
use crate::error::{WalError, WalResult};
use crate::laws;
use crate::pgoutput;
use crate::pgoutput::{Field, FieldModel};
use crate::text;
use crate::tuple_parser;
use crate::tuple_parser::TupleParser;
use crate::tuple_writer;
use crate::tuple_writer::write_tuple;
use crate::wal_event;
use crate::wal_event::{ColumnInfo, RawWalEvent, TupleValue, WalOperation};
use vstd::prelude::*;

verus! {

/// Whether a value is the one that stands for `raw`: a NULL for no bytes, the text that the
/// bytes encode where they are UTF-8, and otherwise the bytes.
pub open spec fn stands_for(value: TupleValue, raw: Seq<u8>) -> bool {
    if raw.len() == 0 {
        value is Null
    } else if vstd::utf8::valid_utf8(raw) {
        value matches TupleValue::Text(text) && vstd::utf8::encode_utf8(text@) == raw
    } else {
        value matches TupleValue::Binary(bytes) && bytes@ == raw
    }
}

/// Whether a result is the decoding error that reads `text`.
pub open spec fn fails_with<T>(result: WalResult<T>, text: Seq<char>) -> bool {
    result matches Err(WalError::DecodingError(message)) && message@ == text
}

/// Whether two values are the same.
pub open spec fn same_value(a: TupleValue, b: TupleValue) -> bool {
    match a {
        TupleValue::Null => b is Null,
        TupleValue::Text(text) => b matches TupleValue::Text(other) && other@ == text@,
        TupleValue::Binary(bytes) => b matches TupleValue::Binary(other) && other@ == bytes@,
    }
}

/// Whether `result` is what comes of one column and of the result for the columns behind it: the
/// column's name, a value, and the same rest; or the same error.
pub open spec fn continues(
    result: WalResult<Vec<(String, TupleValue)>>,
    column: ColumnInfo,
    rest: WalResult<Vec<(String, TupleValue)>>,
) -> bool {
    match rest {
        Ok(behind) => {
            &&& result matches Ok(parsed)
            &&& parsed@.len() == behind@.len() + 1
            &&& parsed@[0].0@ == column.name@
            &&& forall|i: int|
                0 <= i < behind@.len() ==> parsed@[i + 1].0@ == (#[trigger] behind@[i]).0@
                    && same_value(parsed@[i + 1].1, behind@[i].1)
        },
        Err(WalError::DecodingError(reason)) => fails_with(result, reason@),
        Err(_) => false,
    }
}

proof fn lemma_names(columns: Seq<ColumnInfo>)
    ensures
        ({
            let names = tuple_parser::column_names(wal_event::column_models(columns));
            &&& names.len() == columns.len()
            &&& forall|i: int| 0 <= i < columns.len() ==> #[trigger] names[i] == columns[i].name@
            &&& columns.len() > 0 ==> names.skip(1) == tuple_parser::column_names(
                wal_event::column_models(columns.skip(1)),
            )
        }),
{
    let names = tuple_parser::column_names(wal_event::column_models(columns));
    if columns.len() > 0 {
        assert(names.skip(1) =~= tuple_parser::column_names(
            wal_event::column_models(columns.skip(1)),
        ));
    }
}

/// How the results for a tuple and for what stands behind its first value hang together.
proof fn lemma_continues(
    tuple: &[u8],
    columns: &[ColumnInfo],
    result: WalResult<Vec<(String, TupleValue)>>,
    behind: &[u8],
    others: &[ColumnInfo],
    rest: WalResult<Vec<(String, TupleValue)>>,
)
    requires
        call_ensures(TupleParser::parse_tuple_bytes, (tuple, columns), result),
        call_ensures(TupleParser::parse_tuple_bytes, (behind, others), rest),
        columns@.len() > 0,
        others@ == columns@.skip(1),
        tuple@.len() > 0,
        tuple_parser::other_values(tuple@) == behind@,
    ensures
        continues(result, columns@[0], rest),
        result matches Ok(parsed) ==> parsed@[0].1@ == tuple_parser::first_value(tuple@),
{
    lemma_names(columns@);
    let names = tuple_parser::column_names(wal_event::column_models(columns@));
    if let Ok(parsed) = result {
        if let Ok(tail) = rest {
            let whole = tuple_parser::row(parsed@);
            let part = tuple_parser::row(tail@);
            assert(whole == seq![(names[0], tuple_parser::first_value(tuple@))] + part);
            assert(whole[0] == (parsed@[0].0@, parsed@[0].1@));
            assert forall|i: int| 0 <= i < tail@.len() implies parsed@[i + 1].0@ == (
            #[trigger] tail@[i]).0@ && same_value(parsed@[i + 1].1, tail@[i].1) by {
                assert(whole[i + 1] == part[i]);
                assert(whole[i + 1] == (parsed@[i + 1].0@, parsed@[i + 1].1@));
                assert(part[i] == (tail@[i].0@, tail@[i].1@));
            }
        }
    }
}

/// Bytes and a zero byte in front of a tuple are one more value in front, the one that stands for
/// the bytes; the values behind stay as they are.
pub proof fn law_value_in_front(
    tuple: &[u8],
    columns: &[ColumnInfo],
    result: WalResult<Vec<(String, TupleValue)>>,
    raw: Seq<u8>,
    behind: &[u8],
    others: &[ColumnInfo],
    rest: WalResult<Vec<(String, TupleValue)>>,
)
    requires
        call_ensures(TupleParser::parse_tuple_bytes, (tuple, columns), result),
        call_ensures(TupleParser::parse_tuple_bytes, (behind, others), rest),
        columns@.len() > 0,
        others@ == columns@.skip(1),
        forall|i: int| 0 <= i < raw.len() ==> #[trigger] raw[i] != 0,
        raw.len() > 0 ==> raw[0] != 255,
        tuple@ == raw + seq![0u8] + behind@,
    ensures
        continues(result, columns@[0], rest),
        result matches Ok(parsed) ==> stands_for(parsed@[0].1, raw),
{
    assert(tuple@ =~= tuple_writer::field_bytes(FieldModel::Text(raw)) + behind@);
    laws::lemma_first_value(FieldModel::Text(raw), behind@);
    lemma_continues(tuple, columns, result, behind, others, rest);
    if vstd::utf8::valid_utf8(raw) {
        vstd::utf8::decode_utf8_encode_utf8(raw);
    }
}

/// The byte 255 in front of a tuple is a NULL in front; the values behind stay as they are.
pub proof fn law_null_in_front(
    tuple: &[u8],
    columns: &[ColumnInfo],
    result: WalResult<Vec<(String, TupleValue)>>,
    behind: &[u8],
    others: &[ColumnInfo],
    rest: WalResult<Vec<(String, TupleValue)>>,
)
    requires
        call_ensures(TupleParser::parse_tuple_bytes, (tuple, columns), result),
        call_ensures(TupleParser::parse_tuple_bytes, (behind, others), rest),
        columns@.len() > 0,
        others@ == columns@.skip(1),
        tuple@ == seq![255u8] + behind@,
    ensures
        continues(result, columns@[0], rest),
        result matches Ok(parsed) ==> parsed@[0].1 is Null,
{
    assert(tuple@ =~= tuple_writer::field_bytes(FieldModel::Null) + behind@);
    laws::lemma_first_value(FieldModel::Null, behind@);
    lemma_continues(tuple, columns, result, behind, others, rest);
}

/// Bytes without a zero byte are one value, the one that stands for them. A second column has
/// none, and the error names it.
pub proof fn law_last_value(
    tuple: &[u8],
    columns: &[ColumnInfo],
    result: WalResult<Vec<(String, TupleValue)>>,
)
    requires
        call_ensures(TupleParser::parse_tuple_bytes, (tuple, columns), result),
        columns@.len() > 0,
        tuple@.len() > 0,
        tuple@[0] != 255,
        forall|i: int| 0 <= i < tuple@.len() ==> #[trigger] tuple@[i] != 0,
    ensures
        columns@.len() == 1 ==> {
            &&& result matches Ok(parsed)
            &&& parsed@.len() == 1
            &&& parsed@[0].0@ == columns@[0].name@
            &&& stands_for(parsed@[0].1, tuple@)
        },
        columns@.len() > 1 ==> fails_with(
            result,
            "Unexpected end of tuple data at column '"@ + columns@[1].name@ + "'"@,
        ),
{
    lemma_names(columns@);
    let names = tuple_parser::column_names(wal_event::column_models(columns@));
    crate::wire::lemma_zero_free_len(tuple@, tuple@.len() as int);
    assert(tuple@.take(tuple@.len() as int) =~= tuple@);
    assert(tuple_parser::other_values(tuple@) == Seq::<u8>::empty());
    if columns@.len() > 1 {
        assert(names.skip(1)[0] == names[1]);
        assert(tuple_parser::tuple_row(Seq::empty(), names.skip(1)) is Err);
    } else {
        assert(tuple_parser::tuple_row(Seq::empty(), names.skip(1)) is Ok);
        if let Ok(parsed) = result {
            let whole = tuple_parser::row(parsed@);
            assert(whole.len() == 1);
            assert(whole[0] == (parsed@[0].0@, parsed@[0].1@));
            assert(whole[0] == (names[0], tuple_parser::first_value(tuple@)));
        }
        if vstd::utf8::valid_utf8(tuple@) {
            vstd::utf8::decode_utf8_encode_utf8(tuple@);
        }
    }
}

/// No bytes hold no value: the error names the first column, and without columns there is nothing
/// to miss, whatever the bytes are.
pub proof fn law_no_value(
    tuple: &[u8],
    columns: &[ColumnInfo],
    result: WalResult<Vec<(String, TupleValue)>>,
)
    requires
        call_ensures(TupleParser::parse_tuple_bytes, (tuple, columns), result),
    ensures
        columns@.len() == 0 ==> result is Ok && result->Ok_0@.len() == 0,
        columns@.len() > 0 && tuple@.len() == 0 ==> fails_with(
            result,
            "Unexpected end of tuple data at column '"@ + columns@[0].name@ + "'"@,
        ),
{
    lemma_names(columns@);
    if columns@.len() == 0 {
        if let Ok(parsed) = result {
            assert(tuple_parser::row(parsed@).len() == 0);
        }
    }
}

/// A row has one value for each column, behind the name of the column, in the columns' order.
pub proof fn law_row_follows_the_columns(
    tuple: &[u8],
    columns: &[ColumnInfo],
    parsed: Vec<(String, TupleValue)>,
)
    requires
        call_ensures(TupleParser::parse_tuple_bytes, (tuple, columns), Ok(parsed)),
    ensures
        parsed@.len() == columns@.len(),
        forall|i: int| 0 <= i < columns@.len() ==> (#[trigger] parsed@[i]).0@ == columns@[i].name@,
{
    lemma_names(columns@);
    let names = tuple_parser::column_names(wal_event::column_models(columns@));
    laws::law_row_has_its_columns(tuple@, names);
    let whole = tuple_parser::row(parsed@);
    assert(whole.len() == names.len());
    assert forall|i: int| 0 <= i < columns@.len() implies (#[trigger] parsed@[i]).0@
        == columns@[i].name@ by {
        assert(whole[i] == (parsed@[i].0@, parsed@[i].1@));
        assert(whole[i].0 == names[i]);
    }
}

/// What is stored for a value: the byte 255 for one that is NULL or was not sent, and otherwise
/// its bytes and a zero byte.
pub open spec fn stored_value(field: FieldModel) -> Seq<u8> {
    match field {
        FieldModel::Text(text) => text + seq![0u8],
        _ => seq![255u8],
    }
}

/// What is stored for a row: what is stored for its values, one behind the other.
pub open spec fn stored(fields: Seq<FieldModel>) -> Seq<u8> {
    fields.map_values(|f: FieldModel| stored_value(f)).flatten()
}

/// What is written for a row is what is to be stored for it.
pub proof fn law_written_is_stored(fields: Seq<FieldModel>)
    ensures
        tuple_writer::written(fields) == stored(fields),
    decreases fields.len(),
{
    let store = |f: FieldModel| stored_value(f);
    let parts = fields.map_values(store);
    if fields.len() > 0 {
        law_written_is_stored(fields.skip(1));
        assert(parts.drop_first() =~= fields.skip(1).map_values(store));
        assert(parts.first() == stored_value(fields[0]));
        assert(tuple_writer::field_bytes(fields[0]) =~= stored_value(fields[0]));
    } else {
        assert(parts =~= Seq::empty());
        assert(parts.flatten() =~= Seq::empty());
    }
}

/// One value is written as it is to be stored.
pub proof fn law_one_value_written(field: Field, fields: &Vec<Field>, bytes: Vec<u8>)
    requires
        call_ensures(write_tuple, (fields,), bytes),
        fields@ == seq![field],
    ensures
        match field {
            Field::Null => bytes@ == seq![255u8],
            Field::Unchanged => bytes@ == seq![255u8],
            Field::Text(text) => bytes@ == text@ + seq![0u8],
        },
{
    let models = pgoutput::field_models(fields@);
    assert(models =~= seq![field@]);
    assert(models.skip(1) =~= Seq::empty());
    assert(tuple_writer::written(models.skip(1)) =~= Seq::empty());
    assert(bytes@ =~= tuple_writer::field_bytes(field@));
    if let Field::Text(text) = field {
        assert(text@.push(0) =~= text@ + seq![0u8]);
    }
}

/// Two rows, one behind the other, are written as the one and then the other.
pub proof fn law_rows_written_one_behind_the_other(
    first: &Vec<Field>,
    first_bytes: Vec<u8>,
    second: &Vec<Field>,
    second_bytes: Vec<u8>,
    both: &Vec<Field>,
    both_bytes: Vec<u8>,
)
    requires
        call_ensures(write_tuple, (first,), first_bytes),
        call_ensures(write_tuple, (second,), second_bytes),
        call_ensures(write_tuple, (both,), both_bytes),
        both@ == first@ + second@,
    ensures
        both_bytes@ == first_bytes@ + second_bytes@,
{
    let a = pgoutput::field_models(first@);
    let b = pgoutput::field_models(second@);
    assert(pgoutput::field_models(both@) =~= a + b);
    lemma_written_parts(a, b);
}

proof fn lemma_written_parts(a: Seq<FieldModel>, b: Seq<FieldModel>)
    ensures
        tuple_writer::written(a + b) == tuple_writer::written(a) + tuple_writer::written(b),
    decreases a.len(),
{
    if a.len() == 0 {
        assert(a + b =~= b);
        assert(tuple_writer::written(a) + tuple_writer::written(b) =~= tuple_writer::written(b));
    } else {
        lemma_written_parts(a.skip(1), b);
        assert((a + b).skip(1) =~= a.skip(1) + b);
        assert(tuple_writer::field_bytes(a[0]) + (tuple_writer::written(a.skip(1))
            + tuple_writer::written(b)) =~= (tuple_writer::field_bytes(a[0])
            + tuple_writer::written(a.skip(1))) + tuple_writer::written(b));
    }
}

/// Whether the column at `i` is the first of a row that has that name.
pub open spec fn is_first(parsed: Seq<(String, TupleValue)>, name: Seq<char>, i: int) -> bool {
    &&& 0 <= i < parsed.len()
    &&& parsed[i].0@ == name
    &&& forall|j: int| 0 <= j < i ==> (#[trigger] parsed[j]).0@ != name
}

/// Whether no column of a row has that name.
pub open spec fn is_missing(parsed: Seq<(String, TupleValue)>, name: Seq<char>) -> bool {
    forall|j: int| 0 <= j < parsed.len() ==> (#[trigger] parsed[j]).0@ != name
}

proof fn lemma_lookup(parsed: Seq<(String, TupleValue)>, name: Seq<char>)
    ensures
        forall|i: int| #[trigger]
            is_first(parsed, name, i) ==> tuple_parser::column_value(
                tuple_parser::row(parsed),
                name,
            ) == Some(parsed[i].1@),
        is_missing(parsed, name) ==> tuple_parser::column_value(tuple_parser::row(parsed), name)
            is None,
{
    let whole = tuple_parser::row(parsed);
    assert forall|i: int| #[trigger] is_first(parsed, name, i) implies tuple_parser::column_value(
        whole,
        name,
    ) == Some(parsed[i].1@) by {
        assert forall|j: int| 0 <= j < i implies (#[trigger] whole[j]).0 != whole[i].0 by {
            assert(parsed[j].0@ != name);
        }
        laws::law_first_column_is_found(whole, i);
    }
    if is_missing(parsed, name) {
        assert forall|j: int| 0 <= j < whole.len() implies (#[trigger] whole[j]).0 != name by {
            assert(parsed[j].0@ != name);
        }
        laws::law_missing_column_is_not_found(whole, name);
    }
}

/// Looking up a column gives the value of the first column of that name, and nothing where there
/// is none.
pub proof fn law_lookup(
    parsed: &[(String, TupleValue)],
    name: &str,
    found: Option<&TupleValue>,
    i: int,
)
    requires
        call_ensures(TupleParser::get_column_value, (parsed, name), found),
    ensures
        is_first(parsed@, name@, i) ==> found == Some(&parsed@[i].1),
        is_missing(parsed@, name@) ==> found is None,
{
    lemma_lookup(parsed@, name@);
    if is_first(parsed@, name@, i) {
        assert(found is Some);
        let k = choose|k: int|
            0 <= k < parsed@.len() && (#[trigger] parsed@[k]).0@ == name@ && parsed@[k].1
                == *found->0 && forall|j: int| 0 <= j < k ==> (#[trigger] parsed@[j]).0@ != name@;
        assert(parsed@[i].0@ == name@);
        assert(k == i);
    }
}

/// The text of a column is the whole text in the first column of that name. A column that is
/// NULL, binary or missing gives the decoding error that says so.
pub proof fn law_text_of_column(
    parsed: &[(String, TupleValue)],
    name: &str,
    result: WalResult<String>,
    i: int,
)
    requires
        call_ensures(TupleParser::get_text_value, (parsed, name), result),
    ensures
        is_first(parsed@, name@, i) ==> match parsed@[i].1 {
            TupleValue::Text(text) => result matches Ok(given) && given@ == text@,
            TupleValue::Null => fails_with(result, "Column '"@ + name@ + "' is NULL"@),
            TupleValue::Binary(_) => fails_with(result, "Column '"@ + name@ + "' is binary data"@),
        },
        is_missing(parsed@, name@) ==> fails_with(result, "Column '"@ + name@ + "' not found"@),
{
    lemma_lookup(parsed@, name@);
}

/// The `i32` of a column is the integer that its text denotes, exactly where it denotes one that
/// an `i32` can hold; what has no text fails as the lookup of the text does.
pub proof fn law_i32_of_column(
    parsed: &[(String, TupleValue)],
    name: &str,
    text_result: WalResult<String>,
    result: WalResult<i32>,
)
    requires
        call_ensures(TupleParser::get_text_value, (parsed, name), text_result),
        call_ensures(TupleParser::parse_i32, (parsed, name), result),
    ensures
        match text_result {
            Ok(word) => match result {
                Ok(number) => text::integer_value(word@) == Some(number as int),
                Err(WalError::DecodingError(message)) => {
                    &&& message@ == "Failed to parse '"@ + name@ + "' as i32: "@
                        + text::i32_refusal(word@)
                    &&& text::integer_value(word@) matches Some(value) ==> value < -0x8000_0000
                        || value > 0x7fff_ffff
                },
                Err(_) => false,
            },
            Err(WalError::DecodingError(reason)) => fails_with(result, reason@),
            Err(_) => false,
        },
{
}

/// The `i64` of a column is the integer that its text denotes, exactly where it denotes one that
/// an `i64` can hold; what has no text fails as the lookup of the text does.
pub proof fn law_i64_of_column(
    parsed: &[(String, TupleValue)],
    name: &str,
    text_result: WalResult<String>,
    result: WalResult<i64>,
)
    requires
        call_ensures(TupleParser::get_text_value, (parsed, name), text_result),
        call_ensures(TupleParser::parse_i64, (parsed, name), result),
    ensures
        match text_result {
            Ok(word) => match result {
                Ok(number) => text::integer_value(word@) == Some(number as int),
                Err(WalError::DecodingError(message)) => {
                    &&& message@ == "Failed to parse '"@ + name@ + "' as i64: "@
                        + text::i64_refusal(word@)
                    &&& text::integer_value(word@) matches Some(value) ==> value
                        < -0x8000_0000_0000_0000 || value > 0x7fff_ffff_ffff_ffff
                },
                Err(_) => false,
            },
            Err(WalError::DecodingError(reason)) => fails_with(result, reason@),
            Err(_) => false,
        },
{
}

/// Where a column holds an `i32`, it holds the same number as an `i64`.
pub proof fn law_numbers_agree(
    parsed: &[(String, TupleValue)],
    name: &str,
    narrow: WalResult<i32>,
    wide: WalResult<i64>,
)
    requires
        call_ensures(TupleParser::parse_i32, (parsed, name), narrow),
        call_ensures(TupleParser::parse_i64, (parsed, name), wide),
        narrow is Ok,
    ensures
        wide matches Ok(number) && number == narrow->Ok_0,
{
}

/// A number that was read is kept, and a refusal becomes the decoding error that names the
/// column.
pub proof fn law_number_outcomes(
    narrow: Result<i32, String>,
    wide: Result<i64, String>,
    name: &str,
    narrow_result: WalResult<i32>,
    wide_result: WalResult<i64>,
)
    requires
        call_ensures(tuple_parser::i32_outcome, (narrow, name), narrow_result),
        call_ensures(tuple_parser::i64_outcome, (wide, name), wide_result),
    ensures
        match narrow {
            Ok(number) => narrow_result matches Ok(given) && given == number,
            Err(reason) => fails_with(
                narrow_result,
                "Failed to parse '"@ + name@ + "' as i32: "@ + reason@,
            ),
        },
        match wide {
            Ok(number) => wide_result matches Ok(given) && given == number,
            Err(reason) => fails_with(
                wide_result,
                "Failed to parse '"@ + name@ + "' as i64: "@ + reason@,
            ),
        },
{
}

/// The truth value of a column is true for three words, false for three others, and an error that
/// quotes the text for any other; what has no text fails as the lookup of the text does.
pub proof fn law_bool_of_column(
    parsed: &[(String, TupleValue)],
    name: &str,
    text_result: WalResult<String>,
    result: WalResult<bool>,
)
    requires
        call_ensures(TupleParser::get_text_value, (parsed, name), text_result),
        call_ensures(TupleParser::parse_bool, (parsed, name), result),
    ensures
        match text_result {
            Ok(word) => {
                &&& (result matches Ok(value) && value) <==> (word@ == "t"@ || word@ == "true"@
                    || word@ == "1"@)
                &&& (result matches Ok(value) && !value) <==> (word@ == "f"@ || word@ == "false"@
                    || word@ == "0"@)
                &&& result is Err ==> fails_with(
                    result,
                    "Failed to parse '"@ + name@ + "' as bool: '"@ + word@ + "'"@,
                )
            },
            Err(WalError::DecodingError(reason)) => fails_with(result, reason@),
            Err(_) => false,
        },
{
    reveal_strlit("t");
    reveal_strlit("true");
    reveal_strlit("1");
    reveal_strlit("f");
    reveal_strlit("false");
    reveal_strlit("0");
    assert("t"@[0] == 't');
    assert("true"@[0] == 't');
    assert("1"@[0] == '1');
    assert("f"@[0] == 'f');
    assert("false"@[0] == 'f');
    assert("0"@[0] == '0');
}

/// An event tells its table and its operation.
pub proof fn law_questions_to_an_event(
    event: &RawWalEvent,
    table: &str,
    is_table: bool,
    is_insert: bool,
    is_update: bool,
    is_delete: bool,
)
    requires
        call_ensures(RawWalEvent::is_table, (event, table), is_table),
        call_ensures(RawWalEvent::is_insert, (event,), is_insert),
        call_ensures(RawWalEvent::is_update, (event,), is_update),
        call_ensures(RawWalEvent::is_delete, (event,), is_delete),
    ensures
        is_table <==> event.table_name@ == table@,
        is_insert <==> event.operation == WalOperation::Insert,
        is_update <==> event.operation == WalOperation::Update,
        is_delete <==> event.operation == WalOperation::Delete,
        is_insert || is_update || is_delete,
        !(is_insert && is_update) && !(is_update && is_delete) && !(is_insert && is_delete),
{
}

/// A copy of a column has its name and type, and a copy of a value is the same value.
pub proof fn law_copies(
    column: ColumnInfo,
    column_copy: ColumnInfo,
    value: TupleValue,
    value_copy: TupleValue,
)
    requires
        call_ensures(<ColumnInfo as Clone>::clone, (&column,), column_copy),
        call_ensures(<TupleValue as Clone>::clone, (&value,), value_copy),
    ensures
        column_copy.name@ == column.name@,
        column_copy.type_id == column.type_id,
        column_copy.type_modifier == column.type_modifier,
        same_value(value, value_copy),
{
    assert(column_copy@ == column@);
    assert(value_copy@ == value@);
}

/// A copy of an event has everything that the event has.
pub proof fn law_copy_of_an_event(event: RawWalEvent, copy: RawWalEvent)
    requires
        call_ensures(<RawWalEvent as Clone>::clone, (&event,), copy),
    ensures
        copy.table_name@ == event.table_name@,
        copy.schema_name@ == event.schema_name@,
        copy.operation == event.operation,
        match event.old_tuple {
            Some(tuple) => copy.old_tuple matches Some(other) && other@ == tuple@,
            None => copy.old_tuple is None,
        },
        match event.new_tuple {
            Some(tuple) => copy.new_tuple matches Some(other) && other@ == tuple@,
            None => copy.new_tuple is None,
        },
        copy.columns@.len() == event.columns@.len(),
        forall|i: int|
            0 <= i < event.columns@.len() ==> {
                &&& (#[trigger] copy.columns@[i]).name@ == event.columns@[i].name@
                &&& copy.columns@[i].type_id == event.columns@[i].type_id
                &&& copy.columns@[i].type_modifier == event.columns@[i].type_modifier
            },
{
    assert(copy@ == event@);
    let a = wal_event::column_models(copy.columns@);
    let b = wal_event::column_models(event.columns@);
    assert(a == b);
    assert(a.len() == copy.columns@.len() && b.len() == event.columns@.len());
    assert forall|i: int| 0 <= i < event.columns@.len() implies {
        &&& (#[trigger] copy.columns@[i]).name@ == event.columns@[i].name@
        &&& copy.columns@[i].type_id == event.columns@[i].type_id
        &&& copy.columns@[i].type_modifier == event.columns@[i].type_modifier
    } by {
        assert(a[i] == copy.columns@[i]@);
        assert(b[i] == event.columns@[i]@);
    }
}

} // verus!
