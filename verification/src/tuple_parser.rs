//! Tuple bytes, and the values that they hold.
//!
//! A tuple is written value by value. A NULL is the single byte 255; any other value is its bytes
//! and a zero byte behind them.
use crate::error::{WalError, WalResult};
use crate::text;
use crate::text::{read_i32, read_i64, same_text};
use crate::tuple_writer;
use crate::wal_event;
use crate::wal_event::{copy_bytes, ColumnInfo, ColumnModel, TupleValue, ValueModel};
use crate::wire;
use crate::wire::{find_zero, skip_bytes, take_bytes};
use vstd::prelude::*;
use vstd::string::StringExecFns;

verus! {

/// The value whose bytes are `raw`: nothing is a NULL, UTF-8 is text, the rest is binary.
pub open spec fn value_of(raw: Seq<u8>) -> ValueModel {
    if raw.len() == 0 {
        ValueModel::Null
    } else if vstd::utf8::valid_utf8(raw) {
        ValueModel::Text(vstd::utf8::decode_utf8(raw))
    } else {
        ValueModel::Binary(raw)
    }
}

/// The first value of a tuple that is not empty.
pub open spec fn first_value(tuple: Seq<u8>) -> ValueModel {
    if tuple[0] == tuple_writer::NULL_MARK {
        ValueModel::Null
    } else {
        value_of(tuple.take(wire::zero_free_len(tuple)))
    }
}

/// The tuple without its first value.
pub open spec fn other_values(tuple: Seq<u8>) -> Seq<u8> {
    let end = wire::zero_free_len(tuple);
    if tuple[0] == tuple_writer::NULL_MARK {
        tuple.skip(1)
    } else if end < tuple.len() {
        tuple.skip(end + 1)
    } else {
        Seq::empty()
    }
}

/// The names of columns.
pub open spec fn column_names(columns: Seq<ColumnModel>) -> Seq<Seq<char>> {
    columns.map_values(|c: ColumnModel| c.name)
}

/// A row: the value of each column behind the column's name.
pub type Row = Seq<(Seq<char>, ValueModel)>;

/// The row that `parsed` holds.
pub open spec fn row(parsed: Seq<(String, TupleValue)>) -> Row {
    parsed.map_values(|p: (String, TupleValue)| (p.0@, p.1@))
}

/// The row that a tuple holds for columns of the given names, or the name of the first column
/// for which the tuple holds no value.
pub open spec fn tuple_row(tuple: Seq<u8>, names: Seq<Seq<char>>) -> Result<Row, Seq<char>>
    decreases names.len(),
{
    if names.len() == 0 {
        Ok(Seq::empty())
    } else if tuple.len() == 0 {
        Err(names[0])
    } else {
        match tuple_row(other_values(tuple), names.skip(1)) {
            Ok(rest) => Ok(seq![(names[0], first_value(tuple))] + rest),
            Err(name) => Err(name),
        }
    }
}

/// `front` and, behind it, what `back` holds.
pub open spec fn row_after(front: Row, back: Result<Row, Seq<char>>) -> Result<Row, Seq<char>> {
    match back {
        Ok(rest) => Ok(front + rest),
        Err(name) => Err(name),
    }
}

/// The value of the first column of that name.
pub open spec fn column_value(row: Row, name: Seq<char>) -> Option<ValueModel>
    decreases row.len(),
{
    if row.len() == 0 {
        None
    } else if row[0].0 == name {
        Some(row[0].1)
    } else {
        column_value(row.skip(1), name)
    }
}

/// The text in the first column of that name, or why there is none.
pub open spec fn column_text(row: Row, name: Seq<char>) -> Result<Seq<char>, Seq<char>> {
    match column_value(row, name) {
        Some(ValueModel::Text(text)) => Ok(text),
        Some(ValueModel::Null) => Err("Column '"@ + name + "' is NULL"@),
        Some(ValueModel::Binary(_)) => Err("Column '"@ + name + "' is binary data"@),
        None => Err("Column '"@ + name + "' not found"@),
    }
}

/// The truth value that a word stands for.
pub open spec fn truth(word: Seq<char>) -> Option<bool> {
    if word == "t"@ || word == "true"@ || word == "1"@ {
        Some(true)
    } else if word == "f"@ || word == "false"@ || word == "0"@ {
        Some(false)
    } else {
        None
    }
}

/// What comes of reading the text in a column as an `i32`: the number, or a decoding error.
pub fn i32_outcome(number: Result<i32, String>, column_name: &str) -> (result: WalResult<i32>)
    ensures
        match number {
            Ok(value) => result == Ok::<i32, WalError>(value),
            Err(reason) => result matches Err(error) && error.is_decoding(
                "Failed to parse '"@ + column_name@ + "' as i32: "@ + reason@,
            ),
        },
{
    match number {
        Ok(value) => Ok(value),
        Err(reason) => {
            let mut message = "Failed to parse '".to_owned();
            message.append(column_name);
            message.append("' as i32: ");
            message.append(reason.as_str());
            Err(WalError::DecodingError(message))
        },
    }
}

/// What comes of reading the text in a column as an `i64`: the number, or a decoding error.
pub fn i64_outcome(number: Result<i64, String>, column_name: &str) -> (result: WalResult<i64>)
    ensures
        match number {
            Ok(value) => result == Ok::<i64, WalError>(value),
            Err(reason) => result matches Err(error) && error.is_decoding(
                "Failed to parse '"@ + column_name@ + "' as i64: "@ + reason@,
            ),
        },
{
    match number {
        Ok(value) => Ok(value),
        Err(reason) => {
            let mut message = "Failed to parse '".to_owned();
            message.append(column_name);
            message.append("' as i64: ");
            message.append(reason.as_str());
            Err(WalError::DecodingError(message))
        },
    }
}

/// Reads tuple bytes and the rows that were read from them.
pub struct TupleParser;

impl TupleParser {
    /// Reads one value for each column from tuple bytes, in the order of the columns. Bytes
    /// behind the last of these values are not looked at. Where the bytes end before a column
    /// has its value, that is a decoding error, which names the column.
    pub fn parse_tuple_bytes(raw_bytes: &[u8], columns: &[ColumnInfo]) -> (result: WalResult<
        Vec<(String, TupleValue)>,
    >)
        ensures
            match tuple_row(raw_bytes@, column_names(wal_event::column_models(columns@))) {
                Ok(expected) => result matches Ok(parsed) && row(parsed@) == expected,
                Err(name) => result matches Err(error) && error.is_decoding(
                    "Unexpected end of tuple data at column '"@ + name + "'"@,
                ),
            },
    {
        let ghost names = column_names(wal_event::column_models(columns@));
        let mut result: Vec<(String, TupleValue)> = Vec::with_capacity(columns.len());
        let mut rest = raw_bytes;
        let mut i: usize = 0;
        proof {
            assert(names.skip(0) =~= names);
            assert(row(result@) =~= Seq::empty());
            assert(tuple_row(raw_bytes@, names) =~= row_after(
                row(result@),
                tuple_row(rest@, names.skip(0)),
            )) by {
                if let Ok(r) = tuple_row(rest@, names) {
                    assert(row(result@) + r =~= r);
                }
            }
        }
        while i < columns.len()
            invariant
                i <= columns@.len(),
                names == column_names(wal_event::column_models(columns@)),
                tuple_row(raw_bytes@, names) == row_after(
                    row(result@),
                    tuple_row(rest@, names.skip(i as int)),
                ),
            decreases columns@.len() - i,
        {
            let ghost tuple = rest@;
            let ghost before = row(result@);
            let name = &columns[i].name;
            assert(names.skip(i as int)[0] == name@);
            assert(names.skip(i as int).skip(1) =~= names.skip(i + 1));
            if rest.len() == 0 {
                let mut message = "Unexpected end of tuple data at column '".to_owned();
                message.append(name.as_str());
                message.append("'");
                return Err(WalError::DecodingError(message));
            }
            let value: TupleValue;
            if rest[0] == tuple_writer::NULL_MARK {
                value = TupleValue::Null;
                rest = skip_bytes(rest, 1);
            } else {
                let end = find_zero(rest);
                value = Self::value_from(take_bytes(rest, end));
                if end < rest.len() {
                    rest = skip_bytes(rest, end + 1);
                } else {
                    rest = skip_bytes(rest, end);
                    assert(rest@ =~= Seq::empty());
                }
            }
            proof {
                let first = (name@, first_value(tuple));
                assert(value@ == first_value(tuple));
                assert(rest@ == other_values(tuple));
                if let Ok(r) = tuple_row(rest@, names.skip(i + 1)) {
                    assert(before + (seq![first] + r) =~= before.push(first) + r);
                }
            }
            result.push((name.clone(), value));
            assert(row(result@) =~= before.push((name@, value@)));
            i += 1;
        }
        proof {
            assert(row(result@) + Seq::empty() =~= row(result@));
        }
        Ok(result)
    }

    /// The value whose bytes are `raw`.
    fn value_from(raw: &[u8]) -> (value: TupleValue)
        ensures
            value@ == value_of(raw@),
    {
        if raw.len() == 0 {
            TupleValue::Null
        } else {
            match core::str::from_utf8(raw) {
                Ok(text) => TupleValue::Text(text.to_owned()),
                Err(_) => TupleValue::Binary(copy_bytes(raw)),
            }
        }
    }

    /// Looks up the first column of that name.
    pub fn get_column_value<'a>(
        parsed: &'a [(String, TupleValue)],
        column_name: &str,
    ) -> (value: Option<&'a TupleValue>)
        ensures
            match value {
                Some(v) => column_value(row(parsed@), column_name@) == Some(v@) && exists|i: int|
                    0 <= i < parsed@.len() && (#[trigger] parsed@[i]).0@ == column_name@
                        && parsed@[i].1 == *v && forall|j: int|
                        0 <= j < i ==> (#[trigger] parsed@[j]).0@ != column_name@,
                None => column_value(row(parsed@), column_name@) is None,
            },
    {
        let mut i: usize = 0;
        let ghost all = row(parsed@);
        assert(all.skip(0) =~= all);
        while i < parsed.len()
            invariant
                i <= parsed@.len(),
                all == row(parsed@),
                column_value(all, column_name@) == column_value(all.skip(i as int), column_name@),
                forall|j: int| 0 <= j < i ==> (#[trigger] parsed@[j]).0@ != column_name@,
            decreases parsed@.len() - i,
        {
            assert(all.skip(i as int)[0] == (parsed@[i as int].0@, parsed@[i as int].1@));
            assert(all.skip(i as int).skip(1) =~= all.skip(i + 1));
            if same_text(parsed[i].0.as_str(), column_name) {
                return Some(&parsed[i].1);
            }
            i += 1;
        }
        None
    }

    /// The text in the first column of that name. A column that is missing, NULL or binary is a
    /// decoding error.
    pub fn get_text_value(parsed: &[(String, TupleValue)], column_name: &str) -> (result: WalResult<
        String,
    >)
        ensures
            match column_text(row(parsed@), column_name@) {
                Ok(text) => result matches Ok(s) && s@ == text,
                Err(reason) => result matches Err(error) && error.is_decoding(reason),
            },
    {
        let mut message = "Column '".to_owned();
        message.append(column_name);
        match Self::get_column_value(parsed, column_name) {
            Some(TupleValue::Text(s)) => Ok(s.clone()),
            Some(TupleValue::Null) => {
                message.append("' is NULL");
                Err(WalError::DecodingError(message))
            },
            Some(TupleValue::Binary(_)) => {
                message.append("' is binary data");
                Err(WalError::DecodingError(message))
            },
            None => {
                message.append("' not found");
                Err(WalError::DecodingError(message))
            },
        }
    }

    /// The `i32` that the text in the first column of that name denotes.
    pub fn parse_i32(parsed: &[(String, TupleValue)], column_name: &str) -> (result: WalResult<i32>)
        ensures
            match column_text(row(parsed@), column_name@) {
                Ok(word) => match text::integer_value(word) {
                    Some(value) if i32::MIN <= value <= i32::MAX => result matches Ok(number)
                        && number == value,
                    _ => result matches Err(error) && error.is_decoding(
                        "Failed to parse '"@ + column_name@ + "' as i32: "@ + text::i32_refusal(
                            word,
                        ),
                    ),
                },
                Err(reason) => result matches Err(error) && error.is_decoding(reason),
            },
    {
        match Self::get_text_value(parsed, column_name) {
            Ok(word) => i32_outcome(read_i32(word.as_str()), column_name),
            Err(error) => Err(error),
        }
    }

    /// The `i64` that the text in the first column of that name denotes.
    pub fn parse_i64(parsed: &[(String, TupleValue)], column_name: &str) -> (result: WalResult<i64>)
        ensures
            match column_text(row(parsed@), column_name@) {
                Ok(word) => match text::integer_value(word) {
                    Some(value) if i64::MIN <= value <= i64::MAX => result matches Ok(number)
                        && number == value,
                    _ => result matches Err(error) && error.is_decoding(
                        "Failed to parse '"@ + column_name@ + "' as i64: "@ + text::i64_refusal(
                            word,
                        ),
                    ),
                },
                Err(reason) => result matches Err(error) && error.is_decoding(reason),
            },
    {
        match Self::get_text_value(parsed, column_name) {
            Ok(word) => i64_outcome(read_i64(word.as_str()), column_name),
            Err(error) => Err(error),
        }
    }

    /// The truth value that the text in the first column of that name stands for.
    pub fn parse_bool(parsed: &[(String, TupleValue)], column_name: &str) -> (result: WalResult<bool>)
        ensures
            match column_text(row(parsed@), column_name@) {
                Ok(word) => match truth(word) {
                    Some(value) => result == Ok::<bool, WalError>(value),
                    None => result matches Err(error) && error.is_decoding(
                        "Failed to parse '"@ + column_name@ + "' as bool: '"@ + word + "'"@,
                    ),
                },
                Err(reason) => result matches Err(error) && error.is_decoding(reason),
            },
    {
        match Self::get_text_value(parsed, column_name) {
            Ok(word) => {
                let w = word.as_str();
                if same_text(w, "t") || same_text(w, "true") || same_text(w, "1") {
                    Ok(true)
                } else if same_text(w, "f") || same_text(w, "false") || same_text(w, "0") {
                    Ok(false)
                } else {
                    let mut message = "Failed to parse '".to_owned();
                    message.append(column_name);
                    message.append("' as bool: '");
                    message.append(w);
                    message.append("'");
                    Err(WalError::DecodingError(message))
                }
            },
            Err(error) => Err(error),
        }
    }
}

} // verus!
