// Rows in tuple bytes
use wal_sync::pgoutput::Field;
use wal_sync::tuple_parser::{i32_outcome, i64_outcome};
use wal_sync::tuple_writer::write_tuple;
use wal_sync::{ColumnInfo, TupleParser, TupleValue, WalError, WalResult};

fn columns(names: &[&str]) -> Vec<ColumnInfo> {
    names
        .iter()
        .map(|name| ColumnInfo { name: name.to_string(), type_id: 25, type_modifier: -1 })
        .collect()
}

fn row(values: &[(&str, &str)]) -> Vec<(String, TupleValue)> {
    values
        .iter()
        .map(|(name, text)| (name.to_string(), TupleValue::Text(text.to_string())))
        .collect()
}

fn decoding_error<T>(result: WalResult<T>) -> String {
    match result {
        Err(WalError::DecodingError(message)) => message,
        _ => panic!("a decoding error was expected"),
    }
}

fn text(value: &TupleValue) -> &str {
    match value {
        TupleValue::Text(s) => s,
        _ => panic!("a text was expected"),
    }
}

#[test]
fn values_are_read_in_order() {
    let parsed = TupleParser::parse_tuple_bytes(b"1\0Alice\0", &columns(&["id", "name"])).unwrap();
    assert_eq!(parsed.len(), 2);
    assert_eq!(parsed[0].0, "id");
    assert_eq!(text(&parsed[0].1), "1");
    assert_eq!(parsed[1].0, "name");
    assert_eq!(text(&parsed[1].1), "Alice");
}

#[test]
fn null_mark_takes_one_byte() {
    let parsed =
        TupleParser::parse_tuple_bytes(&[255, b'x', 0, 255], &columns(&["a", "b", "c"])).unwrap();
    assert!(matches!(parsed[0].1, TupleValue::Null));
    assert_eq!(text(&parsed[1].1), "x");
    assert!(matches!(parsed[2].1, TupleValue::Null));
}

#[test]
fn empty_value_is_null() {
    let parsed = TupleParser::parse_tuple_bytes(b"\0x\0", &columns(&["a", "b"])).unwrap();
    assert!(matches!(parsed[0].1, TupleValue::Null));
    assert_eq!(text(&parsed[1].1), "x");
}

#[test]
fn bytes_that_are_not_utf8_are_binary() {
    let parsed = TupleParser::parse_tuple_bytes(&[0x61, 0xc3, 0x28, 0], &columns(&["a"])).unwrap();
    match &parsed[0].1 {
        TupleValue::Binary(bytes) => assert_eq!(bytes, &vec![0x61, 0xc3, 0x28]),
        _ => panic!("binary data was expected"),
    }
}

#[test]
fn utf8_of_several_bytes_is_text() {
    let parsed =
        TupleParser::parse_tuple_bytes("gr\u{fc}\u{df}\u{1f600}\0".as_bytes(), &columns(&["a"]))
            .unwrap();
    assert_eq!(text(&parsed[0].1), "gr\u{fc}\u{df}\u{1f600}");
}

#[test]
fn last_value_needs_no_delimiter() {
    let parsed = TupleParser::parse_tuple_bytes(b"1\0two", &columns(&["a", "b"])).unwrap();
    assert_eq!(text(&parsed[1].1), "two");
}

#[test]
fn bytes_behind_the_last_column_are_ignored() {
    let parsed = TupleParser::parse_tuple_bytes(b"1\0two\0", &columns(&["a"])).unwrap();
    assert_eq!(parsed.len(), 1);
    let none = TupleParser::parse_tuple_bytes(b"1\0", &columns(&[])).unwrap();
    assert_eq!(none.len(), 0);
}

#[test]
fn missing_value_names_the_column() {
    let result = TupleParser::parse_tuple_bytes(b"1\0two\0", &columns(&["a", "b", "c", "d"]));
    assert_eq!(decoding_error(result), "Unexpected end of tuple data at column 'c'");
    let result = TupleParser::parse_tuple_bytes(b"", &columns(&["a"]));
    assert_eq!(decoding_error(result), "Unexpected end of tuple data at column 'a'");
    let result = TupleParser::parse_tuple_bytes(b"open", &columns(&["a", "b"]));
    assert_eq!(decoding_error(result), "Unexpected end of tuple data at column 'b'");
}

#[test]
fn written_rows_read_back() {
    let fields = vec![
        Field::Text(b"42".to_vec()),
        Field::Null,
        Field::Unchanged,
        Field::Text(b"".to_vec()),
        Field::Text(b"done".to_vec()),
    ];
    let bytes = write_tuple(&fields);
    assert_eq!(bytes, b"42\0\xff\xff\0done\0".to_vec());
    let parsed =
        TupleParser::parse_tuple_bytes(&bytes, &columns(&["a", "b", "c", "d", "e"])).unwrap();
    assert_eq!(text(&parsed[0].1), "42");
    assert!(matches!(parsed[1].1, TupleValue::Null));
    assert!(matches!(parsed[2].1, TupleValue::Null));
    assert!(matches!(parsed[3].1, TupleValue::Null));
    assert_eq!(text(&parsed[4].1), "done");
}

#[test]
fn first_column_of_a_name_is_found() {
    let parsed = row(&[("a", "1"), ("b", "2"), ("a", "3")]);
    assert_eq!(text(TupleParser::get_column_value(&parsed, "a").unwrap()), "1");
    assert_eq!(text(TupleParser::get_column_value(&parsed, "b").unwrap()), "2");
    assert!(TupleParser::get_column_value(&parsed, "c").is_none());
    assert!(TupleParser::get_column_value(&parsed, "").is_none());
}

#[test]
fn text_value_says_why_there_is_none() {
    let parsed = vec![
        ("t".to_string(), TupleValue::Text("hello".to_string())),
        ("n".to_string(), TupleValue::Null),
        ("b".to_string(), TupleValue::Binary(vec![255])),
    ];
    assert_eq!(TupleParser::get_text_value(&parsed, "t").unwrap(), "hello");
    assert_eq!(decoding_error(TupleParser::get_text_value(&parsed, "n")), "Column 'n' is NULL");
    assert_eq!(
        decoding_error(TupleParser::get_text_value(&parsed, "b")),
        "Column 'b' is binary data"
    );
    assert_eq!(decoding_error(TupleParser::get_text_value(&parsed, "x")), "Column 'x' not found");
}

#[test]
fn i32_values() {
    let parsed = row(&[
        ("plain", "42"),
        ("minus", "-7"),
        ("plus", "+5"),
        ("max", "2147483647"),
        ("min", "-2147483648"),
        ("zeros", "-007"),
    ]);
    assert_eq!(TupleParser::parse_i32(&parsed, "plain").unwrap(), 42);
    assert_eq!(TupleParser::parse_i32(&parsed, "minus").unwrap(), -7);
    assert_eq!(TupleParser::parse_i32(&parsed, "plus").unwrap(), 5);
    assert_eq!(TupleParser::parse_i32(&parsed, "max").unwrap(), i32::MAX);
    assert_eq!(TupleParser::parse_i32(&parsed, "min").unwrap(), i32::MIN);
    assert_eq!(TupleParser::parse_i32(&parsed, "zeros").unwrap(), -7);
}

#[test]
fn i32_refusals() {
    let parsed = row(&[
        ("big", "2147483648"),
        ("small", "-2147483649"),
        ("word", "12a"),
        ("sign", "-"),
        ("space", " 1"),
        ("twice", "--1"),
    ]);
    assert_eq!(
        decoding_error(TupleParser::parse_i32(&parsed, "big")),
        "Failed to parse 'big' as i32: number too large to fit in target type"
    );
    assert_eq!(
        decoding_error(TupleParser::parse_i32(&parsed, "small")),
        "Failed to parse 'small' as i32: number too small to fit in target type"
    );
    for name in ["word", "sign", "space", "twice"] {
        assert_eq!(
            decoding_error(TupleParser::parse_i32(&parsed, name)),
            format!("Failed to parse '{}' as i32: invalid digit found in string", name)
        );
    }
    assert_eq!(decoding_error(TupleParser::parse_i32(&parsed, "none")), "Column 'none' not found");
}

#[test]
fn i64_values_and_refusals() {
    let parsed = row(&[
        ("max", "9223372036854775807"),
        ("min", "-9223372036854775808"),
        ("big", "9223372036854775808"),
        ("word", "1_000"),
    ]);
    assert_eq!(TupleParser::parse_i64(&parsed, "max").unwrap(), i64::MAX);
    assert_eq!(TupleParser::parse_i64(&parsed, "min").unwrap(), i64::MIN);
    assert_eq!(
        decoding_error(TupleParser::parse_i64(&parsed, "big")),
        "Failed to parse 'big' as i64: number too large to fit in target type"
    );
    assert_eq!(
        decoding_error(TupleParser::parse_i64(&parsed, "word")),
        "Failed to parse 'word' as i64: invalid digit found in string"
    );
    assert_eq!(decoding_error(TupleParser::parse_i64(&parsed, "none")), "Column 'none' not found");
}

#[test]
fn bool_words() {
    for word in ["t", "true", "1"] {
        assert!(TupleParser::parse_bool(&row(&[("b", word)]), "b").unwrap());
    }
    for word in ["f", "false", "0"] {
        assert!(!TupleParser::parse_bool(&row(&[("b", word)]), "b").unwrap());
    }
    for word in ["T", "yes", "", "true ", "10"] {
        assert_eq!(
            decoding_error(TupleParser::parse_bool(&row(&[("b", word)]), "b")),
            format!("Failed to parse 'b' as bool: '{}'", word)
        );
    }
    let null = vec![("b".to_string(), TupleValue::Null)];
    assert_eq!(decoding_error(TupleParser::parse_bool(&null, "b")), "Column 'b' is NULL");
}

#[test]
fn number_outcomes() {
    assert_eq!(i32_outcome(Ok(-3), "n").unwrap(), -3);
    assert_eq!(
        decoding_error(i32_outcome(Err("no digits".to_string()), "n")),
        "Failed to parse 'n' as i32: no digits"
    );
    assert_eq!(i64_outcome(Ok(1 << 40), "n").unwrap(), 1 << 40);
    assert_eq!(
        decoding_error(i64_outcome(Err("no digits".to_string()), "n")),
        "Failed to parse 'n' as i64: no digits"
    );
}
