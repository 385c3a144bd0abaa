use batch_uploader::decoder::{
    decode_csv_line, decode_json_line, decode_line, record_from_fields,
};
use batch_uploader::error::SourceError;
use batch_uploader::file_type::FileType;
use batch_uploader::record::{Number, Record};

fn text(s: &str) -> Record {
    Record::String(s.to_string())
}

fn num(n: u64) -> Record {
    Record::Number(Number::PosInt(n))
}

fn object(members: Vec<(&str, Record)>) -> Record {
    Record::Object(members.into_iter().map(|(k, v)| (k.to_string(), v)).collect())
}

#[test]
fn csv_line_under_its_header() {
    let record = decode_line("1,2", FileType::CSV, Some("a,b"));
    assert_eq!(record, Ok(object(vec![("a", text("1")), ("b", text("2"))])));
}

#[test]
fn csv_fields_stay_text() {
    let record = decode_csv_line("flag,name,size", "true,\"Smith, J\",-1.5");
    assert_eq!(
        record,
        Ok(object(vec![("flag", text("true")), ("name", text("Smith, J")), ("size", text("-1.5"))]))
    );
}

#[test]
fn csv_row_with_too_few_or_too_many_fields_is_refused() {
    assert_eq!(decode_csv_line("a,b", "1"), Err(SourceError::MalformedCsv));
    assert_eq!(decode_csv_line("a,b", "1,2,3"), Err(SourceError::MalformedCsv));
}

#[test]
fn csv_line_without_a_row() {
    assert_eq!(decode_csv_line("a,b", ""), Err(SourceError::MissingRow));
    assert_eq!(decode_csv_line("", ""), Err(SourceError::MissingRow));
}

#[test]
fn csv_line_without_a_header() {
    assert_eq!(decode_line("1,2", FileType::CSV, None), Err(SourceError::MissingHeader));
}

#[test]
fn csv_header_with_one_column() {
    assert_eq!(decode_csv_line("a", "x y"), Ok(object(vec![("a", text("x y"))])));
}

#[test]
fn record_of_a_row() {
    let fields = vec![("a".to_string(), "1".to_string()), ("b".to_string(), "".to_string())];
    assert_eq!(record_from_fields(&fields), object(vec![("a", text("1")), ("b", text(""))]));
    assert_eq!(record_from_fields(&vec![]), object(vec![]));
}

#[test]
fn json_line_with_an_object() {
    let record = decode_line("{\"a\": 1, \"b\": \"x\"}", FileType::JSON, None);
    assert_eq!(record, Ok(object(vec![("a", num(1)), ("b", text("x"))])));
}

#[test]
fn json_line_ignores_a_header() {
    let record = decode_line("[true]", FileType::JSON, Some("a,b"));
    assert_eq!(record, Ok(Record::Array(vec![Record::Bool(true)])));
}

#[test]
fn json_scalars() {
    assert_eq!(decode_json_line("null"), Ok(Record::Null));
    assert_eq!(decode_json_line("true"), Ok(Record::Bool(true)));
    assert_eq!(decode_json_line("false"), Ok(Record::Bool(false)));
    assert_eq!(decode_json_line("\"a\\nb\""), Ok(text("a\nb")));
    assert_eq!(decode_json_line(" 12 "), Ok(num(12)));
}

#[test]
fn json_numbers_keep_their_form() {
    assert_eq!(decode_json_line("0"), Ok(num(0)));
    assert_eq!(decode_json_line("18446744073709551615"), Ok(num(u64::MAX)));
    assert_eq!(decode_json_line("-1"), Ok(Record::Number(Number::NegInt(-1))));
    assert_eq!(
        decode_json_line("-9223372036854775808"),
        Ok(Record::Number(Number::NegInt(i64::MIN)))
    );
    assert_eq!(decode_json_line("1.5"), Ok(Record::Number(Number::Float(1.5f64.to_bits()))));
    assert_eq!(decode_json_line("-0.25"), Ok(Record::Number(Number::Float((-0.25f64).to_bits()))));
    assert_eq!(decode_json_line("1e2"), Ok(Record::Number(Number::Float(100.0f64.to_bits()))));
}

#[test]
fn json_nested_values() {
    let record = decode_json_line("{\"a\": [1, {\"b\": null}], \"c\": {\"d\": [[]]}}");
    assert_eq!(
        record,
        Ok(object(vec![
            ("a", Record::Array(vec![num(1), object(vec![("b", Record::Null)])])),
            ("c", object(vec![("d", Record::Array(vec![Record::Array(vec![])]))])),
        ]))
    );
}

#[test]
fn json_object_with_a_key_twice_holds_the_later_value() {
    let record = decode_json_line("{\"a\": 1, \"a\": 2}").unwrap();
    assert_eq!(record.get("a"), Some(&num(2)));
    assert_eq!(record.as_object().map(|members| members.len()), Some(1));
}

#[test]
fn malformed_json_is_refused() {
    assert_eq!(decode_json_line(""), Err(SourceError::MalformedJson));
    assert_eq!(decode_json_line("{"), Err(SourceError::MalformedJson));
    assert_eq!(decode_json_line("{\"a\": 1} x"), Err(SourceError::MalformedJson));
    assert_eq!(decode_json_line("{'a': 1}"), Err(SourceError::MalformedJson));
    assert_eq!(decode_json_line("1,2"), Err(SourceError::MalformedJson));
}

#[test]
fn parquet_cannot_be_decoded() {
    assert_eq!(decode_line("{}", FileType::PARQUET, None), Err(SourceError::UnsupportedFormat));
    assert_eq!(
        decode_line("1,2", FileType::PARQUET, Some("a,b")),
        Err(SourceError::UnsupportedFormat)
    );
}

#[test]
fn source_errors_have_messages() {
    for error in [
        SourceError::InvalidText,
        SourceError::MalformedJson,
        SourceError::MalformedCsv,
        SourceError::MissingRow,
        SourceError::MissingHeader,
        SourceError::UnsupportedFormat,
    ] {
        assert!(!error.message().is_empty());
    }
    assert_eq!(SourceError::MissingHeader.message(), "the source has no header line");
}

#[test]
fn json_integers_beyond_64_bits_become_floats() {
    assert_eq!(
        decode_json_line("18446744073709551616"),
        Ok(Record::Number(Number::Float(18446744073709551616.0f64.to_bits())))
    );
    assert_eq!(
        decode_json_line("-9223372036854775809"),
        Ok(Record::Number(Number::Float((-9223372036854775809.0f64).to_bits())))
    );
}

#[test]
fn json_numbers_out_of_range_are_refused() {
    assert_eq!(decode_json_line("1e400"), Err(SourceError::MalformedJson));
}

#[test]
fn json_nested_too_deep_is_refused() {
    let deep = "[".repeat(200) + &"]".repeat(200);
    assert_eq!(decode_json_line(&deep), Err(SourceError::MalformedJson));
    let shallow = "[".repeat(100) + &"]".repeat(100);
    assert!(decode_json_line(&shallow).is_ok());
}

#[test]
fn csv_header_with_a_column_twice_holds_the_later_field() {
    let record = decode_csv_line("a,a", "1,2").unwrap();
    assert_eq!(record.get("a"), Some(&text("2")));
}
