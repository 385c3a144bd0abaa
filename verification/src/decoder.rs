//! Decoding of one raw line into a record.

use crate::error::SourceError;
use crate::file_type::FileType;
use crate::record::{lemma_member_views, member_views, members_map, JsonValue, Number, Record};
use crate::text::optional_text;
use serde_json::Value;
use vstd::prelude::*;
use vstd::string::StringExecFns;

verus! {

/// `serde_json::Value`, taken as it is: what it holds is named by
/// [`json_tree`].
#[verifier::external_type_specification]
#[verifier::external_body]
pub struct ExJsonTree(serde_json::Value);

/// `serde_json::Error`, of which nothing is read.
#[verifier::external_type_specification]
#[verifier::external_body]
pub struct ExJsonError(serde_json::Error);

/// `csv::Error`, of which nothing is read.
#[verifier::external_type_specification]
#[verifier::external_body]
pub struct ExCsvError(csv::Error);

/// What `serde_json::from_str` makes of a text that is read as one
/// `serde_json::Value`: the value, or nothing where it reports an error.
pub uninterp spec fn json_parse(text: Seq<char>) -> Option<JsonValue>;

/// The value that a `serde_json::Value` holds.
pub uninterp spec fn json_tree(value: serde_json::Value) -> JsonValue;

/// Calls `serde_json::from_str` for a `serde_json::Value`. The result is a
/// function of the text alone: it is the value named by [`json_parse`], and an
/// error exactly where that is nothing.
#[verifier::external_body]
fn parse_json(text: &str) -> (parsed: Result<serde_json::Value, serde_json::Error>)
    ensures
        json_parse(text@) == (match parsed {
            Ok(value) => Some(json_tree(value)),
            Err(_) => None,
        }),
{
    serde_json::from_str::<serde_json::Value>(text)
}

/// Copies a `serde_json::Value` into a record, variant by variant; the
/// result holds the value named by [`json_tree`]. A number is told apart by
/// `as_u64` and `as_i64`: an integer from zero up, a negative integer, or else
/// a float, which is handed on as its bits. The members of an object come in
/// the order in which its map hands them out, each key once.
#[verifier::external_body]
fn record_of(value: &Value) -> (record: Record)
    ensures
        record@ == json_tree(*value),
{
    match value {
        Value::Null => Record::Null,
        Value::Bool(b) => Record::Bool(*b),
        Value::Number(n) => Record::Number(match n.as_u64() {
            Some(u) => Number::PosInt(u),
            None => match n.as_i64() {
                Some(i) => Number::NegInt(i),
                None => Number::Float(n.as_f64().unwrap_or_default().to_bits()),
            },
        }),
        Value::String(s) => Record::String(s.clone()),
        Value::Array(a) => Record::Array(a.iter().map(record_of).collect()),
        Value::Object(o) => Record::Object(o.iter().map(|(k, v)| (k.clone(), record_of(v))).collect()),
    }
}

/// The record that a line of a JSON source holds.
pub open spec fn json_line(text: Seq<char>) -> Result<JsonValue, SourceError> {
    match json_parse(text) {
        Some(value) => Ok(value),
        None => Err(SourceError::MalformedJson),
    }
}

/// Decodes a line as one JSON value.
pub fn decode_json_line(raw_line: &str) -> (decoded: Result<Record, SourceError>)
    ensures
        match decoded {
            Ok(record) => json_line(raw_line@) == Ok::<JsonValue, SourceError>(record@),
            Err(error) => json_line(raw_line@) == Err::<JsonValue, SourceError>(error),
        },
{
    match parse_json(raw_line) {
        Ok(value) => Ok(record_of(&value)),
        Err(_) => Err(SourceError::MalformedJson),
    }
}

/// What the csv reader makes of a document: it refuses it, finds no row under
/// the header, or hands out the first row as pairs of a column's name and the
/// field in that column.
pub enum CsvOutcome {
    Refused,
    NoRow,
    Row(Seq<(Seq<char>, Seq<char>)>),
}

/// What a `csv::Reader` with its default settings makes of a document whose
/// first row is read into a map from each column's name to the row's field in
/// that column, both as text.
pub uninterp spec fn csv_first_row(document: Seq<char>) -> CsvOutcome;

/// Calls `csv::Reader::from_reader` on the document's bytes, then
/// `deserialize` and the iterator's `next` once, for a map from `String` to
/// `String`. The result is a function of the document alone, named by
/// [`csv_first_row`]: an error where the reader reports one, nothing where it
/// finds no row, else the pairs of the map.
#[verifier::external_body]
fn read_csv_row(document: &str) -> (row: Result<Option<Vec<(String, String)>>, csv::Error>)
    ensures
        csv_first_row(document@) == (match row {
            Ok(Some(fields)) => CsvOutcome::Row(fields.deep_view()),
            Ok(None) => CsvOutcome::NoRow,
            Err(_) => CsvOutcome::Refused,
        }),
{
    let mut reader = csv::Reader::from_reader(document.as_bytes());
    let mut rows = reader.deserialize::<std::collections::BTreeMap<String, String>>();
    Ok(rows.next().transpose()?.map(|fields| fields.into_iter().collect()))
}

/// The members of the record of a row: each field as a string under its
/// column's name.
pub open spec fn string_members(fields: Seq<(Seq<char>, Seq<char>)>) -> Seq<
    (Seq<char>, JsonValue),
> {
    Seq::new(fields.len(), |i: int| (fields[i].0, JsonValue::String(fields[i].1)))
}

/// The record of what the csv reader made of a document.
pub open spec fn csv_record(outcome: CsvOutcome) -> Result<JsonValue, SourceError> {
    match outcome {
        CsvOutcome::Row(fields) => Ok(JsonValue::Object(members_map(string_members(fields)))),
        CsvOutcome::NoRow => Err(SourceError::MissingRow),
        CsvOutcome::Refused => Err(SourceError::MalformedCsv),
    }
}

/// The record that a line of a CSV source holds under a header: the line is
/// read as the one row of a document that starts with the header line.
pub open spec fn csv_line(header: Seq<char>, line: Seq<char>) -> Result<JsonValue, SourceError> {
    csv_record(csv_first_row(header + seq!['\n'] + line))
}

/// The record that a line holds in a source of the given format.
pub open spec fn decoded(line: Seq<char>, file_type: FileType, header: Option<Seq<char>>) -> Result<
    JsonValue,
    SourceError,
> {
    match file_type {
        FileType::JSON => json_line(line),
        FileType::CSV => match header {
            Some(header) => csv_line(header, line),
            None => Err(SourceError::MissingHeader),
        },
        FileType::PARQUET => Err(SourceError::UnsupportedFormat),
    }
}

/// The record of a row: an object with one string member for each field.
pub fn record_from_fields(fields: &Vec<(String, String)>) -> (record: Record)
    ensures
        record@ == JsonValue::Object(members_map(string_members(fields.deep_view()))),
{
    let mut members: Vec<(String, Record)> = Vec::new();
    let mut i: usize = 0;
    while i < fields.len()
        invariant
            i <= fields.len(),
            members.len() == i,
            forall|j: int|
                0 <= j < i ==> members@[j].0@ == fields@[j].0@ && members@[j].1@
                    == JsonValue::String(fields@[j].1@),
        decreases fields.len() - i,
    {
        members.push((fields[i].0.clone(), Record::String(fields[i].1.clone())));
        i += 1;
    }
    proof {
        lemma_member_views(members@);
        assert(member_views(members@) =~= string_members(fields.deep_view()));
    }
    Record::Object(members)
}

/// Decodes a line as the one row under the header.
pub fn decode_csv_line(header: &str, raw_line: &str) -> (decoded: Result<Record, SourceError>)
    ensures
        match decoded {
            Ok(record) => csv_line(header@, raw_line@) == Ok::<JsonValue, SourceError>(record@),
            Err(error) => csv_line(header@, raw_line@) == Err::<JsonValue, SourceError>(error),
        },
{
    let mut document = header.to_owned();
    document.append("\n");
    document.append(raw_line);
    proof {
        reveal_strlit("\n");
        assert("\n"@ =~= seq!['\n']);
    }
    match read_csv_row(document.as_str()) {
        Ok(Some(fields)) => Ok(record_from_fields(&fields)),
        Ok(None) => Err(SourceError::MissingRow),
        Err(_) => Err(SourceError::MalformedCsv),
    }
}

/// Decodes one raw line of a source of the given format. A CSV line is
/// decoded under the header of its source.
pub fn decode_line(raw_line: &str, file_type: FileType, header: Option<&str>) -> (result: Result<
    Record,
    SourceError,
>)
    ensures
        match result {
            Ok(record) => decoded(raw_line@, file_type, optional_text(header)) == Ok::<
                JsonValue,
                SourceError,
            >(record@),
            Err(error) => decoded(raw_line@, file_type, optional_text(header)) == Err::<
                JsonValue,
                SourceError,
            >(error),
        },
{
    match file_type {
        FileType::JSON => decode_json_line(raw_line),
        FileType::CSV => match header {
            Some(header) => decode_csv_line(header, raw_line),
            None => Err(SourceError::MissingHeader),
        },
        FileType::PARQUET => Err(SourceError::UnsupportedFormat),
    }
}

} // verus!
